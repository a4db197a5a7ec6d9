//! What the client tells the user, told of what its functions give back.

use vstd::prelude::*;

use crate::client::credentials;
use crate::client::credentials::{CredentialError, CredentialFault};
use crate::client::options::ClientOptions;
use crate::client::query;
use crate::client::report;
use crate::client::report::{Field, ValueView};
use crate::client::sync::{DirectoryDiffSummary, FileAction, SyncTally};
use crate::protocol::message::{ListResult, StatResult};
use crate::text;
use crate::util;
use crate::util::TransferId;

verus! {

/// A report has a field with a name and a value.
pub open spec fn tells(r: Seq<Field>, name: &'static str, v: ValueView) -> bool {
    exists|i: int| 0 <= i < r.len() && #[trigger] report::fields(r)[i] == (name, v)
}

proof fn lemma_tells(r: Seq<Field>, s: Seq<(&'static str, ValueView)>, i: int)
    requires
        report::fields(r) == s,
        0 <= i < s.len(),
    ensures
        tells(r, s[i].0, s[i].1),
{
    assert(report::fields(r)[i] == (s[i].0, s[i].1));
}

/// The report of an upload: how large the file is, what was sent of it, and its
/// digest.
pub proof fn law_upload_is_reported(
    id: TransferId,
    size: u64,
    sent: u64,
    hash: util::Hash,
    r: Vec<Field>,
)
    requires
        call_ensures(report::upload_event, (id, size, sent, hash), r),
    ensures
        tells(r@, "transfer_id", ValueView::Text(util::transfer_id_text(id@))),
        tells(r@, "file_size", ValueView::Number(size)),
        tells(r@, "bytes_transferred", ValueView::Number(sent)),
        tells(r@, "file_hash", ValueView::Text(text::hex(hash@))),
        tells(r@, "op", ValueView::Text("upload"@)),
        tells(r@, "status", ValueView::Text("committed"@)),
{
    let s = report::fields(r@);
    lemma_tells(r@, s, 2);
    lemma_tells(r@, s, 3);
    lemma_tells(r@, s, 4);
    lemma_tells(r@, s, 5);
    lemma_tells(r@, s, 7);
    lemma_tells(r@, s, 8);
}

/// The report of a download: what was received, its digest, and where it is.
pub proof fn law_download_is_reported(
    id: TransferId,
    got: u64,
    hash: util::Hash,
    local: &str,
    r: Vec<Field>,
)
    requires
        call_ensures(report::download_event, (id, got, hash, local), r),
    ensures
        tells(r@, "transfer_id", ValueView::Text(util::transfer_id_text(id@))),
        tells(r@, "bytes_completed", ValueView::Number(got)),
        tells(r@, "file_hash", ValueView::Text(text::hex(hash@))),
        tells(r@, "local_path", ValueView::Text(local@)),
        tells(r@, "op", ValueView::Text("download"@)),
        tells(r@, "status", ValueView::Text("committed"@)),
{
    let s = report::fields(r@);
    lemma_tells(r@, s, 2);
    lemma_tells(r@, s, 3);
    lemma_tells(r@, s, 4);
    lemma_tells(r@, s, 5);
    lemma_tells(r@, s, 6);
    lemma_tells(r@, s, 7);
}

/// The report of a transfer that was resumed.
pub proof fn law_resume_is_reported(id: TransferId, size: u64, hash: util::Hash, r: Vec<Field>)
    requires
        call_ensures(report::resume_event, (id, size, hash), r),
    ensures
        tells(r@, "transfer_id", ValueView::Text(util::transfer_id_text(id@))),
        tells(r@, "file_size", ValueView::Number(size)),
        tells(r@, "file_hash", ValueView::Text(text::hex(hash@))),
        tells(r@, "op", ValueView::Text("resume"@)),
        tells(r@, "status", ValueView::Text("committed"@)),
{
    let s = report::fields(r@);
    lemma_tells(r@, s, 2);
    lemma_tells(r@, s, 3);
    lemma_tells(r@, s, 4);
    lemma_tells(r@, s, 5);
    lemma_tells(r@, s, 6);
}

/// The report of a transfer that was asked about has what the server said; so
/// has that of one in a list, but for its times.
pub proof fn law_state_is_reported(m: StatResult, r: Vec<Field>, l: Vec<Field>)
    requires
        call_ensures(report::stat_event, (&m,), r),
        call_ensures(report::list_event, (&m,), l),
    ensures
        tells(r@, "transfer_id", ValueView::Text(util::transfer_id_text(m@.transfer_id))),
        tells(r@, "status", ValueView::Text(m@.status)),
        tells(r@, "direction", ValueView::Text(m@.direction)),
        tells(r@, "remote_path", ValueView::Text(m@.remote_path)),
        tells(r@, "file_size", ValueView::Number(m@.file_size)),
        tells(r@, "bytes_completed", ValueView::Number(m@.bytes_completed)),
        tells(r@, "verified_up_to", ValueView::Number(m@.verified_up_to)),
        tells(r@, "created_ms", ValueView::Number(m@.created_ms)),
        tells(r@, "updated_ms", ValueView::Number(m@.updated_ms)),
        forall|i: int| 0 <= i < 8 ==> report::fields(l@)[i] == #[trigger] report::fields(r@)[i],
        l@.len() == 8,
{
    let s = report::fields(r@);
    lemma_tells(r@, s, 2);
    lemma_tells(r@, s, 3);
    lemma_tells(r@, s, 4);
    lemma_tells(r@, s, 5);
    lemma_tells(r@, s, 6);
    lemma_tells(r@, s, 7);
    lemma_tells(r@, s, 8);
    lemma_tells(r@, s, 9);
    lemma_tells(r@, s, 10);
    assert(report::fields(l@).len() == l@.len());
}

/// The report of what is done about a file in a sync.
pub proof fn law_action_is_reported(a: FileAction, r: Vec<Field>)
    requires
        call_ensures(report::action_fields, (&a,), r),
    ensures
        tells(r@, "action", ValueView::Text(a.action.text()@)),
        tells(r@, "path", ValueView::Text(a.rel_path@)),
        tells(r@, "size", ValueView::Number(a.src_size)),
        tells(r@, "reused", ValueView::Number(a.bytes_reusable)),
{
    let s = report::fields(r@);
    lemma_tells(r@, s, 0);
    lemma_tells(r@, s, 1);
    lemma_tells(r@, s, 2);
    lemma_tells(r@, s, 3);
}

/// A sync with a server is reported like another one, with the bytes that went
/// over the wire.
pub proof fn law_remote_sync_is_reported(
    source: &str,
    destination: &str,
    d: DirectoryDiffSummary,
    t: SyncTally,
    local: Vec<Field>,
    remote: Vec<Field>,
    i: int,
)
    requires
        call_ensures(report::sync_event, (false, source, destination, &d, &t), local),
        call_ensures(report::remote_sync_event, (source, destination, &d, &t), remote),
    ensures
        remote@.len() == local@.len() + 1,
        0 <= i < local@.len() ==> report::fields(remote@)[i] == report::fields(local@)[i],
        report::fields(remote@).last() == ("wire_bytes_transferred", ValueView::Number(t.wire_bytes)),
{
    assert(report::fields(remote@).len() == remote@.len());
    assert(report::fields(local@).len() == local@.len());
}

/// A list has a line for each transfer, in its order, which starts with the id
/// and ends with the path; an empty one says so.
pub proof fn law_list_is_shown(l: ListResult, prefix: &str, out: Vec<String>, i: int)
    requires
        call_ensures(query::list_lines, (&l, prefix), out),
    ensures
        l.entries@.len() == 0 ==> out@.len() == 1,
        l.entries@.len() > 0 ==> out@.len() == l.entries@.len(),
        0 <= i < l.entries@.len() && l.entries@[i]@.transfer_id.len() == 16
            ==> util::transfer_id_text(l.entries@[i]@.transfer_id).is_prefix_of(out@[i]@)
            && l.entries@[i]@.remote_path.is_suffix_of(out@[i]@),
{
    assert(query::strings(out@).len() == out@.len());
    if 0 <= i < l.entries@.len() && l.entries@[i]@.transfer_id.len() == 16 {
        assert(query::strings(out@)[i] == out@[i]@);
        let e = l.entries@[i]@;
        let id = util::transfer_id_text(e.transfer_id);
        crate::texts::law_identifier_text(e.transfer_id);
        assert(text::padded_right(id, 26) =~= id);
    }
}

/// The client needs a file of certificate authorities; of several keys the last
/// is taken, and without one it is an error.
pub proof fn law_credentials_are_needed(
    o: ClientOptions,
    ca: Result<String, CredentialError>,
    keys: Vec<Vec<u8>>,
    path: &str,
    k: Result<Vec<u8>, CredentialError>,
)
    requires
        call_ensures(credentials::ca_file, (&o,), ca),
        call_ensures(credentials::last_key, (keys, path), k),
    ensures
        ca is Ok <==> o.ca is Some,
        ca matches Ok(s) ==> (o.ca matches Some(p) && s@ == p@),
        ca matches Err(e) ==> e@ == CredentialFault::NoCa,
        k is Ok <==> keys@.len() > 0,
        k matches Ok(x) ==> x@ == keys@[keys@.len() - 1]@,
        k matches Err(e) ==> e@ == CredentialFault::NoKey(path@),
{
}

} // verus!
