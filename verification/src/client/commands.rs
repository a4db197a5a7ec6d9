//! What the commands of the client come to.

use vstd::prelude::*;
use vstd::utf8;

use crate::auth::grants;
use crate::chunking::ChunkMode;
use crate::client;
use crate::client::options;
use crate::client::query;
use crate::client::report;
use crate::client::report::ValueView;
use crate::client::resume;
use crate::client::sync;
use crate::client::sync::{
    DeleteMode, DirectoryDiffSummary, FileAction, FileActionType, SyncTally,
};
use crate::client::upload::{UploadStage, UploadStepView, UploadView};
use crate::client::url;
use crate::client::url::{TargetView, UrlError};
use crate::client::ClientFault;
use crate::foreign;
use crate::protocol::error::ErrorCode;
use crate::protocol::message;
use crate::protocol::message::{
    Committed, ErrorMsg, ListResult, ListResultView, MessageView, Ping, ResumeState,
    ResumeStateView, StatResult, StatResultView, VerifyResult,
};
use crate::session::agreement;
use crate::session::client as side;
use crate::text;

verus! {

/// A sync transfers the files that are only at the source and those that
/// differ; it deletes those that are only at the destination, if it is asked
/// to; those that are the same it leaves alone. Everything is done once.
pub proof fn law_what_is_synchronized(a: Seq<FileAction>, delete_after: bool, k: int)
    requires
        0 <= k < a.len(),
    ensures
        sync::order(a, delete_after).no_duplicates(),
        sync::order(a, delete_after).contains(k) <==> match a[k].action {
            FileActionType::Add => true,
            FileActionType::Modify => true,
            FileActionType::Delete => delete_after,
            FileActionType::Unchanged => false,
        },
{
    sync::law_schedule_complete(a, delete_after, k);
}

/// Every deletion of a sync comes behind all its transfers.
pub proof fn law_deletions_come_last(a: Seq<FileAction>, delete_after: bool, i: int, j: int)
    requires
        0 <= i < j < sync::order(a, delete_after).len(),
    ensures
        0 <= sync::order(a, delete_after)[i] < a.len(),
        0 <= sync::order(a, delete_after)[j] < a.len(),
        a[sync::order(a, delete_after)[i]].action == FileActionType::Delete
            ==> a[sync::order(a, delete_after)[j]].action == FileActionType::Delete,
{
    let s = sync::order(a, delete_after);
    if a.len() == 0 {
        assert(s.len() == 0);
    } else {
        sync::law_schedule_complete(a, delete_after, 0);
        assert(0 <= s[i] < a.len());
        assert(0 <= s[j] < a.len());
        if a[s[j]].action.transfers() {
            assert(a[s[i]].action.transfers());
        }
    }
}

/// A file of a directory on the server stands below the directory, with one
/// slash between.
pub proof fn law_remote_file_is_below(dir: Seq<char>, slashes: Seq<char>, rel_path: Seq<char>)
    requires
        grants::slashes(slashes),
        dir.len() > 0,
        dir.last() != '/',
    ensures
        sync::remote_path(dir + slashes, rel_path) == dir + seq!['/'] + rel_path,
        sync::remote_path(Seq::empty(), rel_path) == rel_path,
{
    reveal_strlit("/");
    grants::law_trailing_slashes(dir, slashes);
    assert("/"@ =~= seq!['/']);
}

/// How local directories are synchronized: deleting and only reporting as it
/// was asked for, and in chunks as large as it was asked for.
pub proof fn law_local_sync_options(dry_run: bool, delete: bool, cdc: bool)
    ensures
        ({
            let o = sync::local_options(dry_run, delete, cdc);
            &&& o.dry_run == dry_run
            &&& o.delete_mode == DeleteMode::DeleteAfter <==> delete
            &&& o.mode == ChunkMode::Cdc <==> cdc
            &&& o.params.target == 1048576
            &&& o.params.min == if cdc {
                262144u64
            } else {
                1048576
            }
            &&& o.params.max == if cdc {
                4194304u64
            } else {
                1048576
            }
            &&& o.read_buffer_size == 2097152
        }),
{
}

/// What names something on a server starts with the scheme, and nothing else
/// does.
pub proof fn law_remote_has_scheme(s: Seq<char>)
    ensures
        url::is_remote(s) <==> exists|rest: Seq<char>| s == #[trigger] ("velcrux://"@ + rest),
        url::target_of(s) is Err && url::target_of(s)->Err_0 == UrlError::Scheme
            <==> !url::is_remote(s),
{
    let scheme = "velcrux://"@;
    if scheme.is_prefix_of(s) {
        assert(s =~= scheme + s.skip(scheme.len() as int));
    }
    if exists|rest: Seq<char>| s == #[trigger] (scheme + rest) {
        let rest = choose|rest: Seq<char>| s == #[trigger] (scheme + rest);
        assert(scheme =~= s.subrange(0, scheme.len() as int));
    }
}

/// A URL needs a host, and a port that is a number below 65536.
#[verifier::spinoff_prover]
#[verifier::rlimit(40)]
pub proof fn law_urls_that_are_refused(host: Seq<char>, n: nat)
    requires
        forall|i: int| 0 <= i < host.len() ==> host[i] != ':' && host[i] != '/',
    ensures
        ({
            let r = url::target_of("velcrux://"@ + (host + seq![':'] + text::decimal(n)));
            if n > 65535 {
                r == Err::<TargetView, UrlError>(UrlError::Port)
            } else if host.len() == 0 {
                r == Err::<TargetView, UrlError>(UrlError::NoHost)
            } else {
                r matches Ok(t) && t.host == host && t.port == n && t.path == "/"@
            }
        }),
{
    let scheme = "velcrux://"@;
    let digits = text::decimal(n);
    text::lemma_decimal_digits(n);
    let rest = host + seq![':'] + digits;
    assert((scheme + rest).skip(scheme.len() as int) =~= rest);
    assert forall|i: int| 0 <= i < rest.len() implies rest[i] != '/' by {
        if host.len() < i {
            assert(rest[i] == digits[i - host.len() - 1]);
        }
    }
    lemma_no_slash(rest, 0);
    assert(rest.take(rest.len() as int) =~= rest);
    assert forall|i: int| host.len() < i < rest.len() implies rest[i] != ':' by {
        assert(rest[i] == digits[i - host.len() - 1]);
    }
    lemma_last_colon(rest, rest.len() as int, host.len() as int);
    assert(rest.skip(host.len() as int + 1) =~= digits);
    assert(rest.take(host.len() as int) =~= host);
}

/// A URL with a colon but no port after it is refused, and so is one with
/// nothing after the scheme.
#[verifier::spinoff_prover]
#[verifier::rlimit(40)]
pub proof fn law_urls_without_port_or_host(host: Seq<char>)
    requires
        forall|i: int| 0 <= i < host.len() ==> host[i] != ':' && host[i] != '/',
    ensures
        url::target_of("velcrux://"@) == Err::<TargetView, UrlError>(UrlError::NoHost),
        url::target_of("velcrux://"@ + (host + seq![':'])) == Err::<TargetView, UrlError>(
            UrlError::Port,
        ),
{
    let scheme = "velcrux://"@;
    assert(scheme.skip(scheme.len() as int) =~= Seq::<char>::empty());
    let bare = host + seq![':'];
    assert((scheme + bare).skip(scheme.len() as int) =~= bare);
    lemma_no_slash(bare, 0);
    assert(bare.take(bare.len() as int) =~= bare);
    lemma_last_colon(bare, bare.len() as int, host.len() as int);
    assert(bare.skip(host.len() as int + 1) =~= Seq::<char>::empty());
    lemma_no_slash(Seq::empty(), 0);
    assert(Seq::<char>::empty().take(0) =~= Seq::<char>::empty());
}

proof fn lemma_no_slash(s: Seq<char>, i: int)
    requires
        0 <= i <= s.len(),
        forall|j: int| 0 <= j < s.len() ==> s[j] != '/',
    ensures
        text::find_from(s, '/', i) == s.len(),
    decreases s.len() - i,
{
    if i < s.len() {
        lemma_no_slash(s, i + 1);
    }
}

proof fn lemma_last_colon(s: Seq<char>, i: int, k: int)
    requires
        0 <= k < i <= s.len(),
        s[k] == ':',
        forall|j: int| k < j < i ==> s[j] != ':',
    ensures
        text::find_back(s, ':', i) == k + 1,
    decreases i,
{
    if k + 1 < i {
        lemma_last_colon(s, i - 1, k);
    }
}

/// A hexadecimal digit in UTF-8.
pub open spec fn digit_byte(d: int, upper: bool) -> u8 {
    if d < 10 {
        (0x30 + d) as u8
    } else if upper {
        (0x41 + d - 10) as u8
    } else {
        (0x61 + d - 10) as u8
    }
}

/// Bytes with each of them escaped: a percent sign and two digits.
pub open spec fn escaped(b: Seq<u8>, upper: bool) -> Seq<u8>
    decreases b.len(),
{
    if b.len() == 0 {
        Seq::empty()
    } else {
        seq![
            0x25u8,
            digit_byte(b[0] as int / 16, upper),
            digit_byte(b[0] as int % 16, upper),
        ] + escaped(b.skip(1), upper)
    }
}

/// Escaping is undone: what was escaped is read back, whatever it is.
pub proof fn law_escapes_are_undone(b: Seq<u8>, upper: bool)
    ensures
        url::unescaped(escaped(b, upper)) == b,
    decreases b.len(),
{
    if b.len() > 0 {
        law_escapes_are_undone(b.skip(1), upper);
        let e = escaped(b, upper);
        assert(e.skip(3) =~= escaped(b.skip(1), upper));
        assert(url::escape_at_start(e) == Some(b[0]));
        assert(seq![b[0]] + b.skip(1) =~= b);
    }
}

/// A flag is set if the command line sets it or the file does; an option is
/// what the command line gives, else what the file gives.
pub proof fn law_options_are_merged(a: Option<Seq<char>>, b: Option<Seq<char>>, f: bool, g: bool)
    ensures
        options::flag(f, Some(g)) == (f || g),
        options::flag(f, None) == f,
        a is Some ==> options::prefer(a, b) == a,
        a is None ==> options::prefer(a, b) == b,
{
}

/// The file that a transfer is resumed from is named like the last part of the
/// path on the server.
pub proof fn law_file_name_is_last_part(dir: Seq<char>, name: Seq<char>, slashes: Seq<char>)
    requires
        name.len() > 0,
        forall|i: int| 0 <= i < name.len() ==> name[i] != '/',
        name != seq!['.'],
        name != seq!['.', '.'],
        grants::slashes(slashes),
    ensures
        resume::file_name(dir + seq!['/'] + name + slashes) == Some(name),
        resume::file_name(name + slashes) == Some(name),
{
    reveal_strlit(".");
    reveal_strlit("..");
    assert("."@ =~= seq!['.']);
    assert(".."@ =~= seq!['.', '.']);
    let s = dir + seq!['/'] + name;
    assert(s.last() == name.last());
    grants::law_trailing_slashes(s, slashes);
    grants::law_trailing_slashes(name, slashes);
    lemma_last_slash(s, s.len() as int, dir.len() as int);
    assert(s.skip(dir.len() as int + 1) =~= name);
    lemma_never_slash(name, name.len() as int);
    assert(name.skip(0) =~= name);
}

proof fn lemma_last_slash(s: Seq<char>, i: int, k: int)
    requires
        0 <= k < i <= s.len(),
        s[k] == '/',
        forall|j: int| k < j < i ==> s[j] != '/',
    ensures
        text::find_back(s, '/', i) == k + 1,
    decreases i,
{
    if k + 1 < i {
        lemma_last_slash(s, i - 1, k);
    }
}

proof fn lemma_never_slash(s: Seq<char>, i: int)
    requires
        0 <= i <= s.len(),
        forall|j: int| 0 <= j < s.len() ==> s[j] != '/',
    ensures
        text::find_back(s, '/', i) == 0,
    decreases i,
{
    if i > 0 {
        lemma_never_slash(s, i - 1);
    }
}

/// A client that waits for a message takes it, and no other. An ERROR in its
/// place is reported with its code and its detail, where errors are reported.
pub proof fn law_only_the_expected_is_taken(
    t: u8,
    payload: Seq<u8>,
    wanted: u8,
    what: &'static str,
    reports: bool,
    e: ErrorMsg,
)
    requires
        wanted != 0x7F,
        message::wire_safe(message::Message::Error(e)),
    ensures
        client::expected((wanted, payload), wanted, what, reports) == Ok::<Seq<u8>, ClientFault>(
            payload,
        ),
        t != wanted && t != 0x7F ==> client::expected((t, payload), wanted, what, reports) == Err::<
            Seq<u8>,
            ClientFault,
        >(ClientFault::Expected { what, got: t }),
        client::expected(agreement::sent(MessageView::Error(e@)), wanted, what, true) == Err::<
            Seq<u8>,
            ClientFault,
        >(ClientFault::Server { code: e.code, detail: e.detail.0@ }),
        client::expected(agreement::sent(MessageView::Error(e@)), wanted, what, false) == Err::<
            Seq<u8>,
            ClientFault,
        >(ClientFault::Expected { what, got: 0x7F }),
        query::delete_fault(agreement::sent(MessageView::Error(e@))) == Some(
            ClientFault::Delete { code: e.code, detail: e.detail.0@ },
        ),
{
    message::session::law_error_msg_roundtrip(e);
}

/// The state of a transfer is read as the server meant it; one that it does
/// not know is an error.
#[verifier::spinoff_prover]
#[verifier::rlimit(40)]
pub proof fn law_stat_is_understood(s: StatResult, given: Seq<char>)
    requires
        s@.encoding() is Ok,
    ensures
        query::stat_answer(agreement::sent(MessageView::StatResult(s@)), given) == if s.found {
            Ok::<StatResultView, ClientFault>(s@)
        } else {
            Err(ClientFault::TransferNotFound(given))
        },
{
    message::progress::law_stat_result_roundtrip(s);
}

/// A list is read as the server meant it.
#[verifier::spinoff_prover]
#[verifier::rlimit(40)]
pub proof fn law_list_is_understood(l: ListResult)
    requires
        l@.encoding() is Ok,
        message::wire_safe(message::Message::ListResult(l)),
    ensures
        query::list_answer(agreement::sent(MessageView::ListResult(l@))) == Ok::<
            ListResultView,
            ClientFault,
        >(l@),
{
    let f = agreement::sent(MessageView::ListResult(l@));
    assert(f.0 == message::LIST_RESULT);
    assert(f.1 == l@.encoding()->Ok_0);
    message::progress::law_list_result_roundtrip(l);
}

/// What is there of a transfer is read as the server meant it.
#[verifier::spinoff_prover]
#[verifier::rlimit(40)]
pub proof fn law_resume_state_is_understood(r: ResumeState)
    requires
        r@.encoding() is Ok,
        message::wire_safe(message::Message::ResumeState(r)),
    ensures
        resume::resume_answer(agreement::sent(MessageView::ResumeState(r@))) == Ok::<
            ResumeStateView,
            ClientFault,
        >(r@),
{
    message::progress::law_resume_state_roundtrip(r);
}

/// A deletion that the server has committed is done.
pub proof fn law_deletion_is_understood(c: Committed)
    ensures
        query::delete_fault(agreement::sent(MessageView::Committed(c@))) is None,
{
    message::transfer::law_committed_roundtrip(c);
}

/// An upload commits what the server has verified, and fails with what it has
/// not; it is done once the server has committed.
pub proof fn law_upload_ends_as_verified(u: UploadView, v: VerifyResult, c: Committed)
    ensures
        u.stage == UploadStage::Verify && !v.ok ==> u.answer(
            agreement::sent(MessageView::VerifyResult(v@)),
        ) == Err::<(UploadView, UploadStepView), ClientFault>(ClientFault::VerifyMismatch),
        u.stage == UploadStage::Verify && v.ok ==> (u.answer(
            agreement::sent(MessageView::VerifyResult(v@)),
        ) matches Ok((next, UploadStepView::Send(m))) && next == u.at(UploadStage::Commit)
            && m.len() == 1 && (m[0] matches MessageView::Commit(k) && Some(k.transfer_id)
            == Some(u.transfer_id->0))),
        u.stage == UploadStage::Commit ==> u.answer(
            agreement::sent(MessageView::Committed(c@)),
        ) == Ok::<(UploadView, UploadStepView), ClientFault>(
            (u.at(UploadStage::Over), UploadStepView::Done),
        ),
{
    message::transfer::law_verify_result_roundtrip(v);
}

/// A PONG to another PING is refused.
pub proof fn law_pong_of_another_ping(nonce: u64, p: Ping)
    ensures
        side::pong_fault(nonce, Some(agreement::sent(MessageView::Pong(p)))) is None <==> p.nonce
            == nonce,
        side::pong_fault(nonce, None) is Some,
{
    message::session::law_ping_roundtrip(p);
}

/// The report of a sync gives each number under its name.
pub proof fn law_sync_report(
    dry_run: bool,
    source: Seq<char>,
    destination: Seq<char>,
    s: DirectoryDiffSummary,
    t: SyncTally,
)
    ensures
        ({
            let r = report::sync_fields(dry_run, source, destination, s, t);
            &&& r[2] == ("dry_run", ValueView::Flag(dry_run))
            &&& r[3] == ("source", ValueView::Text(source))
            &&& r[4] == ("destination", ValueView::Text(destination))
            &&& r[5] == ("files_unchanged", ValueView::Number(s.files_unchanged))
            &&& r[6] == ("files_modified", ValueView::Number(s.files_modified))
            &&& r[7] == ("files_added", ValueView::Number(s.files_added))
            &&& r[8] == ("files_deleted", ValueView::Number(s.files_deleted))
            &&& r[9] == ("data_present", ValueView::Number(s.data_present))
            &&& r[10] == ("data_to_transfer", ValueView::Number(s.data_to_transfer))
            &&& r[11] == ("files_transferred", ValueView::Number(t.files_transferred))
            &&& r[12] == ("files_committed", ValueView::Number(t.files_committed))
            &&& r[13] == ("files_deleted_count", ValueView::Number(t.files_deleted))
            &&& r.len() == 14
        }),
{
}

/// The names of the actions of a sync.
pub proof fn law_names_of_actions(a: FileActionType)
    ensures
        a.text() == match a {
            FileActionType::Add => "add",
            FileActionType::Modify => "modify",
            FileActionType::Delete => "delete",
            FileActionType::Unchanged => "unchanged",
        },
{
}

/// The user is told the code of an error by its name, and its detail.
pub proof fn law_errors_are_told(c: ErrorCode, detail: Seq<char>)
    ensures
        (ClientFault::Server { code: c, detail }).text() == "server error: code="@
            + client::code_name(c)@ + " detail=ErrorDetail("@ + foreign::debug_text(detail) + ")"@,
        (ClientFault::Delete { code: c, detail }).text() == "remote delete failed: code="@
            + client::code_name(c)@ + " detail=ErrorDetail("@ + foreign::debug_text(detail) + ")"@,
        client::code_name(c) == match c {
            ErrorCode::AuthFailed => "AuthFailed",
            ErrorCode::PermissionDenied => "PermissionDenied",
            ErrorCode::ProtocolVersionUnsupported => "ProtocolVersionUnsupported",
            ErrorCode::ProtocolViolation => "ProtocolViolation",
            ErrorCode::UnsupportedMessage => "UnsupportedMessage",
            ErrorCode::FileNotFound => "FileNotFound",
            ErrorCode::InvalidPath => "InvalidPath",
            ErrorCode::TransferNotFound => "TransferNotFound",
            ErrorCode::InvalidManifest => "InvalidManifest",
            ErrorCode::ChunkNotFound => "ChunkNotFound",
            ErrorCode::ChecksumMismatch => "ChecksumMismatch",
            ErrorCode::PartialWrite => "PartialWrite",
            ErrorCode::ResourceLimit => "ResourceLimit",
            ErrorCode::ServerBusy => "ServerBusy",
            ErrorCode::DiskFull => "DiskFull",
            ErrorCode::QuotaExceeded => "QuotaExceeded",
            ErrorCode::TransferCancelled => "TransferCancelled",
            ErrorCode::NetworkError => "NetworkError",
            ErrorCode::InternalError => "InternalError",
        },
{
}

/// A path that ends in two dots names no file, nor does an empty one; a dot at
/// its end is passed over.
pub proof fn law_paths_without_file_name(s: Seq<char>, slashes: Seq<char>)
    requires
        s.len() > 0,
        s.last() != '/',
        grants::slashes(slashes),
    ensures
        resume::file_name(slashes) is None,
        resume::file_name(s + seq!['/', '.', '.'] + slashes) is None,
        resume::file_name(s + seq!['/', '.'] + slashes) == resume::file_name(s),
{
    reveal_strlit(".");
    reveal_strlit("..");
    reveal_with_fuel(resume::file_name, 2);
    assert("."@ =~= seq!['.']);
    assert(".."@ =~= seq!['.', '.']);
    assert(Seq::<char>::empty() + slashes =~= slashes);
    grants::law_trailing_slashes(Seq::empty(), slashes);
    let two = s + seq!['/', '.', '.'];
    grants::law_trailing_slashes(two, slashes);
    lemma_last_slash(two, two.len() as int, s.len() as int);
    assert(two.skip(s.len() as int + 1) =~= seq!['.', '.']);
    let one = s + seq!['/', '.'];
    grants::law_trailing_slashes(one, slashes);
    lemma_last_slash(one, one.len() as int, s.len() as int);
    assert(one.skip(s.len() as int + 1) =~= seq!['.']);
    assert(one.take(s.len() as int + 1) =~= s + seq!['/']);
    grants::law_trailing_slashes(s, seq!['/']);
    grants::law_trailing_slashes(s, Seq::empty());
    assert(s + Seq::<char>::empty() =~= s);
}

/// A path of a URL is read without its escapes if that gives a text; else it
/// stays as it is.
pub proof fn law_url_paths(s: Seq<char>)
    ensures
        utf8::valid_utf8(url::unescaped(utf8::encode_utf8(s))) ==> utf8::encode_utf8(
            url::url_decoded(s),
        ) == url::unescaped(utf8::encode_utf8(s)),
        !utf8::valid_utf8(url::unescaped(utf8::encode_utf8(s))) ==> url::url_decoded(s) == s,
{
    let b = url::unescaped(utf8::encode_utf8(s));
    if utf8::valid_utf8(b) {
        utf8::decode_utf8_encode_utf8(b);
    }
}

/// A transfer is resumed with a file of the same size and content; what differs
/// is told, the own side first.
pub proof fn law_mismatch_is_told(local: u64, remote: u64)
    ensures
        (ClientFault::SizeMismatch { local, remote }).text() == "local file size ("@
            + text::decimal(local as nat) + ") does not match remote transfer size ("@
            + text::decimal(remote as nat) + ")"@,
        ClientFault::HashMismatch.text() == "local file hash does not match transfer file hash"@,
{
}

} // verus!
