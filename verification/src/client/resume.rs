//! Resuming an interrupted upload.

use vstd::prelude::*;

use crate::client::options;
use crate::client::upload;
use crate::client::{contents, expect, expected, ClientError, ClientFault};
use crate::protocol::frame::Frame;
use crate::protocol::message;
use crate::protocol::message::{
    Message, MessageView, Resume, ResumeState, ResumeStateView, ResumeView,
};
use crate::state::ChunkBitmap;
use crate::text;
use crate::util;
use crate::util::TransferId;

verus! {

/// Read a transfer id that the user has given.
pub fn transfer_id_of(given: &str) -> (r: Result<TransferId, ClientError>)
    ensures
        match util::transfer_id_of_text(given@) {
            Some(id) => r matches Ok(t) && t@ == id,
            None => r matches Err(e) && e@ == ClientFault::InvalidTransferId(given@),
        },
{
    match TransferId::from_string(given) {
        Some(t) => Ok(t),
        None => Err(ClientError::InvalidTransferId(given.to_owned())),
    }
}

/// The request to resume a transfer.
pub fn resume_request(transfer_id: TransferId) -> (r: Message)
    ensures
        r@ == MessageView::Resume(
            ResumeView { transfer_id: transfer_id@, idempotency_key: ""@ },
        ),
{
    Message::Resume(Resume { transfer_id, idempotency_key: "".to_owned() })
}

/// What a frame says of the transfer.
pub open spec fn resume_answer(f: (u8, Seq<u8>)) -> Result<ResumeStateView, ClientFault> {
    match expected(f, message::RESUME_STATE, "RESUME_STATE", true) {
        Err(e) => Err(e),
        Ok(p) => match ResumeStateView::parse(p) {
            Err(e) => Err(ClientFault::Protocol(e)),
            Ok(s) => Ok(s),
        },
    }
}

/// Take the answer of the server.
pub fn on_resume_state(frame: Frame<'_>) -> (r: Result<ResumeState, ClientError>)
    ensures
        match resume_answer(contents(frame)) {
            Ok(s) => r matches Ok(x) && x@ == s,
            Err(f) => r matches Err(e) && e@ == f,
        },
{
    let payload = match expect(frame, message::RESUME_STATE, "RESUME_STATE", true) {
        Ok(p) => p,
        Err(e) => {
            return Err(e);
        },
    };
    match ResumeState::decode(payload) {
        Ok(s) => Ok(s),
        Err(e) => Err(ClientError::Protocol(e)),
    }
}

/// Trimming makes a text no longer.
proof fn lemma_without_trailing(s: Seq<char>)
    ensures
        text::without_trailing(s).len() <= s.len(),
        text::without_trailing(s) == s.take(text::without_trailing(s).len() as int),
    decreases s.len(),
{
    if s.len() > 0 && s.last() == '/' {
        lemma_without_trailing(s.drop_last());
        assert(text::without_trailing(s) =~= s.take(text::without_trailing(s).len() as int));
    } else {
        assert(s.take(s.len() as int) =~= s);
    }
}

/// Looking back ends no further on.
proof fn lemma_find_back(s: Seq<char>, c: char, i: int)
    requires
        0 <= i,
    ensures
        0 <= text::find_back(s, c, i) <= i,
    decreases i,
{
    if i > 0 && s[i - 1] != c {
        lemma_find_back(s, c, i - 1);
    }
}

/// The part of a text that is looked at next by `file_name` is shorter.
pub proof fn lemma_file_name(s: Seq<char>)
    ensures
        ({
            let e = text::without_trailing(s);
            let i = text::find_back(e, '/', e.len() as int);
            e.len() <= s.len() && 0 <= i <= e.len() && (e.len() > 0 && e.skip(i) == "."@
                ==> e.take(i).len() < s.len())
        }),
{
    reveal_strlit(".");
    lemma_without_trailing(s);
    let e = text::without_trailing(s);
    lemma_find_back(e, '/', e.len() as int);
    let i = text::find_back(e, '/', e.len() as int);
    if e.skip(i) == "."@ {
        assert(e.skip(i).len() == 1);
    }
}

/// The last component of a path. Slashes at the end and components that are a
/// dot do not count; there is none if the path ends in two dots.
pub open spec fn file_name(s: Seq<char>) -> Option<Seq<char>>
    decreases s.len(),
{
    let e = text::without_trailing(s);
    let i = text::find_back(e, '/', e.len() as int);
    proof {
        lemma_file_name(s);
    }
    if e.len() == 0 {
        None
    } else if e.skip(i) == "."@ {
        file_name(e.take(i))
    } else if e.skip(i) == ".."@ {
        None
    } else {
        Some(e.skip(i))
    }
}

/// The last component of a path.
fn last_component(path: &str) -> (r: Option<String>)
    ensures
        options::opt(r) == file_name(path@),
    decreases path@.len(),
{
    proof {
        lemma_file_name(path@);
    }
    let trimmed: String = text::trim_end(path);
    let v = text::chars_of(trimmed.as_str());
    if v.len() == 0 {
        return None;
    }
    let i: usize = text::find_last(&v, '/', v.len());
    let name: String = text::range_of(&v, i, v.len());
    assert(name@ =~= trimmed@.skip(i as int));
    if text::same_text(name.as_str(), ".") {
        let above: String = text::range_of(&v, 0, i);
        assert(above@ =~= trimmed@.take(i as int));
        last_component(above.as_str())
    } else if text::same_text(name.as_str(), "..") {
        None
    } else {
        Some(name)
    }
}

/// The local file of a transfer: the given one, the one that was recorded, or
/// one named like the file on the server.
pub fn local_file(given: &Option<String>, recorded: Option<String>, staging_relpath: &str) -> (r:
    String)
    ensures
        r@ == match (*given, recorded) {
            (Some(p), _) => p@,
            (None, Some(p)) => p@,
            (None, None) => match file_name(staging_relpath@) {
                Some(n) => n,
                None => "download"@,
            },
        },
{
    match given {
        Some(p) => {
            return p.clone();
        },
        None => {},
    }
    match recorded {
        Some(p) => p,
        None => match last_component(staging_relpath) {
            Some(n) => n,
            None => "download".to_owned(),
        },
    }
}

/// Compare the size of the local file with that of the transfer.
pub fn check_size(state: &ResumeState, local: u64) -> (r: Result<(), ClientError>)
    ensures
        if local == state@.file_size {
            r is Ok
        } else {
            r matches Err(e) && e@ == (ClientFault::SizeMismatch {
                local,
                remote: state@.file_size,
            })
        },
{
    if local == state.file_size {
        Ok(())
    } else {
        Err(ClientError::SizeMismatch { local, remote: state.file_size })
    }
}

/// Compare the digest of the local file with that of the transfer. If they
/// are the same the transfer goes on: the message is sent, and the chunks of
/// the bitmap are skipped.
pub fn check_hash(state: &ResumeState, transfer_id: TransferId, local: util::Hash) -> (r: Result<
    (Message, ChunkBitmap),
    ClientError,
>)
    ensures
        if local@ == state@.file_hash {
            r matches Ok((m, b)) && m@ == upload::begin(transfer_id@) && b@.set
                == state.completed_chunks@.to_set() && b@.bytes_completed == state@.bytes_completed
        } else {
            r matches Err(e) && e@ == ClientFault::HashMismatch
        },
{
    if local != state.file_hash {
        return Err(ClientError::HashMismatch);
    }
    let bitmap = ChunkBitmap::from_sorted_indices(
        state.completed_chunks.as_slice(),
        state.bytes_completed,
    );
    Ok((upload::begin_message(transfer_id), bitmap))
}

} // verus!
