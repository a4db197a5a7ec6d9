//! Asking about transfers, cancelling them, and deleting files.

use vstd::prelude::*;

use crate::client::resume::transfer_id_of;
use crate::client::upload;
use crate::client::upload::new_key;
use crate::client::{contents, expect, expected, ClientError, ClientFault};
use crate::protocol::error::ErrorCode;
use crate::protocol::frame::Frame;
use crate::protocol::message;
use crate::protocol::message::{
    Cancel, CancelView, Committed, CommittedView, ErrorMsg, ErrorMsgView, ListQuery, ListQueryView,
    ListResult, ListResultView, Message, MessageView, StatQuery, StatQueryView, StatResult,
    StatResultView, TransferCreate, TransferOp,
};
use crate::text;
use crate::util;

verus! {

/// The question about a transfer that the user names.
pub fn stat_request(given: &str) -> (r: Result<Message, ClientError>)
    ensures
        match util::transfer_id_of_text(given@) {
            Some(id) => r matches Ok(m) && m@ == MessageView::Stat(
                StatQueryView { transfer_id: id },
            ),
            None => r matches Err(e) && e@ == ClientFault::InvalidTransferId(given@),
        },
{
    match transfer_id_of(given) {
        Ok(transfer_id) => Ok(Message::Stat(StatQuery { transfer_id })),
        Err(e) => Err(e),
    }
}

/// What a frame says of the transfer that the user names.
pub open spec fn stat_answer(f: (u8, Seq<u8>), given: Seq<char>) -> Result<
    StatResultView,
    ClientFault,
> {
    match expected(f, message::STAT_RESULT, "STAT_RESULT", false) {
        Err(e) => Err(e),
        Ok(p) => match StatResultView::parse(p) {
            Err(e) => Err(ClientFault::Protocol(e)),
            Ok(s) => if s.found {
                Ok(s)
            } else {
                Err(ClientFault::TransferNotFound(given))
            },
        },
    }
}

/// Take the answer about a transfer.
pub fn on_stat_result(frame: Frame<'_>, given: &str) -> (r: Result<StatResult, ClientError>)
    ensures
        match stat_answer(contents(frame), given@) {
            Ok(s) => r matches Ok(x) && x@ == s,
            Err(f) => r matches Err(e) && e@ == f,
        },
{
    let payload = match expect(frame, message::STAT_RESULT, "STAT_RESULT", false) {
        Ok(p) => p,
        Err(e) => {
            return Err(e);
        },
    };
    match StatResult::decode(payload) {
        Ok(s) => {
            if s.found {
                Ok(s)
            } else {
                Err(ClientError::TransferNotFound(given.to_owned()))
            }
        },
        Err(e) => Err(ClientError::Protocol(e)),
    }
}

/// The line that tells the user about a transfer.
pub open spec fn stat_text(s: StatResultView) -> Seq<char> {
    text::padded_right(util::transfer_id_text(s.transfer_id), 26) + "  "@ + text::padded_right(
        s.status,
        10,
    ) + "  "@ + text::padded_right(s.direction, 10) + "  "@ + text::padded_left(
        text::decimal(s.file_size as nat),
        10,
    ) + "  "@ + text::padded_left(text::decimal(s.bytes_completed as nat), 10) + "  "@
        + s.remote_path
}

/// The line that tells the user about a transfer.
pub fn stat_line(s: &StatResult) -> (r: String)
    ensures
        r@ == stat_text(s@),
{
    let id: String = s.transfer_id.to_string();
    let mut out: String = String::new();
    text::push_padded_right(&mut out, id.as_str(), 26);
    text::push_str(&mut out, "  ");
    text::push_padded_right(&mut out, s.status.as_str(), 10);
    text::push_str(&mut out, "  ");
    text::push_padded_right(&mut out, s.direction.as_str(), 10);
    text::push_str(&mut out, "  ");
    text::push_padded_number(&mut out, s.file_size, 10);
    text::push_str(&mut out, "  ");
    text::push_padded_number(&mut out, s.bytes_completed, 10);
    text::push_str(&mut out, "  ");
    text::push_str(&mut out, s.remote_path.as_str());
    assert(out@ =~= stat_text(s@));
    out
}

/// The question about the transfers under a path. Slashes in front of the
/// path do not matter.
pub fn list_request(path: &str) -> (r: Message)
    ensures
        r@ == MessageView::List(ListQueryView { url_prefix: text::without_leading(path@) }),
{
    Message::List(ListQuery { url_prefix: text::trim_start(path) })
}

/// What a frame says of the transfers under a path.
pub open spec fn list_answer(f: (u8, Seq<u8>)) -> Result<ListResultView, ClientFault> {
    match expected(f, message::LIST_RESULT, "LIST_RESULT", false) {
        Err(e) => Err(e),
        Ok(p) => match ListResultView::parse(p) {
            Err(e) => Err(ClientFault::Protocol(e)),
            Ok(s) => Ok(s),
        },
    }
}

/// Take the answer about the transfers under a path.
pub fn on_list_result(frame: Frame<'_>) -> (r: Result<ListResult, ClientError>)
    ensures
        match list_answer(contents(frame)) {
            Ok(s) => r matches Ok(x) && x@ == s,
            Err(f) => r matches Err(e) && e@ == f,
        },
{
    let payload = match expect(frame, message::LIST_RESULT, "LIST_RESULT", false) {
        Ok(p) => p,
        Err(e) => {
            return Err(e);
        },
    };
    match ListResult::decode(payload) {
        Ok(s) => Ok(s),
        Err(e) => Err(ClientError::Protocol(e)),
    }
}

/// A line of the list of transfers.
pub open spec fn list_text(s: StatResultView) -> Seq<char> {
    text::padded_right(util::transfer_id_text(s.transfer_id), 26) + "  "@ + text::padded_right(
        s.status,
        10,
    ) + "  "@ + text::padded_left(text::decimal(s.file_size as nat), 10) + "  "@ + s.remote_path
}

fn list_line(s: &StatResult) -> (r: String)
    ensures
        r@ == list_text(s@),
{
    let id: String = s.transfer_id.to_string();
    let mut out: String = String::new();
    text::push_padded_right(&mut out, id.as_str(), 26);
    text::push_str(&mut out, "  ");
    text::push_padded_right(&mut out, s.status.as_str(), 10);
    text::push_str(&mut out, "  ");
    text::push_padded_number(&mut out, s.file_size, 10);
    text::push_str(&mut out, "  ");
    text::push_str(&mut out, s.remote_path.as_str());
    assert(out@ =~= list_text(s@));
    out
}

/// Texts by their contents.
pub open spec fn strings(s: Seq<String>) -> Seq<Seq<char>> {
    s.map_values(|x: String| x@)
}

/// The lines that tell the user about the transfers under a path: one for
/// each, or one that says that there are none.
pub fn list_lines(r: &ListResult, prefix: &str) -> (out: Vec<String>)
    ensures
        strings(out@) == if r.entries@.len() == 0 {
            seq!["(no transfers match "@ + prefix@ + ")"@]
        } else {
            Seq::new(r.entries@.len(), |i: int| list_text(r.entries@[i]@))
        },
{
    let mut out: Vec<String> = Vec::new();
    if r.entries.len() == 0 {
        let mut line: String = String::new();
        text::push_str(&mut line, "(no transfers match ");
        text::push_str(&mut line, prefix);
        text::push_str(&mut line, ")");
        assert(line@ =~= "(no transfers match "@ + prefix@ + ")"@);
        out.push(line);
        assert(strings(out@) =~= seq!["(no transfers match "@ + prefix@ + ")"@]);
        return out;
    }
    let mut i: usize = 0;
    while i < r.entries.len()
        invariant
            i <= r.entries.len(),
            strings(out@) == Seq::new(i as nat, |k: int| list_text(r.entries@[k]@)),
        decreases r.entries.len() - i,
    {
        let ghost before = out@;
        out.push(list_line(&r.entries[i]));
        assert(strings(out@) =~= strings(before).push(list_text(r.entries@[i as int]@)));
        assert(strings(out@) =~= Seq::new((i + 1) as nat, |k: int| list_text(r.entries@[k]@)));
        i = i + 1;
    }
    out
}

/// The request to cancel a transfer that the user names.
pub fn cancel_request(given: &str) -> (r: Result<Message, ClientError>)
    ensures
        match util::transfer_id_of_text(given@) {
            Some(id) => r matches Ok(m) && m@ == MessageView::Cancel(
                CancelView {
                    transfer_id: id,
                    reason_code: ErrorCode::TransferCancelled.wire(),
                },
            ),
            None => r matches Err(e) && e@ == ClientFault::InvalidTransferId(given@),
        },
{
    match transfer_id_of(given) {
        Ok(transfer_id) => Ok(
            Message::Cancel(
                Cancel { transfer_id, reason_code: ErrorCode::TransferCancelled.to_wire() },
            ),
        ),
        Err(e) => Err(e),
    }
}

/// The request to delete a file.
pub fn delete_request(remote_path: &str) -> (r: Message)
    ensures
        exists|key: Seq<char>| #[trigger]
            upload::is_key(key) && r@ == MessageView::TransferCreate(
                upload::request(
                    TransferOp::Delete,
                    ""@,
                    remote_path@,
                    key,
                    0,
                    util::zero_hash(),
                ),
            ),
{
    let key: String = new_key();
    let ghost k = key@;
    let create = TransferCreate {
        op: TransferOp::Delete,
        src_path: "".to_owned(),
        dst_path: text::trim_start(remote_path),
        idempotency_key: key,
        file_size: 0,
        file_hash: util::Hash::zero(),
    };
    assert(upload::is_key(k) && create@ == upload::request(
        TransferOp::Delete,
        ""@,
        remote_path@,
        k,
        0,
        util::zero_hash(),
    ));
    Message::TransferCreate(create)
}

/// What is wrong with the answer to a request to delete a file.
pub open spec fn delete_fault(f: (u8, Seq<u8>)) -> Option<ClientFault> {
    if f.0 == message::COMMITTED {
        match CommittedView::parse(f.1) {
            Ok(_) => None,
            Err(e) => Some(ClientFault::Protocol(e)),
        }
    } else if f.0 == message::ERROR {
        match ErrorMsgView::parse(f.1) {
            Ok(e) => Some(ClientFault::Delete { code: e.code, detail: e.detail }),
            Err(e) => Some(ClientFault::Protocol(e)),
        }
    } else {
        Some(ClientFault::Expected { what: "COMMITTED for delete", got: f.0 })
    }
}

/// Take the answer to a request to delete a file.
pub fn on_deleted(frame: Frame<'_>) -> (r: Result<(), ClientError>)
    ensures
        match delete_fault(contents(frame)) {
            None => r is Ok,
            Some(f) => r matches Err(e) && e@ == f,
        },
{
    if frame.type_byte == message::COMMITTED {
        return match Committed::decode(frame.payload) {
            Ok(_) => Ok(()),
            Err(e) => Err(ClientError::Protocol(e)),
        };
    }
    if frame.type_byte == message::ERROR {
        return match ErrorMsg::decode(frame.payload) {
            Ok(e) => Err(ClientError::Delete { code: e.code, detail: e.detail }),
            Err(e) => Err(ClientError::Protocol(e)),
        };
    }
    Err(ClientError::Expected { what: "COMMITTED for delete", got: frame.type_byte })
}

} // verus!
