//! What is not taken for a frame or a message.

use vstd::prelude::*;

use crate::error::ProtocolError;
use crate::protocol::frame;
use crate::protocol::frame::{DataFrameHeaderView, DataPreambleView, FrameView};
use crate::protocol::layout;
use crate::protocol::le;
use crate::protocol::message::{
    AuthView, Bye, CancelView, ChunkQueryView, ChunkResponseView, CommitView, CommittedView,
    ErrorMsgView, InventoryHintView, ManifestBatchView, ManifestBeginView,
    ManifestEndView, Ping, SessionOptions, StatQueryView, StatResultView, TransferBeginView,
    TransferCreateView, TransferCreatedView, TransferPlanView, VerifyResultView,
    VerifyView,
};
use crate::protocol::varint;
use crate::session;

verus! {

/// Messages of a fixed size are taken if they are whole, and only then.
pub proof fn law_whole_messages_are_taken(b: Seq<u8>)
    ensures
        Ping::parse(b) is Ok <==> b.len() >= 16,
        Bye::parse(b) is Ok <==> b.len() >= 4,
        SessionOptions::parse(b) is Ok <==> b.len() >= 10,
        TransferPlanView::parse(b) is Ok <==> b.len() >= 40,
        TransferBeginView::parse(b) is Ok <==> b.len() >= 16,
        VerifyView::parse(b) is Ok <==> b.len() >= 48,
        CommitView::parse(b) is Ok <==> b.len() >= 16,
        CommittedView::parse(b) is Ok <==> b.len() >= 20,
        CancelView::parse(b) is Ok <==> b.len() >= 20,
        StatQueryView::parse(b) is Ok <==> b.len() >= 16,
        InventoryHintView::parse(b) is Ok <==> b.len() >= 21,
        ChunkResponseView::parse(b) is Ok <==> b.len() >= 32,
        ManifestEndView::parse(b) is Ok <==> b.len() == 32,
        DataPreambleView::parse(b) is Ok <==> b.len() >= 56,
{
}

/// A flag is one byte that is 0 or 1; a message with another is not taken.
pub proof fn law_flags_are_zero_or_one(b: Seq<u8>)
    ensures
        TransferCreatedView::parse(b) is Ok <==> b.len() >= 32 && b[16] <= 1,
        VerifyResultView::parse(b) is Ok <==> b.len() >= 56 && b[16] <= 1,
        StatResultView::parse(b) is Ok ==> b.len() >= 18 && b[16] <= 1,
        ErrorMsgView::parse(b) is Ok ==> b.len() >= 5 && b[4] <= 1,
        TransferCreatedView::parse(b) matches Ok(m) ==> m.resumed == (b[16] == 1),
        VerifyResultView::parse(b) matches Ok(m) ==> m.ok == (b[16] == 1),
        StatResultView::parse(b) matches Ok(m) ==> m.found == (b[16] == 1),
        ErrorMsgView::parse(b) matches Ok(m) ==> m.retryable == (b[4] == 1),
{
}

/// A message that declares more than the protocol allows is not taken.
pub proof fn law_limits_are_kept(b: Seq<u8>)
    ensures
        ManifestBeginView::parse(b) matches Ok(m) ==> {
            &&& b.len() >= 72
            &&& m.file_count <= 50_000_000
            &&& m.total_bytes <= 8_589_934_592
            &&& 0 < m.chunker_params.min < m.chunker_params.target < m.chunker_params.max
        },
        ManifestBatchView::parse(b) is Ok <==> b.len() >= 12 && layout::little4(b, 8) <= 4096,
        ChunkQueryView::parse(b) matches Ok(m) ==> m.chunk_hashes.len() <= 50_000_000 && b.len()
            >= 24 + 32 * m.chunk_hashes.len(),
        AuthView::parse(b) matches Ok(m) ==> {
            &&& m.token.len() <= 4096
            &&& m.token.len() == layout::little4(b, 4)
            &&& b.len() >= 8 + m.token.len()
            &&& m.mechanism == 0 || m.mechanism == 1
        },
        DataFrameHeaderView::parse(b) is Ok <==> b.len() >= 48 && layout::little4(b, 8)
            <= 4_194_304 && b[14] == 0 && b[15] == 0,
{
    if b.len() >= 12 {
        layout::law_integers_are_little_endian(b, 8);
        layout::law_integers_are_little_endian(b, 4);
    }
    if b.len() >= 8 {
        layout::law_integers_are_little_endian(b, 4);
    }
    if b.len() >= 16 {
        layout::law_integers_are_little_endian(b, 14);
    }
}

/// What asks for a transfer is not taken without one of the five operations, or
/// if it is too short for a size and a digest.
pub proof fn law_only_known_operations(b: Seq<u8>)
    requires
        TransferCreateView::parse(b) is Ok,
    ensures
        b.len() >= 48,
        1 <= b[0] <= 5,
        TransferCreateView::parse(b)->Ok_0.file_hash.len() == 32,
{
}

/// A frame that declares more than one mebibyte is refused as soon as it can
/// be seen.
pub proof fn law_oversized_frames_are_refused(f: FrameView, rest: Seq<u8>, early: bool)
    requires
        1_048_576 < f.payload.len() <= u64::MAX,
    ensures
        session::progress(f.wire() + rest, early) == Err::<session::FrameProgress, ProtocolError>(
            ProtocolError::FrameTooLarge { declared: f.payload.len() as u64, limit: 1_048_576 },
        ),
        frame::frame_at_start(f.wire() + rest) is Err,
{
    le::lemma_le_bytes_len(f.flags as nat, 2);
    le::lemma_le_bytes_len(f.request_id as nat, 8);
    let b = f.wire() + rest;
    let p = varint::leb128(f.payload.len());
    let tail = le::le_bytes(f.request_id as nat, 8) + f.payload + rest;
    assert(b.skip(4) =~= p + tail);
    varint::law_varint_roundtrip(f.payload.len() as u64, tail);
    varint::lemma_leb128_not_cut(f.payload.len() as u64, tail);
}

} // verus!
