//! Messages of a transfer's life: creation, plan, verification, commit.

use vstd::prelude::*;

use bytes::Bytes;

use crate::error::ProtocolError;
use crate::foreign;
use crate::protocol::le;
use crate::protocol::wire;
use crate::util;
use crate::util::TransferId;

verus! {

/// Operation carried in `TRANSFER_CREATE`.
#[derive(Debug, Clone, Copy, PartialEq, Eq, Structural)]
pub enum TransferOp {
    /// Single-file upload.
    Upload,
    /// Single-file download.
    Download,
    /// Directory sync upload.
    SyncUpload,
    /// Directory sync download.
    SyncDownload,
    /// File deletion.
    Delete,
}

impl TransferOp {
    /// The operation's byte on the wire.
    pub open spec fn wire(self) -> u8 {
        match self {
            TransferOp::Upload => 1,
            TransferOp::Download => 2,
            TransferOp::SyncUpload => 3,
            TransferOp::SyncDownload => 4,
            TransferOp::Delete => 5,
        }
    }

    /// The operation with the given byte.
    pub open spec fn of_wire(b: u8) -> Result<TransferOp, ProtocolError> {
        if b == 1 {
            Ok(TransferOp::Upload)
        } else if b == 2 {
            Ok(TransferOp::Download)
        } else if b == 3 {
            Ok(TransferOp::SyncUpload)
        } else if b == 4 {
            Ok(TransferOp::SyncDownload)
        } else if b == 5 {
            Ok(TransferOp::Delete)
        } else {
            Err(ProtocolError::Malformed("TRANSFER_CREATE: unknown op"))
        }
    }

    /// Decode from the wire byte. Unknown codes are rejected.
    pub fn from_wire(b: u8) -> (r: Result<Self, ProtocolError>)
        ensures
            r == TransferOp::of_wire(b),
    {
        match b {
            1 => Ok(TransferOp::Upload),
            2 => Ok(TransferOp::Download),
            3 => Ok(TransferOp::SyncUpload),
            4 => Ok(TransferOp::SyncDownload),
            5 => Ok(TransferOp::Delete),
            _ => Err(ProtocolError::Malformed("TRANSFER_CREATE: unknown op")),
        }
    }

    /// Encode to the wire byte.
    pub fn to_wire(self) -> (r: u8)
        ensures
            r == self.wire(),
    {
        match self {
            TransferOp::Upload => 1,
            TransferOp::Download => 2,
            TransferOp::SyncUpload => 3,
            TransferOp::SyncDownload => 4,
            TransferOp::Delete => 5,
        }
    }
}

/// Every operation survives the wire.
pub proof fn law_transfer_op_roundtrip(op: TransferOp)
    ensures
        TransferOp::of_wire(op.wire()) == Ok::<TransferOp, ProtocolError>(op),
{
}

/// `TRANSFER_CREATE` payload (client to server).
///
/// ```text
/// op(1) reserved(7) src_path(text) dst_path(text) idempotency_key(text)
/// file_size(u64) file_hash(32)
/// ```
#[derive(Debug, Clone, PartialEq, Eq)]
pub struct TransferCreate {
    pub op: TransferOp,
    /// Source path on the client (empty for download).
    pub src_path: String,
    /// Destination path on the server.
    pub dst_path: String,
    /// Client-supplied idempotency key.
    pub idempotency_key: String,
    /// Total expected file size in bytes.
    pub file_size: u64,
    /// Whole-file BLAKE3 of the source.
    pub file_hash: util::Hash,
}

/// Contents of TRANSFER_CREATE.
#[verifier::ext_equal]
pub struct TransferCreateView {
    pub op: TransferOp,
    pub src_path: Seq<char>,
    pub dst_path: Seq<char>,
    pub idempotency_key: Seq<char>,
    pub file_size: u64,
    pub file_hash: Seq<u8>,
}

impl View for TransferCreate {
    type V = TransferCreateView;

    open spec fn view(&self) -> TransferCreateView {
        TransferCreateView {
            op: self.op,
            src_path: self.src_path@,
            dst_path: self.dst_path@,
            idempotency_key: self.idempotency_key@,
            file_size: self.file_size,
            file_hash: self.file_hash@,
        }
    }
}

impl TransferCreateView {
    /// The payload on the wire.
    pub open spec fn wire(self) -> Seq<u8> {
        seq![self.op.wire()] + wire::zeros(7) + wire::text_bytes(self.src_path) + wire::text_bytes(
            self.dst_path,
        ) + wire::text_bytes(self.idempotency_key) + le::u64_bytes(self.file_size) + self.file_hash
    }

    /// What encoding gives: no text may be longer than 65535 bytes.
    pub open spec fn encoding(self) -> Result<Seq<u8>, ProtocolError> {
        if wire::fits_u16(self.src_path) && wire::fits_u16(self.dst_path) && wire::fits_u16(
            self.idempotency_key,
        ) {
            Ok(self.wire())
        } else {
            Err(ProtocolError::Malformed("TRANSFER_CREATE: field too long"))
        }
    }

    pub open spec fn src_faults() -> wire::TextFaults {
        wire::TextFaults {
            too_large: "TRANSFER_CREATE: src_path_len too large",
            truncated: "TRANSFER_CREATE: truncated src_path",
            not_utf8: "TRANSFER_CREATE: src_path not UTF-8",
        }
    }

    pub open spec fn dst_faults() -> wire::TextFaults {
        wire::TextFaults {
            too_large: "TRANSFER_CREATE: dst_path_len too large",
            truncated: "TRANSFER_CREATE: truncated dst_path",
            not_utf8: "TRANSFER_CREATE: dst_path not UTF-8",
        }
    }

    pub open spec fn key_faults() -> wire::TextFaults {
        wire::TextFaults {
            too_large: "TRANSFER_CREATE: idempotency_len too large",
            truncated: "TRANSFER_CREATE: truncated tail",
            not_utf8: "TRANSFER_CREATE: idempotency not UTF-8",
        }
    }

    /// What decoding a payload gives. The reserved bytes are not looked at.
    pub open spec fn parse(b: Seq<u8>) -> Result<TransferCreateView, ProtocolError> {
        if b.len() < 48 {
            Err(ProtocolError::Malformed("TRANSFER_CREATE: truncated"))
        } else {
            match TransferOp::of_wire(b[0]) {
                Err(e) => Err(e),
                Ok(op) => match wire::text_at(b, 8, 0, Self::src_faults()) {
                    Err(e) => Err(e),
                    Ok((src_path, i)) => match wire::text_at(b, i, 0, Self::dst_faults()) {
                        Err(e) => Err(e),
                        Ok((dst_path, j)) => match wire::text_at(b, j, 40, Self::key_faults()) {
                            Err(e) => Err(e),
                            Ok((idempotency_key, k)) => Ok(
                                TransferCreateView {
                                    op,
                                    src_path,
                                    dst_path,
                                    idempotency_key,
                                    file_size: le::u64_at(b, k),
                                    file_hash: b.subrange(k + 8, k + 40),
                                },
                            ),
                        },
                    },
                },
            }
        }
    }
}

impl TransferCreate {
    /// Encode the payload to bytes.
    pub fn encode(&self) -> (r: Result<Bytes, ProtocolError>)
        ensures
            wire::encoded(r, self@.encoding()),
    {
        if wire::utf8_len(self.src_path.as_str()) > 0xFFFF || wire::utf8_len(self.dst_path.as_str())
            > 0xFFFF || wire::utf8_len(self.idempotency_key.as_str()) > 0xFFFF {
            return Err(ProtocolError::Malformed("TRANSFER_CREATE: field too long"));
        }
        let mut out: Vec<u8> = Vec::new();
        out.push(self.op.to_wire());
        wire::push_zeros(&mut out, 7);
        wire::push_text(&mut out, self.src_path.as_str());
        wire::push_text(&mut out, self.dst_path.as_str());
        wire::push_text(&mut out, self.idempotency_key.as_str());
        le::push_u64(&mut out, self.file_size);
        wire::push_bytes(&mut out, self.file_hash.as_bytes().as_slice());
        assert(out@ =~= self@.wire());
        Ok(foreign::bytes_from_vec(out))
    }

    /// Decode the payload from `buf`.
    pub fn decode(buf: &[u8]) -> (r: Result<Self, ProtocolError>)
        ensures
            wire::decoded(r, TransferCreateView::parse(buf@)),
    {
        if buf.len() < 48 {
            return Err(ProtocolError::Malformed("TRANSFER_CREATE: truncated"));
        }
        let op = match TransferOp::from_wire(buf[0]) {
            Ok(op) => op,
            Err(e) => {
                return Err(e);
            },
        };
        let (src_path, i) = match wire::read_text(
            buf,
            8,
            0,
            wire::TextFaults {
                too_large: "TRANSFER_CREATE: src_path_len too large",
                truncated: "TRANSFER_CREATE: truncated src_path",
                not_utf8: "TRANSFER_CREATE: src_path not UTF-8",
            },
        ) {
            Ok(x) => x,
            Err(e) => {
                return Err(e);
            },
        };
        let (dst_path, j) = match wire::read_text(
            buf,
            i,
            0,
            wire::TextFaults {
                too_large: "TRANSFER_CREATE: dst_path_len too large",
                truncated: "TRANSFER_CREATE: truncated dst_path",
                not_utf8: "TRANSFER_CREATE: dst_path not UTF-8",
            },
        ) {
            Ok(x) => x,
            Err(e) => {
                return Err(e);
            },
        };
        let (idempotency_key, k) = match wire::read_text(
            buf,
            j,
            40,
            wire::TextFaults {
                too_large: "TRANSFER_CREATE: idempotency_len too large",
                truncated: "TRANSFER_CREATE: truncated tail",
                not_utf8: "TRANSFER_CREATE: idempotency not UTF-8",
            },
        ) {
            Ok(x) => x,
            Err(e) => {
                return Err(e);
            },
        };
        Ok(
            TransferCreate {
                op,
                src_path,
                dst_path,
                idempotency_key,
                file_size: le::read_u64(buf, k),
                file_hash: wire::read_hash(buf, k + 8),
            },
        )
    }
}

/// TRANSFER_CREATE that could be written is read back.
pub proof fn law_transfer_create_roundtrip(m: TransferCreate)
    ensures
        m@.encoding() matches Ok(w) ==> TransferCreateView::parse(w) == Ok::<
            TransferCreateView,
            ProtocolError,
        >(m@),
{
    broadcast use {le::group_le_lengths, util::lemma_hash_len};

    let b = m@.wire();
    let t1 = wire::text_bytes(m.src_path@);
    let t2 = wire::text_bytes(m.dst_path@);
    let t3 = wire::text_bytes(m.idempotency_key@);
    let tail = le::u64_bytes(m.file_size) + m.file_hash@;
    if m@.encoding() is Ok {
        let i = 8 + t1.len() as int;
        let j = i + t2.len() as int;
        let k = j + t3.len() as int;
        assert(b.skip(8) =~= t1 + (t2 + t3 + tail));
        wire::lemma_text_roundtrip(
            b,
            8,
            0,
            TransferCreateView::src_faults(),
            m.src_path@,
            t2 + t3 + tail,
        );
        assert(b.skip(i) =~= t2 + (t3 + tail));
        wire::lemma_text_roundtrip(
            b,
            i,
            0,
            TransferCreateView::dst_faults(),
            m.dst_path@,
            t3 + tail,
        );
        assert(b.skip(j) =~= t3 + tail);
        wire::lemma_text_roundtrip(
            b,
            j,
            40,
            TransferCreateView::key_faults(),
            m.idempotency_key@,
            tail,
        );
        assert(b.subrange(k, k + 8) =~= b.skip(k).subrange(0, 8));
        assert(b.skip(k).subrange(0, 8) =~= le::u64_bytes(m.file_size));
        le::lemma_u64_roundtrip(b, k, m.file_size);
        assert(b.subrange(k + 8, k + 40) =~= b.skip(k).subrange(8, 40));
        assert(b.skip(k).subrange(8, 40) =~= m.file_hash@);
        assert(TransferCreateView::parse(b)->Ok_0 =~= m@);
    }
}

/// `TRANSFER_CREATED` payload (server to client).
#[derive(Debug, Clone, Copy, PartialEq, Eq)]
pub struct TransferCreated {
    /// Server-assigned identifier.
    pub transfer_id: TransferId,
    /// True if the idempotency key matched an existing transfer.
    pub resumed: bool,
    /// Maximum chunk size the server accepts on data streams, in bytes.
    pub max_chunk_size: u64,
}

/// Contents of TRANSFER_CREATED.
#[verifier::ext_equal]
pub struct TransferCreatedView {
    pub transfer_id: Seq<u8>,
    pub resumed: bool,
    pub max_chunk_size: u64,
}

impl View for TransferCreated {
    type V = TransferCreatedView;

    open spec fn view(&self) -> TransferCreatedView {
        TransferCreatedView {
            transfer_id: self.transfer_id@,
            resumed: self.resumed,
            max_chunk_size: self.max_chunk_size,
        }
    }
}

impl TransferCreatedView {
    /// The payload on the wire.
    pub open spec fn wire(self) -> Seq<u8> {
        self.transfer_id + seq![wire::flag_byte(self.resumed)] + wire::zeros(7) + le::u64_bytes(self.max_chunk_size)
    }

    /// What decoding a payload gives.
    pub open spec fn parse(b: Seq<u8>) -> Result<TransferCreatedView, ProtocolError> {
        if b.len() < 32 {
            Err(ProtocolError::Malformed("TRANSFER_CREATED: truncated"))
        } else if b[16] > 1 {
            Err(ProtocolError::Malformed("TRANSFER_CREATED: bad resumed"))
        } else {
            Ok(
                TransferCreatedView {
                    transfer_id: b.subrange(0, 16),
                    resumed: b[16] == 1,
                    max_chunk_size: le::u64_at(b, 24),
                },
            )
        }
    }
}

impl TransferCreated {
    /// Encode the payload to bytes.
    pub fn encode(&self) -> (r: Result<Bytes, ProtocolError>)
        ensures
            r matches Ok(b) && foreign::bytes_content(b) == self@.wire(),
    {
        let mut out: Vec<u8> = Vec::new();
        wire::push_bytes(&mut out, self.transfer_id.as_bytes().as_slice());
        wire::push_flag(&mut out, self.resumed);
        wire::push_zeros(&mut out, 7);
        le::push_u64(&mut out, self.max_chunk_size);
        assert(out@ =~= self@.wire());
        Ok(foreign::bytes_from_vec(out))
    }

    /// Decode the payload from `buf`.
    pub fn decode(buf: &[u8]) -> (r: Result<Self, ProtocolError>)
        ensures
            wire::decoded(r, TransferCreatedView::parse(buf@)),
    {
        if buf.len() < 32 {
            return Err(ProtocolError::Malformed("TRANSFER_CREATED: truncated"));
        }
        if buf[16] > 1 {
            return Err(ProtocolError::Malformed("TRANSFER_CREATED: bad resumed"));
        }
        Ok(
            TransferCreated {
                transfer_id: wire::read_transfer_id(buf, 0),
                resumed: buf[16] == 1,
                max_chunk_size: le::read_u64(buf, 24),
            },
        )
    }
}

/// TRANSFER_CREATED that was written is read back.
pub proof fn law_transfer_created_roundtrip(m: TransferCreated)
    ensures
        TransferCreatedView::parse(m@.wire()) == Ok::<TransferCreatedView, ProtocolError>(m@),
{
    broadcast use {le::group_le_lengths, util::lemma_transfer_id_len, util::lemma_hash_len};

    let b = m@.wire();
    assert(b.subrange(0, 16) =~= m.transfer_id@);
    assert(b.subrange(24, 32) =~= le::u64_bytes(m.max_chunk_size));
    le::lemma_u64_roundtrip(b, 24, m.max_chunk_size);
}

/// `TRANSFER_PLAN` payload (server to client).
#[derive(Debug, Clone, Copy, PartialEq, Eq)]
pub struct TransferPlan {
    pub transfer_id: TransferId,
    pub bytes_total: u64,
    /// Bytes the sender must transmit.
    pub bytes_to_transfer: u64,
    /// Bytes reused from the destination's existing copy.
    pub bytes_reusable: u64,
}

/// Contents of TRANSFER_PLAN.
#[verifier::ext_equal]
pub struct TransferPlanView {
    pub transfer_id: Seq<u8>,
    pub bytes_total: u64,
    pub bytes_to_transfer: u64,
    pub bytes_reusable: u64,
}

impl View for TransferPlan {
    type V = TransferPlanView;

    open spec fn view(&self) -> TransferPlanView {
        TransferPlanView {
            transfer_id: self.transfer_id@,
            bytes_total: self.bytes_total,
            bytes_to_transfer: self.bytes_to_transfer,
            bytes_reusable: self.bytes_reusable,
        }
    }
}

impl TransferPlanView {
    /// The payload on the wire.
    pub open spec fn wire(self) -> Seq<u8> {
        self.transfer_id + le::u64_bytes(self.bytes_total) + le::u64_bytes(self.bytes_to_transfer) + le::u64_bytes(self.bytes_reusable)
    }

    /// What decoding a payload gives.
    pub open spec fn parse(b: Seq<u8>) -> Result<TransferPlanView, ProtocolError> {
        if b.len() < 40 {
            Err(ProtocolError::Malformed("TRANSFER_PLAN: truncated"))
        } else {
            Ok(
                TransferPlanView {
                    transfer_id: b.subrange(0, 16),
                    bytes_total: le::u64_at(b, 16),
                    bytes_to_transfer: le::u64_at(b, 24),
                    bytes_reusable: le::u64_at(b, 32),
                },
            )
        }
    }
}

impl TransferPlan {
    /// Encode the payload to bytes.
    pub fn encode(&self) -> (r: Result<Bytes, ProtocolError>)
        ensures
            r matches Ok(b) && foreign::bytes_content(b) == self@.wire(),
    {
        let mut out: Vec<u8> = Vec::new();
        wire::push_bytes(&mut out, self.transfer_id.as_bytes().as_slice());
        le::push_u64(&mut out, self.bytes_total);
        le::push_u64(&mut out, self.bytes_to_transfer);
        le::push_u64(&mut out, self.bytes_reusable);
        assert(out@ =~= self@.wire());
        Ok(foreign::bytes_from_vec(out))
    }

    /// Decode the payload from `buf`.
    pub fn decode(buf: &[u8]) -> (r: Result<Self, ProtocolError>)
        ensures
            wire::decoded(r, TransferPlanView::parse(buf@)),
    {
        if buf.len() < 40 {
            return Err(ProtocolError::Malformed("TRANSFER_PLAN: truncated"));
        }
        Ok(
            TransferPlan {
                transfer_id: wire::read_transfer_id(buf, 0),
                bytes_total: le::read_u64(buf, 16),
                bytes_to_transfer: le::read_u64(buf, 24),
                bytes_reusable: le::read_u64(buf, 32),
            },
        )
    }
}

/// TRANSFER_PLAN that was written is read back.
pub proof fn law_transfer_plan_roundtrip(m: TransferPlan)
    ensures
        TransferPlanView::parse(m@.wire()) == Ok::<TransferPlanView, ProtocolError>(m@),
{
    broadcast use {le::group_le_lengths, util::lemma_transfer_id_len, util::lemma_hash_len};

    let b = m@.wire();
    assert(b.subrange(0, 16) =~= m.transfer_id@);
    assert(b.subrange(16, 24) =~= le::u64_bytes(m.bytes_total));
    le::lemma_u64_roundtrip(b, 16, m.bytes_total);
    assert(b.subrange(24, 32) =~= le::u64_bytes(m.bytes_to_transfer));
    le::lemma_u64_roundtrip(b, 24, m.bytes_to_transfer);
    assert(b.subrange(32, 40) =~= le::u64_bytes(m.bytes_reusable));
    le::lemma_u64_roundtrip(b, 32, m.bytes_reusable);
}

/// `TRANSFER_BEGIN` payload (client to server).
#[derive(Debug, Clone, Copy, PartialEq, Eq)]
pub struct TransferBegin {
    pub transfer_id: TransferId,
}

/// Contents of TRANSFER_BEGIN.
#[verifier::ext_equal]
pub struct TransferBeginView {
    pub transfer_id: Seq<u8>,
}

impl View for TransferBegin {
    type V = TransferBeginView;

    open spec fn view(&self) -> TransferBeginView {
        TransferBeginView {
            transfer_id: self.transfer_id@,
        }
    }
}

impl TransferBeginView {
    /// The payload on the wire.
    pub open spec fn wire(self) -> Seq<u8> {
        self.transfer_id
    }

    /// What decoding a payload gives.
    pub open spec fn parse(b: Seq<u8>) -> Result<TransferBeginView, ProtocolError> {
        if b.len() < 16 {
            Err(ProtocolError::Malformed("TRANSFER_BEGIN: truncated"))
        } else {
            Ok(
                TransferBeginView {
                    transfer_id: b.subrange(0, 16),
                },
            )
        }
    }
}

impl TransferBegin {
    /// Encode the payload to bytes.
    pub fn encode(&self) -> (r: Result<Bytes, ProtocolError>)
        ensures
            r matches Ok(b) && foreign::bytes_content(b) == self@.wire(),
    {
        let mut out: Vec<u8> = Vec::new();
        wire::push_bytes(&mut out, self.transfer_id.as_bytes().as_slice());
        assert(out@ =~= self@.wire());
        Ok(foreign::bytes_from_vec(out))
    }

    /// Decode the payload from `buf`.
    pub fn decode(buf: &[u8]) -> (r: Result<Self, ProtocolError>)
        ensures
            wire::decoded(r, TransferBeginView::parse(buf@)),
    {
        if buf.len() < 16 {
            return Err(ProtocolError::Malformed("TRANSFER_BEGIN: truncated"));
        }
        Ok(
            TransferBegin {
                transfer_id: wire::read_transfer_id(buf, 0),
            },
        )
    }
}

/// TRANSFER_BEGIN that was written is read back.
pub proof fn law_transfer_begin_roundtrip(m: TransferBegin)
    ensures
        TransferBeginView::parse(m@.wire()) == Ok::<TransferBeginView, ProtocolError>(m@),
{
    broadcast use {le::group_le_lengths, util::lemma_transfer_id_len, util::lemma_hash_len};

    let b = m@.wire();
    assert(b.subrange(0, 16) =~= m.transfer_id@);
}

/// `VERIFY` payload (sender to receiver): asks whether the staged file hashes
/// to `expected_hash`.
#[derive(Debug, Clone, Copy, PartialEq, Eq)]
pub struct Verify {
    pub transfer_id: TransferId,
    /// Whole-file BLAKE3 the sender expects.
    pub expected_hash: util::Hash,
}

/// Contents of VERIFY.
#[verifier::ext_equal]
pub struct VerifyView {
    pub transfer_id: Seq<u8>,
    pub expected_hash: Seq<u8>,
}

impl View for Verify {
    type V = VerifyView;

    open spec fn view(&self) -> VerifyView {
        VerifyView {
            transfer_id: self.transfer_id@,
            expected_hash: self.expected_hash@,
        }
    }
}

impl VerifyView {
    /// The payload on the wire.
    pub open spec fn wire(self) -> Seq<u8> {
        self.transfer_id + self.expected_hash
    }

    /// What decoding a payload gives.
    pub open spec fn parse(b: Seq<u8>) -> Result<VerifyView, ProtocolError> {
        if b.len() < 48 {
            Err(ProtocolError::Malformed("VERIFY: truncated"))
        } else {
            Ok(
                VerifyView {
                    transfer_id: b.subrange(0, 16),
                    expected_hash: b.subrange(16, 48),
                },
            )
        }
    }
}

impl Verify {
    /// Encode the payload to bytes.
    pub fn encode(&self) -> (r: Result<Bytes, ProtocolError>)
        ensures
            r matches Ok(b) && foreign::bytes_content(b) == self@.wire(),
    {
        let mut out: Vec<u8> = Vec::new();
        wire::push_bytes(&mut out, self.transfer_id.as_bytes().as_slice());
        wire::push_bytes(&mut out, self.expected_hash.as_bytes().as_slice());
        assert(out@ =~= self@.wire());
        Ok(foreign::bytes_from_vec(out))
    }

    /// Decode the payload from `buf`.
    pub fn decode(buf: &[u8]) -> (r: Result<Self, ProtocolError>)
        ensures
            wire::decoded(r, VerifyView::parse(buf@)),
    {
        if buf.len() < 48 {
            return Err(ProtocolError::Malformed("VERIFY: truncated"));
        }
        Ok(
            Verify {
                transfer_id: wire::read_transfer_id(buf, 0),
                expected_hash: wire::read_hash(buf, 16),
            },
        )
    }
}

/// VERIFY that was written is read back.
pub proof fn law_verify_roundtrip(m: Verify)
    ensures
        VerifyView::parse(m@.wire()) == Ok::<VerifyView, ProtocolError>(m@),
{
    broadcast use {le::group_le_lengths, util::lemma_transfer_id_len, util::lemma_hash_len};

    let b = m@.wire();
    assert(b.subrange(0, 16) =~= m.transfer_id@);
    assert(b.subrange(16, 48) =~= m.expected_hash@);
}

/// `VERIFY_RESULT` payload (receiver to sender).
#[derive(Debug, Clone, Copy, PartialEq, Eq)]
pub struct VerifyResult {
    pub transfer_id: TransferId,
    /// True iff the whole-file hash matches.
    pub ok: bool,
    /// The hash the receiver computed.
    pub computed_hash: util::Hash,
}

/// Contents of VERIFY_RESULT.
#[verifier::ext_equal]
pub struct VerifyResultView {
    pub transfer_id: Seq<u8>,
    pub ok: bool,
    pub computed_hash: Seq<u8>,
}

impl View for VerifyResult {
    type V = VerifyResultView;

    open spec fn view(&self) -> VerifyResultView {
        VerifyResultView {
            transfer_id: self.transfer_id@,
            ok: self.ok,
            computed_hash: self.computed_hash@,
        }
    }
}

impl VerifyResultView {
    /// The payload on the wire.
    pub open spec fn wire(self) -> Seq<u8> {
        self.transfer_id + seq![wire::flag_byte(self.ok)] + wire::zeros(7) + self.computed_hash
    }

    /// What decoding a payload gives.
    pub open spec fn parse(b: Seq<u8>) -> Result<VerifyResultView, ProtocolError> {
        if b.len() < 56 {
            Err(ProtocolError::Malformed("VERIFY_RESULT: truncated"))
        } else if b[16] > 1 {
            Err(ProtocolError::Malformed("VERIFY_RESULT: bad ok"))
        } else {
            Ok(
                VerifyResultView {
                    transfer_id: b.subrange(0, 16),
                    ok: b[16] == 1,
                    computed_hash: b.subrange(24, 56),
                },
            )
        }
    }
}

impl VerifyResult {
    /// Encode the payload to bytes.
    pub fn encode(&self) -> (r: Result<Bytes, ProtocolError>)
        ensures
            r matches Ok(b) && foreign::bytes_content(b) == self@.wire(),
    {
        let mut out: Vec<u8> = Vec::new();
        wire::push_bytes(&mut out, self.transfer_id.as_bytes().as_slice());
        wire::push_flag(&mut out, self.ok);
        wire::push_zeros(&mut out, 7);
        wire::push_bytes(&mut out, self.computed_hash.as_bytes().as_slice());
        assert(out@ =~= self@.wire());
        Ok(foreign::bytes_from_vec(out))
    }

    /// Decode the payload from `buf`.
    pub fn decode(buf: &[u8]) -> (r: Result<Self, ProtocolError>)
        ensures
            wire::decoded(r, VerifyResultView::parse(buf@)),
    {
        if buf.len() < 56 {
            return Err(ProtocolError::Malformed("VERIFY_RESULT: truncated"));
        }
        if buf[16] > 1 {
            return Err(ProtocolError::Malformed("VERIFY_RESULT: bad ok"));
        }
        Ok(
            VerifyResult {
                transfer_id: wire::read_transfer_id(buf, 0),
                ok: buf[16] == 1,
                computed_hash: wire::read_hash(buf, 24),
            },
        )
    }
}

/// VERIFY_RESULT that was written is read back.
pub proof fn law_verify_result_roundtrip(m: VerifyResult)
    ensures
        VerifyResultView::parse(m@.wire()) == Ok::<VerifyResultView, ProtocolError>(m@),
{
    broadcast use {le::group_le_lengths, util::lemma_transfer_id_len, util::lemma_hash_len};

    let b = m@.wire();
    assert(b.subrange(0, 16) =~= m.transfer_id@);
    assert(b.subrange(24, 56) =~= m.computed_hash@);
}

/// `COMMIT` payload (sender to receiver): rename the staged file into place.
#[derive(Debug, Clone, Copy, PartialEq, Eq)]
pub struct Commit {
    pub transfer_id: TransferId,
}

/// Contents of COMMIT.
#[verifier::ext_equal]
pub struct CommitView {
    pub transfer_id: Seq<u8>,
}

impl View for Commit {
    type V = CommitView;

    open spec fn view(&self) -> CommitView {
        CommitView {
            transfer_id: self.transfer_id@,
        }
    }
}

impl CommitView {
    /// The payload on the wire.
    pub open spec fn wire(self) -> Seq<u8> {
        self.transfer_id
    }

    /// What decoding a payload gives.
    pub open spec fn parse(b: Seq<u8>) -> Result<CommitView, ProtocolError> {
        if b.len() < 16 {
            Err(ProtocolError::Malformed("COMMIT: truncated"))
        } else {
            Ok(
                CommitView {
                    transfer_id: b.subrange(0, 16),
                },
            )
        }
    }
}

impl Commit {
    /// Encode the payload to bytes.
    pub fn encode(&self) -> (r: Result<Bytes, ProtocolError>)
        ensures
            r matches Ok(b) && foreign::bytes_content(b) == self@.wire(),
    {
        let mut out: Vec<u8> = Vec::new();
        wire::push_bytes(&mut out, self.transfer_id.as_bytes().as_slice());
        assert(out@ =~= self@.wire());
        Ok(foreign::bytes_from_vec(out))
    }

    /// Decode the payload from `buf`.
    pub fn decode(buf: &[u8]) -> (r: Result<Self, ProtocolError>)
        ensures
            wire::decoded(r, CommitView::parse(buf@)),
    {
        if buf.len() < 16 {
            return Err(ProtocolError::Malformed("COMMIT: truncated"));
        }
        Ok(
            Commit {
                transfer_id: wire::read_transfer_id(buf, 0),
            },
        )
    }
}

/// COMMIT that was written is read back.
pub proof fn law_commit_roundtrip(m: Commit)
    ensures
        CommitView::parse(m@.wire()) == Ok::<CommitView, ProtocolError>(m@),
{
    broadcast use {le::group_le_lengths, util::lemma_transfer_id_len, util::lemma_hash_len};

    let b = m@.wire();
    assert(b.subrange(0, 16) =~= m.transfer_id@);
}

/// `COMMITTED` payload (receiver to sender).
#[derive(Debug, Clone, Copy, PartialEq, Eq)]
pub struct Committed {
    pub transfer_id: TransferId,
    /// Number of files committed.
    pub files: u32,
}

/// Contents of COMMITTED.
#[verifier::ext_equal]
pub struct CommittedView {
    pub transfer_id: Seq<u8>,
    pub files: u32,
}

impl View for Committed {
    type V = CommittedView;

    open spec fn view(&self) -> CommittedView {
        CommittedView {
            transfer_id: self.transfer_id@,
            files: self.files,
        }
    }
}

impl CommittedView {
    /// The payload on the wire.
    pub open spec fn wire(self) -> Seq<u8> {
        self.transfer_id + le::u32_bytes(self.files)
    }

    /// What decoding a payload gives.
    pub open spec fn parse(b: Seq<u8>) -> Result<CommittedView, ProtocolError> {
        if b.len() < 20 {
            Err(ProtocolError::Malformed("COMMITTED: truncated"))
        } else {
            Ok(
                CommittedView {
                    transfer_id: b.subrange(0, 16),
                    files: le::u32_at(b, 16),
                },
            )
        }
    }
}

impl Committed {
    /// Encode the payload to bytes.
    pub fn encode(&self) -> (r: Result<Bytes, ProtocolError>)
        ensures
            r matches Ok(b) && foreign::bytes_content(b) == self@.wire(),
    {
        let mut out: Vec<u8> = Vec::new();
        wire::push_bytes(&mut out, self.transfer_id.as_bytes().as_slice());
        le::push_u32(&mut out, self.files);
        assert(out@ =~= self@.wire());
        Ok(foreign::bytes_from_vec(out))
    }

    /// Decode the payload from `buf`.
    pub fn decode(buf: &[u8]) -> (r: Result<Self, ProtocolError>)
        ensures
            wire::decoded(r, CommittedView::parse(buf@)),
    {
        if buf.len() < 20 {
            return Err(ProtocolError::Malformed("COMMITTED: truncated"));
        }
        Ok(
            Committed {
                transfer_id: wire::read_transfer_id(buf, 0),
                files: le::read_u32(buf, 16),
            },
        )
    }
}

/// COMMITTED that was written is read back.
pub proof fn law_committed_roundtrip(m: Committed)
    ensures
        CommittedView::parse(m@.wire()) == Ok::<CommittedView, ProtocolError>(m@),
{
    broadcast use {le::group_le_lengths, util::lemma_transfer_id_len, util::lemma_hash_len};

    let b = m@.wire();
    assert(b.subrange(0, 16) =~= m.transfer_id@);
    assert(b.subrange(16, 20) =~= le::u32_bytes(m.files));
    le::lemma_u32_roundtrip(b, 16, m.files);
}

} // verus!
