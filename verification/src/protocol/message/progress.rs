//! Messages on the progress of transfers: checkpoints, resumption, queries.

use vstd::prelude::*;

use bytes::Bytes;

use crate::error::ProtocolError;
use crate::foreign;
use crate::protocol::indices;
use crate::protocol::indices::MAX_WIRE_CHUNKS;
use crate::protocol::le;
use crate::protocol::varint;
use crate::protocol::wire;
use crate::util;
use crate::util::TransferId;

verus! {

/// `CHECKPOINT` payload (sender to receiver).
///
/// ```text
/// transfer_id(16) bytes_transferred(u64) verified_up_to(u64) ts_ms(u64)
/// completed_chunks(list)
/// ```
#[derive(Debug, Clone, PartialEq, Eq)]
pub struct Checkpoint {
    pub transfer_id: TransferId,
    pub bytes_transferred: u64,
    pub verified_up_to: u64,
    pub ts_ms: u64,
    pub completed_chunks: Vec<u64>,
}

/// Contents of CHECKPOINT.
#[verifier::ext_equal]
pub struct CheckpointView {
    pub transfer_id: Seq<u8>,
    pub bytes_transferred: u64,
    pub verified_up_to: u64,
    pub ts_ms: u64,
    pub completed_chunks: Seq<u64>,
}

impl View for Checkpoint {
    type V = CheckpointView;

    open spec fn view(&self) -> CheckpointView {
        CheckpointView {
            transfer_id: self.transfer_id@,
            bytes_transferred: self.bytes_transferred,
            verified_up_to: self.verified_up_to,
            ts_ms: self.ts_ms,
            completed_chunks: self.completed_chunks@,
        }
    }
}

impl CheckpointView {
    /// The payload on the wire.
    pub open spec fn wire(self) -> Seq<u8> {
        self.transfer_id + le::u64_bytes(self.bytes_transferred) + le::u64_bytes(
            self.verified_up_to,
        ) + le::u64_bytes(self.ts_ms) + indices::list_bytes(self.completed_chunks)
    }

    /// What encoding gives.
    pub open spec fn encoding(self) -> Result<Seq<u8>, ProtocolError> {
        if self.completed_chunks.len() > MAX_WIRE_CHUNKS {
            Err(ProtocolError::Malformed("too many completed chunks"))
        } else {
            Ok(self.wire())
        }
    }

    pub open spec fn list_faults() -> indices::ListFaults {
        indices::ListFaults {
            truncated: "CHECKPOINT: truncated chunks",
            non_monotonic: "CHECKPOINT: non-monotonic chunks",
        }
    }

    /// What decoding a payload gives.
    pub open spec fn parse(b: Seq<u8>) -> Result<CheckpointView, ProtocolError> {
        if b.len() < 40 {
            Err(ProtocolError::Malformed("CHECKPOINT: truncated header"))
        } else {
            match indices::list_at(b, 40, Self::list_faults()) {
                Err(e) => Err(e),
                Ok((completed_chunks, _)) => Ok(
                    CheckpointView {
                        transfer_id: b.subrange(0, 16),
                        bytes_transferred: le::u64_at(b, 16),
                        verified_up_to: le::u64_at(b, 24),
                        ts_ms: le::u64_at(b, 32),
                        completed_chunks,
                    },
                ),
            }
        }
    }
}

impl Checkpoint {
    /// Encode the payload to bytes.
    pub fn encode(&self) -> (r: Result<Bytes, ProtocolError>)
        ensures
            wire::encoded(r, self@.encoding()),
    {
        if self.completed_chunks.len() as u64 > MAX_WIRE_CHUNKS {
            return Err(ProtocolError::Malformed("too many completed chunks"));
        }
        let mut out: Vec<u8> = Vec::new();
        wire::push_bytes(&mut out, self.transfer_id.as_bytes().as_slice());
        le::push_u64(&mut out, self.bytes_transferred);
        le::push_u64(&mut out, self.verified_up_to);
        le::push_u64(&mut out, self.ts_ms);
        indices::push_list(&mut out, self.completed_chunks.as_slice());
        assert(out@ =~= self@.wire());
        Ok(foreign::bytes_from_vec(out))
    }

    /// Decode the payload from `buf`.
    pub fn decode(buf: &[u8]) -> (r: Result<Self, ProtocolError>)
        ensures
            wire::decoded(r, CheckpointView::parse(buf@)),
    {
        if buf.len() < 40 {
            return Err(ProtocolError::Malformed("CHECKPOINT: truncated header"));
        }
        match indices::read_list(
            buf,
            40,
            indices::ListFaults {
                truncated: "CHECKPOINT: truncated chunks",
                non_monotonic: "CHECKPOINT: non-monotonic chunks",
            },
        ) {
            Ok((completed_chunks, _)) => Ok(
                Checkpoint {
                    transfer_id: wire::read_transfer_id(buf, 0),
                    bytes_transferred: le::read_u64(buf, 16),
                    verified_up_to: le::read_u64(buf, 24),
                    ts_ms: le::read_u64(buf, 32),
                    completed_chunks,
                },
            ),
            Err(e) => Err(e),
        }
    }
}

/// CHECKPOINT with an increasing list that could be written is read back.
pub proof fn law_checkpoint_roundtrip(m: Checkpoint)
    requires
        indices::increasing(m.completed_chunks@),
    ensures
        m@.encoding() matches Ok(w) ==> CheckpointView::parse(w) == Ok::<
            CheckpointView,
            ProtocolError,
        >(m@),
{
    broadcast use {le::group_le_lengths, util::lemma_transfer_id_len};

    let b = m@.wire();
    if m@.encoding() is Ok {
        let list = indices::list_bytes(m.completed_chunks@);
        assert(b.subrange(0, 16) =~= m.transfer_id@);
        assert(b.subrange(16, 24) =~= le::u64_bytes(m.bytes_transferred));
        le::lemma_u64_roundtrip(b, 16, m.bytes_transferred);
        assert(b.subrange(24, 32) =~= le::u64_bytes(m.verified_up_to));
        le::lemma_u64_roundtrip(b, 24, m.verified_up_to);
        assert(b.subrange(32, 40) =~= le::u64_bytes(m.ts_ms));
        le::lemma_u64_roundtrip(b, 32, m.ts_ms);
        assert(b.skip(40) =~= list + Seq::<u8>::empty());
        indices::lemma_list_roundtrip(
            b,
            40,
            m.completed_chunks@,
            CheckpointView::list_faults(),
            Seq::empty(),
        );
    }
}

/// `RESUME` payload (client to server).
///
/// ```text
/// transfer_id(16) idempotency_key(text)
/// ```
#[derive(Debug, Clone, PartialEq, Eq)]
pub struct Resume {
    pub transfer_id: TransferId,
    /// Idempotency key, by which the server finds the state where the
    /// identifier is unknown.
    pub idempotency_key: String,
}

/// Contents of RESUME.
#[verifier::ext_equal]
pub struct ResumeView {
    pub transfer_id: Seq<u8>,
    pub idempotency_key: Seq<char>,
}

impl View for Resume {
    type V = ResumeView;

    open spec fn view(&self) -> ResumeView {
        ResumeView { transfer_id: self.transfer_id@, idempotency_key: self.idempotency_key@ }
    }
}

impl ResumeView {
    /// The payload on the wire.
    pub open spec fn wire(self) -> Seq<u8> {
        self.transfer_id + wire::text_bytes(self.idempotency_key)
    }

    /// What encoding gives.
    pub open spec fn encoding(self) -> Result<Seq<u8>, ProtocolError> {
        if !wire::fits_u16(self.idempotency_key) {
            Err(ProtocolError::Malformed("RESUME: idempotency_key too long"))
        } else {
            Ok(self.wire())
        }
    }

    pub open spec fn key_faults() -> wire::TextFaults {
        wire::TextFaults {
            too_large: "RESUME: key too long",
            truncated: "RESUME: truncated key",
            not_utf8: "RESUME: key not UTF-8",
        }
    }

    /// What decoding a payload gives.
    pub open spec fn parse(b: Seq<u8>) -> Result<ResumeView, ProtocolError> {
        if b.len() < 16 {
            Err(ProtocolError::Malformed("RESUME: truncated"))
        } else {
            match wire::text_at(b, 16, 0, Self::key_faults()) {
                Err(e) => Err(e),
                Ok((idempotency_key, _)) => Ok(
                    ResumeView { transfer_id: b.subrange(0, 16), idempotency_key },
                ),
            }
        }
    }
}

impl Resume {
    /// Encode the payload to bytes.
    pub fn encode(&self) -> (r: Result<Bytes, ProtocolError>)
        ensures
            wire::encoded(r, self@.encoding()),
    {
        if wire::utf8_len(self.idempotency_key.as_str()) > 0xFFFF {
            return Err(ProtocolError::Malformed("RESUME: idempotency_key too long"));
        }
        let mut out: Vec<u8> = Vec::new();
        wire::push_bytes(&mut out, self.transfer_id.as_bytes().as_slice());
        wire::push_text(&mut out, self.idempotency_key.as_str());
        assert(out@ =~= self@.wire());
        Ok(foreign::bytes_from_vec(out))
    }

    /// Decode the payload from `buf`.
    pub fn decode(buf: &[u8]) -> (r: Result<Self, ProtocolError>)
        ensures
            wire::decoded(r, ResumeView::parse(buf@)),
    {
        if buf.len() < 16 {
            return Err(ProtocolError::Malformed("RESUME: truncated"));
        }
        match wire::read_text(
            buf,
            16,
            0,
            wire::TextFaults {
                too_large: "RESUME: key too long",
                truncated: "RESUME: truncated key",
                not_utf8: "RESUME: key not UTF-8",
            },
        ) {
            Ok((idempotency_key, _)) => Ok(
                Resume { transfer_id: wire::read_transfer_id(buf, 0), idempotency_key },
            ),
            Err(e) => Err(e),
        }
    }
}

/// RESUME that could be written is read back.
pub proof fn law_resume_roundtrip(m: Resume)
    ensures
        m@.encoding() matches Ok(w) ==> ResumeView::parse(w) == Ok::<ResumeView, ProtocolError>(m@),
{
    broadcast use util::lemma_transfer_id_len;

    let b = m@.wire();
    if m@.encoding() is Ok {
        assert(b.subrange(0, 16) =~= m.transfer_id@);
        assert(b.skip(16) =~= wire::text_bytes(m.idempotency_key@) + Seq::<u8>::empty());
        wire::lemma_text_roundtrip(
            b,
            16,
            0,
            ResumeView::key_faults(),
            m.idempotency_key@,
            Seq::empty(),
        );
    }
}

/// `RESUME_STATE` payload (server to client).
///
/// ```text
/// transfer_id(16) staging_relpath(text) file_size(u64) bytes_completed(u64)
/// verified_up_to(u64) file_hash(32) completed_chunks(list)
/// ```
#[derive(Debug, Clone, PartialEq, Eq)]
pub struct ResumeState {
    pub transfer_id: TransferId,
    pub staging_relpath: String,
    pub file_size: u64,
    pub bytes_completed: u64,
    pub verified_up_to: u64,
    pub file_hash: util::Hash,
    pub completed_chunks: Vec<u64>,
}

/// Contents of RESUME_STATE.
#[verifier::ext_equal]
pub struct ResumeStateView {
    pub transfer_id: Seq<u8>,
    pub staging_relpath: Seq<char>,
    pub file_size: u64,
    pub bytes_completed: u64,
    pub verified_up_to: u64,
    pub file_hash: Seq<u8>,
    pub completed_chunks: Seq<u64>,
}

impl View for ResumeState {
    type V = ResumeStateView;

    open spec fn view(&self) -> ResumeStateView {
        ResumeStateView {
            transfer_id: self.transfer_id@,
            staging_relpath: self.staging_relpath@,
            file_size: self.file_size,
            bytes_completed: self.bytes_completed,
            verified_up_to: self.verified_up_to,
            file_hash: self.file_hash@,
            completed_chunks: self.completed_chunks@,
        }
    }
}

impl ResumeStateView {
    /// The payload on the wire.
    pub open spec fn wire(self) -> Seq<u8> {
        self.transfer_id + wire::text_bytes(self.staging_relpath) + le::u64_bytes(self.file_size)
            + le::u64_bytes(self.bytes_completed) + le::u64_bytes(self.verified_up_to)
            + self.file_hash + indices::list_bytes(self.completed_chunks)
    }

    /// What encoding gives.
    pub open spec fn encoding(self) -> Result<Seq<u8>, ProtocolError> {
        if self.completed_chunks.len() > MAX_WIRE_CHUNKS {
            Err(ProtocolError::Malformed("too many completed chunks"))
        } else if !wire::fits_u16(self.staging_relpath) {
            Err(ProtocolError::Malformed("RESUME_STATE: path too long"))
        } else {
            Ok(self.wire())
        }
    }

    pub open spec fn path_faults() -> wire::TextFaults {
        wire::TextFaults {
            too_large: "RESUME_STATE: path too long",
            truncated: "RESUME_STATE: truncated body",
            not_utf8: "RESUME_STATE: path not UTF-8",
        }
    }

    pub open spec fn list_faults() -> indices::ListFaults {
        indices::ListFaults {
            truncated: "RESUME_STATE: truncated chunks",
            non_monotonic: "RESUME_STATE: non-monotonic chunks",
        }
    }

    /// What decoding a payload gives.
    pub open spec fn parse(b: Seq<u8>) -> Result<ResumeStateView, ProtocolError> {
        if b.len() < 16 {
            Err(ProtocolError::Malformed("RESUME_STATE: truncated"))
        } else {
            match wire::text_at(b, 16, 56, Self::path_faults()) {
                Err(e) => Err(e),
                Ok((staging_relpath, i)) => match indices::list_at(
                    b,
                    i + 56,
                    Self::list_faults(),
                ) {
                    Err(e) => Err(e),
                    Ok((completed_chunks, _)) => Ok(
                        ResumeStateView {
                            transfer_id: b.subrange(0, 16),
                            staging_relpath,
                            file_size: le::u64_at(b, i),
                            bytes_completed: le::u64_at(b, i + 8),
                            verified_up_to: le::u64_at(b, i + 16),
                            file_hash: b.subrange(i + 24, i + 56),
                            completed_chunks,
                        },
                    ),
                },
            }
        }
    }
}

impl ResumeState {
    /// Encode the payload to bytes.
    pub fn encode(&self) -> (r: Result<Bytes, ProtocolError>)
        ensures
            wire::encoded(r, self@.encoding()),
    {
        if self.completed_chunks.len() as u64 > MAX_WIRE_CHUNKS {
            return Err(ProtocolError::Malformed("too many completed chunks"));
        }
        if wire::utf8_len(self.staging_relpath.as_str()) > 0xFFFF {
            return Err(ProtocolError::Malformed("RESUME_STATE: path too long"));
        }
        let mut out: Vec<u8> = Vec::new();
        wire::push_bytes(&mut out, self.transfer_id.as_bytes().as_slice());
        wire::push_text(&mut out, self.staging_relpath.as_str());
        le::push_u64(&mut out, self.file_size);
        le::push_u64(&mut out, self.bytes_completed);
        le::push_u64(&mut out, self.verified_up_to);
        wire::push_bytes(&mut out, self.file_hash.as_bytes().as_slice());
        indices::push_list(&mut out, self.completed_chunks.as_slice());
        assert(out@ =~= self@.wire());
        Ok(foreign::bytes_from_vec(out))
    }

    /// Decode the payload from `buf`.
    pub fn decode(buf: &[u8]) -> (r: Result<Self, ProtocolError>)
        ensures
            wire::decoded(r, ResumeStateView::parse(buf@)),
    {
        if buf.len() < 16 {
            return Err(ProtocolError::Malformed("RESUME_STATE: truncated"));
        }
        let (staging_relpath, i) = match wire::read_text(
            buf,
            16,
            56,
            wire::TextFaults {
                too_large: "RESUME_STATE: path too long",
                truncated: "RESUME_STATE: truncated body",
                not_utf8: "RESUME_STATE: path not UTF-8",
            },
        ) {
            Ok(x) => x,
            Err(e) => {
                return Err(e);
            },
        };
        match indices::read_list(
            buf,
            i + 56,
            indices::ListFaults {
                truncated: "RESUME_STATE: truncated chunks",
                non_monotonic: "RESUME_STATE: non-monotonic chunks",
            },
        ) {
            Ok((completed_chunks, _)) => Ok(
                ResumeState {
                    transfer_id: wire::read_transfer_id(buf, 0),
                    staging_relpath,
                    file_size: le::read_u64(buf, i),
                    bytes_completed: le::read_u64(buf, i + 8),
                    verified_up_to: le::read_u64(buf, i + 16),
                    file_hash: wire::read_hash(buf, i + 24),
                    completed_chunks,
                },
            ),
            Err(e) => Err(e),
        }
    }
}

/// RESUME_STATE with an increasing list that could be written is read back.
pub proof fn law_resume_state_roundtrip(m: ResumeState)
    requires
        indices::increasing(m.completed_chunks@),
    ensures
        m@.encoding() matches Ok(w) ==> ResumeStateView::parse(w) == Ok::<
            ResumeStateView,
            ProtocolError,
        >(m@),
{
    broadcast use {le::group_le_lengths, util::lemma_transfer_id_len, util::lemma_hash_len};

    let b = m@.wire();
    if m@.encoding() is Ok {
        let t = wire::text_bytes(m.staging_relpath@);
        let list = indices::list_bytes(m.completed_chunks@);
        let tail = le::u64_bytes(m.file_size) + le::u64_bytes(m.bytes_completed) + le::u64_bytes(
            m.verified_up_to,
        ) + m.file_hash@ + list;
        let i = 16 + t.len() as int;
        assert(b.subrange(0, 16) =~= m.transfer_id@);
        assert(b.skip(16) =~= t + tail);
        wire::lemma_text_roundtrip(
            b,
            16,
            56,
            ResumeStateView::path_faults(),
            m.staging_relpath@,
            tail,
        );
        let c = b.skip(i);
        assert(b.subrange(i, i + 8) =~= c.subrange(0, 8));
        assert(tail.subrange(0, 8) =~= le::u64_bytes(m.file_size));
        le::lemma_u64_roundtrip(b, i, m.file_size);
        assert(b.subrange(i + 8, i + 16) =~= c.subrange(8, 16));
        assert(tail.subrange(8, 16) =~= le::u64_bytes(m.bytes_completed));
        le::lemma_u64_roundtrip(b, i + 8, m.bytes_completed);
        assert(b.subrange(i + 16, i + 24) =~= c.subrange(16, 24));
        assert(tail.subrange(16, 24) =~= le::u64_bytes(m.verified_up_to));
        le::lemma_u64_roundtrip(b, i + 16, m.verified_up_to);
        assert(b.subrange(i + 24, i + 56) =~= c.subrange(24, 56));
        assert(tail.subrange(24, 56) =~= m.file_hash@);
        assert(b.skip(i + 56) =~= c.skip(56));
        assert(tail.skip(56) =~= list + Seq::<u8>::empty());
        indices::lemma_list_roundtrip(
            b,
            i + 56,
            m.completed_chunks@,
            ResumeStateView::list_faults(),
            Seq::empty(),
        );
    }
}

/// `STAT_RESULT` payload (server to client).
///
/// ```text
/// transfer_id(16) found(1) padding(1) status(text) direction(text)
/// remote_path(text) file_size(u64) bytes_completed(u64) verified_up_to(u64)
/// created_ms(u64) updated_ms(u64)
/// ```
#[derive(Debug, Clone, PartialEq, Eq)]
pub struct StatResult {
    pub transfer_id: TransferId,
    pub found: bool,
    pub status: String,
    pub direction: String,
    pub remote_path: String,
    pub file_size: u64,
    pub bytes_completed: u64,
    pub verified_up_to: u64,
    pub created_ms: u64,
    pub updated_ms: u64,
}

/// Contents of STAT_RESULT.
#[verifier::ext_equal]
pub struct StatResultView {
    pub transfer_id: Seq<u8>,
    pub found: bool,
    pub status: Seq<char>,
    pub direction: Seq<char>,
    pub remote_path: Seq<char>,
    pub file_size: u64,
    pub bytes_completed: u64,
    pub verified_up_to: u64,
    pub created_ms: u64,
    pub updated_ms: u64,
}

impl View for StatResult {
    type V = StatResultView;

    open spec fn view(&self) -> StatResultView {
        StatResultView {
            transfer_id: self.transfer_id@,
            found: self.found,
            status: self.status@,
            direction: self.direction@,
            remote_path: self.remote_path@,
            file_size: self.file_size,
            bytes_completed: self.bytes_completed,
            verified_up_to: self.verified_up_to,
            created_ms: self.created_ms,
            updated_ms: self.updated_ms,
        }
    }
}

impl StatResultView {
    /// The numbers at the end of the payload.
    pub open spec fn numbers(self) -> Seq<u8> {
        le::u64_bytes(self.file_size) + le::u64_bytes(self.bytes_completed) + le::u64_bytes(
            self.verified_up_to,
        ) + le::u64_bytes(self.created_ms) + le::u64_bytes(self.updated_ms)
    }

    /// The payload on the wire.
    pub open spec fn wire(self) -> Seq<u8> {
        self.transfer_id + seq![wire::flag_byte(self.found), 0u8] + wire::text_bytes(self.status)
            + wire::text_bytes(self.direction) + wire::text_bytes(self.remote_path)
            + self.numbers()
    }

    /// What encoding gives.
    pub open spec fn encoding(self) -> Result<Seq<u8>, ProtocolError> {
        if wire::fits_u16(self.status) && wire::fits_u16(self.direction) && wire::fits_u16(
            self.remote_path,
        ) {
            Ok(self.wire())
        } else {
            Err(ProtocolError::Malformed("STAT_RESULT: field too long"))
        }
    }

    pub open spec fn text_faults() -> wire::TextFaults {
        wire::TextFaults {
            too_large: "STAT_RESULT: string too long",
            truncated: "STAT_RESULT: truncated string",
            not_utf8: "STAT_RESULT: not UTF-8",
        }
    }

    /// What decoding a payload gives. The padding byte is not looked at.
    pub open spec fn parse(b: Seq<u8>) -> Result<StatResultView, ProtocolError> {
        if b.len() < 18 {
            Err(ProtocolError::Malformed("STAT_RESULT: truncated"))
        } else if b[16] > 1 {
            Err(ProtocolError::Malformed("STAT_RESULT: bad found flag"))
        } else {
            match wire::text_at(b, 18, 0, Self::text_faults()) {
                Err(e) => Err(e),
                Ok((status, i)) => match wire::text_at(b, i, 0, Self::text_faults()) {
                    Err(e) => Err(e),
                    Ok((direction, j)) => match wire::text_at(b, j, 0, Self::text_faults()) {
                        Err(e) => Err(e),
                        Ok((remote_path, k)) => if b.len() < k + 40 {
                            Err(ProtocolError::Malformed("STAT_RESULT: truncated numbers"))
                        } else {
                            Ok(
                                StatResultView {
                                    transfer_id: b.subrange(0, 16),
                                    found: b[16] == 1,
                                    status,
                                    direction,
                                    remote_path,
                                    file_size: le::u64_at(b, k),
                                    bytes_completed: le::u64_at(b, k + 8),
                                    verified_up_to: le::u64_at(b, k + 16),
                                    created_ms: le::u64_at(b, k + 24),
                                    updated_ms: le::u64_at(b, k + 32),
                                },
                            )
                        },
                    },
                },
            }
        }
    }
}

impl StatResult {
    /// Encode the payload to bytes.
    pub fn encode(&self) -> (r: Result<Bytes, ProtocolError>)
        ensures
            wire::encoded(r, self@.encoding()),
    {
        if wire::utf8_len(self.status.as_str()) > 0xFFFF || wire::utf8_len(self.direction.as_str())
            > 0xFFFF || wire::utf8_len(self.remote_path.as_str()) > 0xFFFF {
            return Err(ProtocolError::Malformed("STAT_RESULT: field too long"));
        }
        let mut out: Vec<u8> = Vec::new();
        wire::push_bytes(&mut out, self.transfer_id.as_bytes().as_slice());
        wire::push_flag(&mut out, self.found);
        out.push(0u8);
        wire::push_text(&mut out, self.status.as_str());
        wire::push_text(&mut out, self.direction.as_str());
        wire::push_text(&mut out, self.remote_path.as_str());
        le::push_u64(&mut out, self.file_size);
        le::push_u64(&mut out, self.bytes_completed);
        le::push_u64(&mut out, self.verified_up_to);
        le::push_u64(&mut out, self.created_ms);
        le::push_u64(&mut out, self.updated_ms);
        assert(out@ =~= self@.wire());
        Ok(foreign::bytes_from_vec(out))
    }

    fn read_text(buf: &[u8], i: usize) -> (r: Result<(String, usize), ProtocolError>)
        requires
            i <= buf.len(),
        ensures
            match wire::text_at(buf@, i as int, 0, StatResultView::text_faults()) {
                Ok((s, j)) => r matches Ok((t, k)) && t@ == s && k == j && i < k <= buf.len(),
                Err(e) => r matches Err(d) && d == e,
            },
    {
        wire::read_text(
            buf,
            i,
            0,
            wire::TextFaults {
                too_large: "STAT_RESULT: string too long",
                truncated: "STAT_RESULT: truncated string",
                not_utf8: "STAT_RESULT: not UTF-8",
            },
        )
    }

    /// Decode the payload from `buf`.
    pub fn decode(buf: &[u8]) -> (r: Result<Self, ProtocolError>)
        ensures
            wire::decoded(r, StatResultView::parse(buf@)),
    {
        if buf.len() < 18 {
            return Err(ProtocolError::Malformed("STAT_RESULT: truncated"));
        }
        if buf[16] > 1 {
            return Err(ProtocolError::Malformed("STAT_RESULT: bad found flag"));
        }
        let (status, i) = match Self::read_text(buf, 18) {
            Ok(x) => x,
            Err(e) => {
                return Err(e);
            },
        };
        let (direction, j) = match Self::read_text(buf, i) {
            Ok(x) => x,
            Err(e) => {
                return Err(e);
            },
        };
        let (remote_path, k) = match Self::read_text(buf, j) {
            Ok(x) => x,
            Err(e) => {
                return Err(e);
            },
        };
        if buf.len() - k < 40 {
            return Err(ProtocolError::Malformed("STAT_RESULT: truncated numbers"));
        }
        Ok(
            StatResult {
                transfer_id: wire::read_transfer_id(buf, 0),
                found: buf[16] == 1,
                status,
                direction,
                remote_path,
                file_size: le::read_u64(buf, k),
                bytes_completed: le::read_u64(buf, k + 8),
                verified_up_to: le::read_u64(buf, k + 16),
                created_ms: le::read_u64(buf, k + 24),
                updated_ms: le::read_u64(buf, k + 32),
            },
        )
    }
}

/// STAT_RESULT that could be written is read back.
pub proof fn law_stat_result_roundtrip(m: StatResult)
    ensures
        m@.encoding() matches Ok(w) ==> StatResultView::parse(w) == Ok::<
            StatResultView,
            ProtocolError,
        >(m@),
{
    broadcast use util::lemma_transfer_id_len;

    lemma_stat_result_roundtrip(m@);
}

proof fn lemma_stat_result_roundtrip(v: StatResultView)
    requires
        v.transfer_id.len() == 16,
    ensures
        v.encoding() matches Ok(w) ==> StatResultView::parse(w) == Ok::<
            StatResultView,
            ProtocolError,
        >(v),
{
    broadcast use le::group_le_lengths;

    let b = v.wire();
    if v.encoding() is Ok {
        let f = StatResultView::text_faults();
        let t1 = wire::text_bytes(v.status);
        let t2 = wire::text_bytes(v.direction);
        let t3 = wire::text_bytes(v.remote_path);
        let tail = v.numbers();
        let i = 18 + t1.len() as int;
        let j = i + t2.len() as int;
        let k = j + t3.len() as int;
        assert(b.subrange(0, 16) =~= v.transfer_id);
        assert(b.skip(18) =~= t1 + (t2 + t3 + tail));
        wire::lemma_text_roundtrip(b, 18, 0, f, v.status, t2 + t3 + tail);
        assert(b.skip(i) =~= t2 + (t3 + tail));
        wire::lemma_text_roundtrip(b, i, 0, f, v.direction, t3 + tail);
        assert(b.skip(j) =~= t3 + tail);
        wire::lemma_text_roundtrip(b, j, 0, f, v.remote_path, tail);
        let c = b.skip(k);
        assert(b.subrange(k, k + 8) =~= c.subrange(0, 8));
        assert(tail.subrange(0, 8) =~= le::u64_bytes(v.file_size));
        le::lemma_u64_roundtrip(b, k, v.file_size);
        assert(b.subrange(k + 8, k + 16) =~= c.subrange(8, 16));
        assert(tail.subrange(8, 16) =~= le::u64_bytes(v.bytes_completed));
        le::lemma_u64_roundtrip(b, k + 8, v.bytes_completed);
        assert(b.subrange(k + 16, k + 24) =~= c.subrange(16, 24));
        assert(tail.subrange(16, 24) =~= le::u64_bytes(v.verified_up_to));
        le::lemma_u64_roundtrip(b, k + 16, v.verified_up_to);
        assert(b.subrange(k + 24, k + 32) =~= c.subrange(24, 32));
        assert(tail.subrange(24, 32) =~= le::u64_bytes(v.created_ms));
        le::lemma_u64_roundtrip(b, k + 24, v.created_ms);
        assert(b.subrange(k + 32, k + 40) =~= c.subrange(32, 40));
        assert(tail.subrange(32, 40) =~= le::u64_bytes(v.updated_ms));
        le::lemma_u64_roundtrip(b, k + 32, v.updated_ms);
    }
}

/// `LIST` query (client to server).
///
/// ```text
/// url_prefix(text)
/// ```
#[derive(Debug, Clone, PartialEq, Eq)]
pub struct ListQuery {
    pub url_prefix: String,
}

/// Contents of LIST.
#[verifier::ext_equal]
pub struct ListQueryView {
    pub url_prefix: Seq<char>,
}

impl View for ListQuery {
    type V = ListQueryView;

    open spec fn view(&self) -> ListQueryView {
        ListQueryView { url_prefix: self.url_prefix@ }
    }
}

impl ListQueryView {
    /// The payload on the wire.
    pub open spec fn wire(self) -> Seq<u8> {
        wire::text_bytes(self.url_prefix)
    }

    /// What encoding gives.
    pub open spec fn encoding(self) -> Result<Seq<u8>, ProtocolError> {
        if !wire::fits_u16(self.url_prefix) {
            Err(ProtocolError::Malformed("LIST: prefix too long"))
        } else {
            Ok(self.wire())
        }
    }

    pub open spec fn prefix_faults() -> wire::TextFaults {
        wire::TextFaults {
            too_large: "LIST: prefix too long",
            truncated: "LIST: truncated prefix",
            not_utf8: "LIST: not UTF-8",
        }
    }

    /// What decoding a payload gives.
    pub open spec fn parse(b: Seq<u8>) -> Result<ListQueryView, ProtocolError> {
        match wire::text_at(b, 0, 0, Self::prefix_faults()) {
            Err(e) => Err(e),
            Ok((url_prefix, _)) => Ok(ListQueryView { url_prefix }),
        }
    }
}

impl ListQuery {
    /// Encode the payload to bytes.
    pub fn encode(&self) -> (r: Result<Bytes, ProtocolError>)
        ensures
            wire::encoded(r, self@.encoding()),
    {
        if wire::utf8_len(self.url_prefix.as_str()) > 0xFFFF {
            return Err(ProtocolError::Malformed("LIST: prefix too long"));
        }
        let mut out: Vec<u8> = Vec::new();
        wire::push_text(&mut out, self.url_prefix.as_str());
        assert(out@ =~= self@.wire());
        Ok(foreign::bytes_from_vec(out))
    }

    /// Decode the payload from `buf`.
    pub fn decode(buf: &[u8]) -> (r: Result<Self, ProtocolError>)
        ensures
            wire::decoded(r, ListQueryView::parse(buf@)),
    {
        match wire::read_text(
            buf,
            0,
            0,
            wire::TextFaults {
                too_large: "LIST: prefix too long",
                truncated: "LIST: truncated prefix",
                not_utf8: "LIST: not UTF-8",
            },
        ) {
            Ok((url_prefix, _)) => Ok(ListQuery { url_prefix }),
            Err(e) => Err(e),
        }
    }
}

/// LIST that could be written is read back.
pub proof fn law_list_query_roundtrip(m: ListQuery)
    ensures
        m@.encoding() matches Ok(w) ==> ListQueryView::parse(w) == Ok::<
            ListQueryView,
            ProtocolError,
        >(m@),
{
    let b = m@.wire();
    if m@.encoding() is Ok {
        assert(b.skip(0) =~= wire::text_bytes(m.url_prefix@) + Seq::<u8>::empty());
        wire::lemma_text_roundtrip(
            b,
            0,
            0,
            ListQueryView::prefix_faults(),
            m.url_prefix@,
            Seq::empty(),
        );
    }
}

/// `LIST_RESULT` payload (server to client): a count, then each
/// `STAT_RESULT` with its length in front.
#[derive(Debug, Clone, PartialEq, Eq)]
pub struct ListResult {
    pub entries: Vec<StatResult>,
}

/// Contents of LIST_RESULT.
#[verifier::ext_equal]
pub struct ListResultView {
    pub entries: Seq<StatResultView>,
}

impl View for ListResult {
    type V = ListResultView;

    open spec fn view(&self) -> ListResultView {
        ListResultView { entries: self.entries@.map_values(|e: StatResult| e@) }
    }
}

/// Entries on the wire, each with its length in front; the error of the
/// first entry that cannot be written.
pub open spec fn entries_encoding(s: Seq<StatResultView>) -> Result<Seq<u8>, ProtocolError>
    decreases s.len(),
{
    if s.len() == 0 {
        Ok(Seq::empty())
    } else {
        match entries_encoding(s.drop_last()) {
            Err(e) => Err(e),
            Ok(front) => match s.last().encoding() {
                Err(e) => Err(e),
                Ok(w) => Ok(front + varint::leb128(w.len()) + w),
            },
        }
    }
}

/// The `n` entries that start at `i` in `b`.
pub open spec fn entries_at(b: Seq<u8>, i: int, n: nat) -> Result<
    Seq<StatResultView>,
    ProtocolError,
>
    decreases n,
{
    if n == 0 {
        Ok(Seq::empty())
    } else if i >= b.len() {
        Err(ProtocolError::Malformed("LIST_RESULT: truncated entry length"))
    } else {
        match varint::varint_at_start(b.skip(i)) {
            Err(e) => Err(e),
            Ok((len, c)) => if len > usize::MAX {
                Err(ProtocolError::Malformed("LIST_RESULT: entry too long"))
            } else if b.len() < i + c + len {
                Err(ProtocolError::Malformed("LIST_RESULT: truncated entry"))
            } else {
                match StatResultView::parse(b.subrange(i + c, i + c + len)) {
                    Err(e) => Err(e),
                    Ok(entry) => match entries_at(b, i + c + len, (n - 1) as nat) {
                        Err(e) => Err(e),
                        Ok(rest) => Ok(seq![entry] + rest),
                    },
                }
            },
        }
    }
}

impl ListResultView {
    /// What encoding gives.
    pub open spec fn encoding(self) -> Result<Seq<u8>, ProtocolError> {
        if self.entries.len() > MAX_WIRE_CHUNKS {
            Err(ProtocolError::Malformed("LIST_RESULT: too many entries"))
        } else {
            match entries_encoding(self.entries) {
                Err(e) => Err(e),
                Ok(w) => Ok(varint::leb128(self.entries.len()) + w),
            }
        }
    }

    /// What decoding a payload gives.
    pub open spec fn parse(b: Seq<u8>) -> Result<ListResultView, ProtocolError> {
        match varint::varint_at_start(b) {
            Err(e) => Err(e),
            Ok((count, c)) => if count > MAX_WIRE_CHUNKS {
                Err(ProtocolError::Malformed("LIST_RESULT: too many entries"))
            } else {
                match entries_at(b, c, count as nat) {
                    Err(e) => Err(e),
                    Ok(entries) => Ok(ListResultView { entries }),
                }
            },
        }
    }
}

proof fn lemma_entries_encoding_fails(s: Seq<StatResultView>, k: int)
    requires
        0 <= k <= s.len(),
        entries_encoding(s.take(k)) is Err,
    ensures
        entries_encoding(s) == entries_encoding(s.take(k)),
    decreases s.len() - k,
{
    if k < s.len() {
        assert(s.take(k + 1).drop_last() =~= s.take(k));
        lemma_entries_encoding_fails(s, k + 1);
    } else {
        assert(s.take(k) =~= s);
    }
}

impl ListResult {
    /// Encode the payload to bytes.
    pub fn encode(&self) -> (r: Result<Bytes, ProtocolError>)
        ensures
            wire::encoded(r, self@.encoding()),
    {
        if self.entries.len() as u64 > MAX_WIRE_CHUNKS {
            return Err(ProtocolError::Malformed("LIST_RESULT: too many entries"));
        }
        let ghost s = self@.entries;
        let mut out: Vec<u8> = Vec::new();
        varint::push_varint(&mut out, self.entries.len() as u64);
        let ghost head = out@;
        let mut k: usize = 0;
        assert(s.take(0) =~= Seq::<StatResultView>::empty());
        assert(head + Seq::<u8>::empty() =~= head);
        assert(head =~= varint::leb128(s.len()));
        while k < self.entries.len()
            invariant
                k <= self.entries.len() == s.len(),
                s == self@.entries,
                s.len() <= MAX_WIRE_CHUNKS,
                head == varint::leb128(s.len()),
                entries_encoding(s.take(k as int)) matches Ok(w) && out@ == head + w,
            decreases self.entries.len() - k,
        {
            proof {
                assert(s.take(k + 1).drop_last() =~= s.take(k as int));
                assert(s.take(k + 1).last() == self.entries@[k as int]@);
            }
            match self.entries[k].encode() {
                Ok(body) => {
                    let body = foreign::bytes_as_slice(&body);
                    let ghost before = out@;
                    varint::push_varint(&mut out, body.len() as u64);
                    wire::push_bytes(&mut out, body);
                    proof {
                        let w = entries_encoding(s.take(k as int))->Ok_0;
                        assert(out@ =~= head + (w + varint::leb128(body@.len()) + body@));
                    }
                },
                Err(e) => {
                    proof {
                        lemma_entries_encoding_fails(s, k + 1);
                    }
                    return Err(e);
                },
            }
            k = k + 1;
        }
        assert(s.take(k as int) =~= s);
        Ok(foreign::bytes_from_vec(out))
    }

    /// Decode the payload from `buf`.
    #[verifier::spinoff_prover]
    #[verifier::rlimit(40)]
    pub fn decode(buf: &[u8]) -> (r: Result<Self, ProtocolError>)
        ensures
            wire::decoded(r, ListResultView::parse(buf@)),
    {
        let (count, c) = match varint::decode_varint(buf) {
            Ok(x) => x,
            Err(e) => {
                return Err(e);
            },
        };
        if count > MAX_WIRE_CHUNKS {
            return Err(ProtocolError::Malformed("LIST_RESULT: too many entries"));
        }
        let mut pos: usize = c;
        let mut entries: Vec<StatResult> = Vec::new();
        let mut k: u64 = 0;
        let ghost mut seen: Seq<StatResultView> = Seq::empty();
        proof {
            if let Ok(rest) = entries_at(buf@, c as int, count as nat) {
                assert(seen + rest =~= rest);
            }
        }
        while k < count
            invariant
                k <= count <= MAX_WIRE_CHUNKS,
                pos <= buf.len(),
                seen == entries@.map_values(|e: StatResult| e@),
                ListResultView::parse(buf@) == (match entries_at(
                    buf@,
                    pos as int,
                    (count - k) as nat,
                ) {
                    Err(e) => Err(e),
                    Ok(rest) => Ok(ListResultView { entries: seen + rest }),
                }),
            decreases count - k,
        {
            if pos >= buf.len() {
                return Err(ProtocolError::Malformed("LIST_RESULT: truncated entry length"));
            }
            let (len, n) = match varint::decode_varint(wire::slice_from(buf, pos)) {
                Ok(x) => x,
                Err(e) => {
                    return Err(e);
                },
            };
            if len > usize::MAX as u64 {
                return Err(ProtocolError::Malformed("LIST_RESULT: entry too long"));
            }
            let len: usize = len as usize;
            let start: usize = pos + n;
            if buf.len() - start < len {
                return Err(ProtocolError::Malformed("LIST_RESULT: truncated entry"));
            }
            let entry = match StatResult::decode(
                vstd::slice::slice_subrange(buf, start, start + len),
            ) {
                Ok(x) => x,
                Err(e) => {
                    return Err(e);
                },
            };
            proof {
                let now = seen.push(entry@);
                if let Ok(rest) = entries_at(buf@, start + len, (count - k - 1) as nat) {
                    assert(seen + (seq![entry@] + rest) =~= now + rest);
                }
                seen = now;
            }
            entries.push(entry);
            assert(seen =~= entries@.map_values(|e: StatResult| e@));
            pos = start + len;
            k = k + 1;
        }
        assert(seen + Seq::<StatResultView>::empty() =~= seen);
        Ok(ListResult { entries })
    }
}

/// Entries on the wire, first entry first.
spec fn entries_front(s: Seq<StatResultView>) -> Seq<u8>
    decreases s.len(),
{
    if s.len() == 0 {
        Seq::empty()
    } else {
        varint::leb128(s[0].wire().len()) + s[0].wire() + entries_front(s.skip(1))
    }
}

proof fn lemma_entries_front_push(s: Seq<StatResultView>, v: StatResultView)
    ensures
        entries_front(s.push(v)) == entries_front(s) + varint::leb128(v.wire().len()) + v.wire(),
    decreases s.len(),
{
    if s.len() == 0 {
        assert(s.push(v).skip(1) =~= Seq::<StatResultView>::empty());
        assert(entries_front(s.push(v).skip(1)) =~= Seq::<u8>::empty());
        assert(entries_front(s.push(v)) =~= entries_front(s) + varint::leb128(v.wire().len())
            + v.wire());
    } else {
        lemma_entries_front_push(s.skip(1), v);
        assert(s.push(v).skip(1) =~= s.skip(1).push(v));
        assert(entries_front(s.push(v)) =~= entries_front(s) + varint::leb128(v.wire().len())
            + v.wire());
    }
}

proof fn lemma_entries_encoding(s: Seq<StatResultView>)
    ensures
        entries_encoding(s) matches Ok(w) ==> w == entries_front(s) && forall|k: int|
            0 <= k < s.len() ==> (#[trigger] s[k]).encoding() is Ok,
    decreases s.len(),
{
    if s.len() > 0 {
        let t = s.drop_last();
        lemma_entries_encoding(t);
        lemma_entries_front_push(t, s.last());
        assert(t.push(s.last()) =~= s);
        if entries_encoding(s) is Ok {
            assert forall|k: int| 0 <= k < s.len() implies (#[trigger] s[k]).encoding() is Ok by {
                if k < t.len() {
                    assert(t[k].encoding() is Ok);
                }
            }
        }
    }
}

/// A field that was written with its length in front is found again.
proof fn lemma_sized_field(b: Seq<u8>, i: int, w: Seq<u8>, rest: Seq<u8>)
    requires
        0 <= i <= b.len(),
        w.len() <= u64::MAX,
        b.skip(i) == varint::leb128(w.len()) + w + rest,
    ensures
        i < b.len(),
        ({
            let start = i + varint::leb128(w.len()).len();
            &&& varint::varint_at_start(b.skip(i)) == Ok::<(u64, int), ProtocolError>(
                (w.len() as u64, start - i),
            )
            &&& start + w.len() <= b.len()
            &&& b.subrange(start, start + w.len()) == w
            &&& b.skip(start + w.len()) == rest
        }),
{
    let e = varint::leb128(w.len());
    let more = w + rest;
    assert(b.skip(i) =~= e + more);
    varint::law_varint_roundtrip(w.len() as u64, more);
    varint::lemma_leb128_not_cut(w.len() as u64, more);
    let n = e.len() as int;
    let m = w.len() as int;
    assert(b.subrange(i + n, i + n + m) =~= b.skip(i).subrange(n, n + m));
    assert((e + more).subrange(n, n + m) =~= w);
    assert(b.skip(i + n + m) =~= b.skip(i).skip(n + m));
    assert((e + more).skip(n + m) =~= rest);
}

#[verifier::spinoff_prover]
proof fn lemma_entries_roundtrip(b: Seq<u8>, i: int, s: Seq<StatResultView>)
    requires
        0 <= i <= b.len() <= usize::MAX,
        b.skip(i) == entries_front(s),
        forall|k: int|
            0 <= k < s.len() ==> (#[trigger] s[k]).encoding() is Ok && s[k].transfer_id.len() == 16,
    ensures
        entries_at(b, i, s.len()) == Ok::<Seq<StatResultView>, ProtocolError>(s),
    decreases s.len(),
{
    if s.len() > 0 {
        let w = s[0].wire();
        let t = s.skip(1);
        assert(s[0].encoding() is Ok);
        lemma_sized_field(b, i, w, entries_front(t));
        lemma_stat_result_roundtrip(s[0]);
        assert forall|k: int| 0 <= k < t.len() implies (#[trigger] t[k]).encoding() is Ok
            && t[k].transfer_id.len() == 16 by {
            assert(t[k] == s[k + 1]);
        }
        lemma_entries_roundtrip(b, i + varint::leb128(w.len()).len() + w.len(), t);
        assert(seq![s[0]] + t =~= s);
    } else {
        assert(Seq::<StatResultView>::empty() =~= s);
    }
}

/// LIST_RESULT that could be written is read back.
pub proof fn law_list_result_roundtrip(m: ListResult)
    ensures
        m@.encoding() matches Ok(w) ==> (w.len() <= usize::MAX ==> ListResultView::parse(w)
            == Ok::<ListResultView, ProtocolError>(m@)),
{
    broadcast use util::lemma_transfer_id_len;

    let s = m@.entries;
    if let Ok(w) = m@.encoding() {
        if w.len() <= usize::MAX {
            lemma_entries_encoding(s);
            let e = varint::leb128(s.len());
            assert(w =~= e + entries_front(s));
            varint::law_varint_roundtrip(s.len() as u64, entries_front(s));
            assert(w.skip(e.len() as int) =~= entries_front(s));
            lemma_entries_roundtrip(w, e.len() as int, s);
        }
    }
}

/// `CANCEL` payload (client to server).
#[derive(Debug, Clone, Copy, PartialEq, Eq)]
pub struct Cancel {
    pub transfer_id: TransferId,
    pub reason_code: u32,
}

/// Contents of CANCEL.
#[verifier::ext_equal]
pub struct CancelView {
    pub transfer_id: Seq<u8>,
    pub reason_code: u32,
}

impl View for Cancel {
    type V = CancelView;

    open spec fn view(&self) -> CancelView {
        CancelView {
            transfer_id: self.transfer_id@,
            reason_code: self.reason_code,
        }
    }
}

impl CancelView {
    /// The payload on the wire.
    pub open spec fn wire(self) -> Seq<u8> {
        self.transfer_id + le::u32_bytes(self.reason_code)
    }

    /// What decoding a payload gives.
    pub open spec fn parse(b: Seq<u8>) -> Result<CancelView, ProtocolError> {
        if b.len() < 20 {
            Err(ProtocolError::Malformed("CANCEL: truncated"))
        } else {
            Ok(
                CancelView {
                    transfer_id: b.subrange(0, 16),
                    reason_code: le::u32_at(b, 16),
                },
            )
        }
    }
}

impl Cancel {
    /// Encode the payload to bytes.
    pub fn encode(&self) -> (r: Result<Bytes, ProtocolError>)
        ensures
            r matches Ok(b) && foreign::bytes_content(b) == self@.wire(),
    {
        let mut out: Vec<u8> = Vec::new();
        wire::push_bytes(&mut out, self.transfer_id.as_bytes().as_slice());
        le::push_u32(&mut out, self.reason_code);
        assert(out@ =~= self@.wire());
        Ok(foreign::bytes_from_vec(out))
    }

    /// Decode the payload from `buf`.
    pub fn decode(buf: &[u8]) -> (r: Result<Self, ProtocolError>)
        ensures
            wire::decoded(r, CancelView::parse(buf@)),
    {
        if buf.len() < 20 {
            return Err(ProtocolError::Malformed("CANCEL: truncated"));
        }
        Ok(
            Cancel {
                transfer_id: wire::read_transfer_id(buf, 0),
                reason_code: le::read_u32(buf, 16),
            },
        )
    }
}

/// CANCEL that was written is read back.
pub proof fn law_cancel_roundtrip(m: Cancel)
    ensures
        CancelView::parse(m@.wire()) == Ok::<CancelView, ProtocolError>(m@),
{
    broadcast use {le::group_le_lengths, util::lemma_transfer_id_len, util::lemma_hash_len};

    let b = m@.wire();
    assert(b.subrange(0, 16) =~= m.transfer_id@);
    assert(b.subrange(16, 20) =~= le::u32_bytes(m.reason_code));
    le::lemma_u32_roundtrip(b, 16, m.reason_code);
}

/// `STAT` query (client to server).
#[derive(Debug, Clone, Copy, PartialEq, Eq)]
pub struct StatQuery {
    pub transfer_id: TransferId,
}

/// Contents of STAT.
#[verifier::ext_equal]
pub struct StatQueryView {
    pub transfer_id: Seq<u8>,
}

impl View for StatQuery {
    type V = StatQueryView;

    open spec fn view(&self) -> StatQueryView {
        StatQueryView {
            transfer_id: self.transfer_id@,
        }
    }
}

impl StatQueryView {
    /// The payload on the wire.
    pub open spec fn wire(self) -> Seq<u8> {
        self.transfer_id
    }

    /// What decoding a payload gives.
    pub open spec fn parse(b: Seq<u8>) -> Result<StatQueryView, ProtocolError> {
        if b.len() < 16 {
            Err(ProtocolError::Malformed("STAT: truncated"))
        } else {
            Ok(
                StatQueryView {
                    transfer_id: b.subrange(0, 16),
                },
            )
        }
    }
}

impl StatQuery {
    /// Encode the payload to bytes.
    pub fn encode(&self) -> (r: Bytes)
        ensures
            foreign::bytes_content(r) == self@.wire(),
    {
        let mut out: Vec<u8> = Vec::new();
        wire::push_bytes(&mut out, self.transfer_id.as_bytes().as_slice());
        assert(out@ =~= self@.wire());
        foreign::bytes_from_vec(out)
    }

    /// Decode the payload from `buf`.
    pub fn decode(buf: &[u8]) -> (r: Result<Self, ProtocolError>)
        ensures
            wire::decoded(r, StatQueryView::parse(buf@)),
    {
        if buf.len() < 16 {
            return Err(ProtocolError::Malformed("STAT: truncated"));
        }
        Ok(
            StatQuery {
                transfer_id: wire::read_transfer_id(buf, 0),
            },
        )
    }
}

/// STAT that was written is read back.
pub proof fn law_stat_query_roundtrip(m: StatQuery)
    ensures
        StatQueryView::parse(m@.wire()) == Ok::<StatQueryView, ProtocolError>(m@),
{
    broadcast use {le::group_le_lengths, util::lemma_transfer_id_len, util::lemma_hash_len};

    let b = m@.wire();
    assert(b.subrange(0, 16) =~= m.transfer_id@);
}

} // verus!
