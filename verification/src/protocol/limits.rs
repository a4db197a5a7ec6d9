//! Named protocol limits.

use vstd::prelude::*;

verus! {

/// Protocol version.
pub const PROTOCOL_VERSION: u8 = 1;

/// Maximum payload size of a control or metadata frame, in bytes.
pub const MAX_MESSAGE_SIZE: u64 = 1024 * 1024;

/// Maximum size of a single chunk, in bytes.
pub const MAX_CHUNK_SIZE: u64 = 4 * 1024 * 1024;

/// Default chunk target size, in bytes.
pub const DEFAULT_CHUNK_TARGET: u64 = 1024 * 1024;

/// Default minimum chunk size, in bytes.
pub const DEFAULT_CHUNK_MIN: u64 = 256 * 1024;

/// Maximum entries per manifest.
pub const MAX_MANIFEST_ENTRIES: u64 = 50_000_000;

/// Maximum total size of a manifest, in bytes.
pub const MAX_MANIFEST_BYTES: u64 = 8_589_934_592;

/// Target number of manifest entries per `MANIFEST_BATCH` frame.
pub const MANIFEST_BATCH_SIZE: usize = 4096;

/// Maximum decompressed payload size of a single `MANIFEST_BATCH`, in bytes.
pub const MAX_BATCH_DECOMPRESSED_BYTES: usize = 16 * 1024 * 1024;

/// Maximum size of a single path component, in bytes.
pub const MAX_PATH_COMPONENT: usize = 255;

/// Maximum total path length, in bytes.
pub const MAX_PATH_TOTAL: usize = 4096;

/// QUIC idle timeout, seconds.
pub const QUIC_IDLE_TIMEOUT_SECS: u64 = 60;

/// Keepalive interval, seconds.
pub const QUIC_KEEPALIVE_SECS: u64 = 15;

/// Maximum size of an `ERROR` detail string, in bytes.
pub const MAX_ERROR_DETAIL: usize = 256;

/// Default agent string advertised in HELLO.
pub const AGENT_STRING: &'static str = "velcrux/0.1.0";

/// Version of this implementation, as agent strings carry it.
pub const IMPLEMENTATION_VERSION: &'static str = "0.1.0";

/// ALPN protocol identifier: `VELCRUX/1`.
pub const ALPN: [u8; 9] = [0x56, 0x45, 0x4C, 0x43, 0x52, 0x55, 0x58, 0x2F, 0x31];

/// Checkpoint cadence of the sender, in bytes.
pub const CHECKPOINT_BYTES_INTERVAL: u64 = 0x4000_0000;

/// Checkpoint cadence of the sender, in milliseconds.
pub const CHECKPOINT_TIME_INTERVAL_MS: u64 = 10_000;

/// Maximum size of the opaque token of an `AUTH` message, in bytes.
pub const MAX_AUTH_TOKEN: usize = 4096;

/// Maximum length of an identity name, in bytes.
pub const MAX_IDENTITY_LEN: usize = 255;

} // verus!
