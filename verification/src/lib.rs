//! Core logic of velcrux, a bulk transfer protocol: wire codecs, chunking,
//! manifests, transfer state, authorization and session decisions.

pub mod auth;
pub mod chunking;
pub mod client;
pub mod error;
pub mod foreign;
pub mod manifest;
pub mod protocol;
pub mod session;
pub mod state;
pub mod storage;
pub mod text;
pub mod texts;
pub mod transfer;
pub mod transport;
pub mod util;

pub use self::auth::{
    Authenticator, Authorizer, FileAuthorizer, Grant, MtlsAuthenticator, Op, PermSet,
};
pub use self::chunking::{
    ChunkBoundary, ChunkMode, ChunkParams, Chunker, FixedChunker, RollingChunker,
    CHUNK_DEFAULT_MAX, CHUNK_DEFAULT_MIN, CHUNK_DEFAULT_TARGET,
};
pub use self::error::{Result, VelcruxError};
pub use self::manifest::{
    ChunkDesc, ChunkFlags, FileEntry, FileFlags, FileType, ManifestBatchDecoder, ManifestReader,
    ManifestStore, ManifestWriter,
};
pub use self::state::{
    ChunkBitmap, CommitJournalEntry, CommitStatus, Direction, JournalRecovery, MockStateStore,
    Role, StateStore, StateStoreError, StateStoreResult, TransferRecord, TransferStatus,
    UpsertOutcome, MAX_WIRE_CHUNKS,
};
pub use self::storage::{VPath, VPathError};
pub use self::util::HashHasher;
