//! Streaming framed manifests.
//!
//! A manifest describes the files of a transfer: their metadata, digests and
//! chunks. It is never held as a whole: entries travel in batches, each
//! compressed, and the manifest is addressed by the digest of its canonical
//! encoding.

pub mod codec;
pub mod entry;
pub mod making;
pub mod meaning;
pub mod reader;
pub mod scanner;
pub mod store;
pub mod writer;

pub use self::codec::{decode_chunk_desc, decode_file_entry, encode_chunk_desc, encode_file_entry};
pub use self::reader::{decompress_batch, ManifestBatchDecoder, ManifestReader, ManifestStep};
pub use self::scanner::{FileScan, SCANNER_BUFFER_SIZE};
pub use self::store::ManifestStore;
pub use self::writer::{ManifestWriter, SPILL_MAGIC, SPILL_VERSION};
pub use self::entry::{
    ChunkDesc, ChunkFlags, FileEntry, FileFlags, FileType, CHUNK_FLAG_HOLE, FILE_FLAG_HAS_XATTRS,
    FILE_FLAG_SPARSE, FILE_TYPE_DIR, FILE_TYPE_REGULAR, FILE_TYPE_SYMLINK,
};
