//! Manifest entries and chunk descriptors.
//!
//! Chunk offsets are implicit: they are the running sum of the lengths of
//! the chunks in front.

use vstd::prelude::*;

use crate::storage::VPath;
use crate::text;
use crate::util;

verus! {

/// Entry type mask in `FileFlags`.
pub const FILE_TYPE_MASK: u64 = 0x03;

/// Regular file.
pub const FILE_TYPE_REGULAR: u64 = 0x00;

/// Directory.
pub const FILE_TYPE_DIR: u64 = 0x01;

/// Symbolic link.
pub const FILE_TYPE_SYMLINK: u64 = 0x02;

/// Sparse file flag.
pub const FILE_FLAG_SPARSE: u64 = 0x04;

/// Has extended attributes flag.
pub const FILE_FLAG_HAS_XATTRS: u64 = 0x08;

/// Hole flag of a chunk.
pub const CHUNK_FLAG_HOLE: u64 = 0x01;

/// File type discriminator.
#[derive(Debug, Clone, Copy, PartialEq, Eq, Hash, Structural)]
pub enum FileType {
    /// Regular file with data chunks.
    Regular,
    /// Directory.
    Directory,
    /// Symbolic link.
    Symlink,
}

/// Properties of a file entry.
#[derive(Debug, Clone, Copy, PartialEq, Eq, Hash, Structural)]
pub struct FileFlags(pub u64);

/// The file type that entry flags name.
pub open spec fn type_of_flags(f: u64) -> FileType {
    if f & FILE_TYPE_MASK == FILE_TYPE_DIR {
        FileType::Directory
    } else if f & FILE_TYPE_MASK == FILE_TYPE_SYMLINK {
        FileType::Symlink
    } else {
        FileType::Regular
    }
}

impl FileFlags {
    /// Flags of a regular file.
    pub fn regular() -> (r: Self)
        ensures
            r.0 == FILE_TYPE_REGULAR,
    {
        FileFlags(FILE_TYPE_REGULAR)
    }

    /// Flags of a directory.
    pub fn directory() -> (r: Self)
        ensures
            r.0 == FILE_TYPE_DIR,
    {
        FileFlags(FILE_TYPE_DIR)
    }

    /// Flags of a symbolic link.
    pub fn symlink() -> (r: Self)
        ensures
            r.0 == FILE_TYPE_SYMLINK,
    {
        FileFlags(FILE_TYPE_SYMLINK)
    }

    /// Extract the `FileType`.
    pub fn file_type(&self) -> (r: FileType)
        ensures
            r == type_of_flags(self.0),
    {
        let t: u64 = self.0 & FILE_TYPE_MASK;
        if t == FILE_TYPE_DIR {
            FileType::Directory
        } else if t == FILE_TYPE_SYMLINK {
            FileType::Symlink
        } else {
            FileType::Regular
        }
    }

    /// True if marked as a sparse file.
    pub fn is_sparse(&self) -> (r: bool)
        ensures
            r == (self.0 & FILE_FLAG_SPARSE != 0),
    {
        (self.0 & FILE_FLAG_SPARSE) != 0
    }

    /// Set or clear the sparse flag.
    pub fn with_sparse(self, sparse: bool) -> (r: Self)
        ensures
            r.0 == if sparse {
                self.0 | FILE_FLAG_SPARSE
            } else {
                self.0 & !FILE_FLAG_SPARSE
            },
    {
        if sparse {
            FileFlags(self.0 | FILE_FLAG_SPARSE)
        } else {
            FileFlags(self.0 & !FILE_FLAG_SPARSE)
        }
    }

    /// True if marked as possessing extended attributes.
    pub fn has_xattrs(&self) -> (r: bool)
        ensures
            r == (self.0 & FILE_FLAG_HAS_XATTRS != 0),
    {
        (self.0 & FILE_FLAG_HAS_XATTRS) != 0
    }

    /// Set or clear the extended attributes flag.
    pub fn with_xattrs(self, xattrs: bool) -> (r: Self)
        ensures
            r.0 == if xattrs {
                self.0 | FILE_FLAG_HAS_XATTRS
            } else {
                self.0 & !FILE_FLAG_HAS_XATTRS
            },
    {
        if xattrs {
            FileFlags(self.0 | FILE_FLAG_HAS_XATTRS)
        } else {
            FileFlags(self.0 & !FILE_FLAG_HAS_XATTRS)
        }
    }
}

/// Changing one flag of an entry sets that flag as asked, and leaves the file
/// type and the other flag alone.
pub proof fn law_file_flags_independent(f: u64)
    ensures
        (f | FILE_FLAG_SPARSE) & FILE_FLAG_SPARSE != 0,
        (f & !FILE_FLAG_SPARSE) & FILE_FLAG_SPARSE == 0,
        (f | FILE_FLAG_HAS_XATTRS) & FILE_FLAG_HAS_XATTRS != 0,
        (f & !FILE_FLAG_HAS_XATTRS) & FILE_FLAG_HAS_XATTRS == 0,
        type_of_flags(f | FILE_FLAG_SPARSE) == type_of_flags(f),
        type_of_flags(f & !FILE_FLAG_SPARSE) == type_of_flags(f),
        type_of_flags(f | FILE_FLAG_HAS_XATTRS) == type_of_flags(f),
        type_of_flags(f & !FILE_FLAG_HAS_XATTRS) == type_of_flags(f),
        (f | FILE_FLAG_SPARSE) & FILE_FLAG_HAS_XATTRS == f & FILE_FLAG_HAS_XATTRS,
        (f & !FILE_FLAG_SPARSE) & FILE_FLAG_HAS_XATTRS == f & FILE_FLAG_HAS_XATTRS,
        (f | FILE_FLAG_HAS_XATTRS) & FILE_FLAG_SPARSE == f & FILE_FLAG_SPARSE,
        (f & !FILE_FLAG_HAS_XATTRS) & FILE_FLAG_SPARSE == f & FILE_FLAG_SPARSE,
{
    assert((f | 4u64) & 4u64 != 0 && (f & !4u64) & 4u64 == 0 && (f | 8u64) & 8u64 != 0 && (f
        & !8u64) & 8u64 == 0 && (f | 4u64) & 3u64 == f & 3u64 && (f & !4u64) & 3u64 == f & 3u64 && (
    f | 8u64) & 3u64 == f & 3u64 && (f & !8u64) & 3u64 == f & 3u64 && (f | 4u64) & 8u64 == f & 8u64
        && (f & !4u64) & 8u64 == f & 8u64 && (f | 8u64) & 4u64 == f & 4u64 && (f & !8u64) & 4u64
        == f & 4u64) by (bit_vector);
}

/// Flags of a chunk descriptor.
#[derive(Debug, Clone, Copy, PartialEq, Eq, Hash, Structural)]
pub struct ChunkFlags(pub u64);

/// Whether chunk flags mark a hole.
pub open spec fn marks_hole(f: u64) -> bool {
    f & CHUNK_FLAG_HOLE != 0
}

impl Default for ChunkFlags {
    fn default() -> (r: Self)
        ensures
            r.0 == 0,
    {
        ChunkFlags(0)
    }
}

impl ChunkFlags {
    /// Normal chunk.
    pub fn normal() -> (r: Self)
        ensures
            r.0 == 0,
            !marks_hole(r.0),
    {
        assert(0u64 & 1u64 == 0) by (bit_vector);
        ChunkFlags(0)
    }

    /// Hole of a sparse file.
    pub fn hole() -> (r: Self)
        ensures
            r.0 == CHUNK_FLAG_HOLE,
            marks_hole(r.0),
    {
        assert(1u64 & 1u64 != 0) by (bit_vector);
        ChunkFlags(CHUNK_FLAG_HOLE)
    }

    /// True if the chunk is a hole without physical bytes.
    pub fn is_hole(&self) -> (r: bool)
        ensures
            r == marks_hole(self.0),
    {
        (self.0 & CHUNK_FLAG_HOLE) != 0
    }
}

/// A chunk descriptor within a file entry.
#[derive(Debug, Clone, Copy, PartialEq, Eq)]
pub struct ChunkDesc {
    /// Chunk flags.
    pub flags: ChunkFlags,
    /// Chunk length in bytes.
    pub length: u64,
    /// Chunk digest; none for a hole.
    pub hash: Option<util::Hash>,
}

/// Contents of a chunk descriptor.
#[verifier::ext_equal]
pub struct ChunkDescView {
    pub flags: u64,
    pub length: u64,
    pub hash: Option<Seq<u8>>,
}

impl View for ChunkDesc {
    type V = ChunkDescView;

    open spec fn view(&self) -> ChunkDescView {
        ChunkDescView {
            flags: self.flags.0,
            length: self.length,
            hash: match self.hash {
                Some(h) => Some(h@),
                None => None,
            },
        }
    }
}

impl ChunkDesc {
    /// A normal chunk with a known digest.
    pub fn new(length: u64, hash: util::Hash) -> (r: Self)
        ensures
            r@ == (ChunkDescView { flags: 0, length, hash: Some(hash@) }),
            !marks_hole(r.flags.0),
    {
        ChunkDesc { flags: ChunkFlags::normal(), length, hash: Some(hash) }
    }

    /// A hole of a sparse file.
    pub fn hole(length: u64) -> (r: Self)
        ensures
            r@ == (ChunkDescView { flags: CHUNK_FLAG_HOLE, length, hash: None }),
            marks_hole(r.flags.0),
    {
        ChunkDesc { flags: ChunkFlags::hole(), length, hash: None }
    }
}

/// A file or directory entry of a manifest.
#[derive(Debug, Clone, PartialEq, Eq)]
pub struct FileEntry {
    /// Entry flags (file type, sparse, extended attributes).
    pub flags: FileFlags,
    /// Path below the root.
    pub path: VPath,
    /// Total file size in bytes (0 for directories).
    pub size: u64,
    /// POSIX file mode bits.
    pub mode: u32,
    /// Modification time, seconds since the epoch.
    pub mtime_sec: i64,
    /// Modification time, nanoseconds.
    pub mtime_nsec: u32,
    /// Whole-file digest (zero for directories).
    pub file_hash: util::Hash,
    /// Chunk descriptors in order.
    pub chunks: Vec<ChunkDesc>,
}

/// Contents of a file entry.
#[verifier::ext_equal]
pub struct FileEntryView {
    pub flags: u64,
    pub path: Seq<char>,
    pub size: u64,
    pub mode: u32,
    pub mtime_sec: i64,
    pub mtime_nsec: u32,
    pub file_hash: Seq<u8>,
    pub chunks: Seq<ChunkDescView>,
}

impl View for FileEntry {
    type V = FileEntryView;

    open spec fn view(&self) -> FileEntryView {
        FileEntryView {
            flags: self.flags.0,
            path: self.path@,
            size: self.size,
            mode: self.mode,
            mtime_sec: self.mtime_sec,
            mtime_nsec: self.mtime_nsec,
            file_hash: self.file_hash@,
            chunks: self.chunks@.map_values(|c: ChunkDesc| c@),
        }
    }
}

/// The sum of the lengths of chunks.
pub open spec fn lengths_sum(s: Seq<ChunkDescView>) -> nat
    decreases s.len(),
{
    if s.len() == 0 {
        0
    } else {
        lengths_sum(s.drop_last()) + s.last().length as nat
    }
}

/// The chunks in front are no longer than all of them.
pub proof fn lemma_lengths_sum_prefix(s: Seq<ChunkDescView>, k: int)
    requires
        0 <= k <= s.len(),
    ensures
        lengths_sum(s.take(k)) <= lengths_sum(s),
    decreases s.len(),
{
    if k < s.len() {
        lemma_lengths_sum_prefix(s.drop_last(), k);
        assert(s.drop_last().take(k) =~= s.take(k));
    } else {
        assert(s.take(k) =~= s);
    }
}

impl FileEntry {
    /// A regular file entry.
    pub fn regular(
        path: VPath,
        size: u64,
        mode: u32,
        mtime_sec: i64,
        mtime_nsec: u32,
        file_hash: util::Hash,
        chunks: Vec<ChunkDesc>,
    ) -> (r: Self)
        ensures
            r == (FileEntry {
                flags: FileFlags(FILE_TYPE_REGULAR),
                path,
                size,
                mode,
                mtime_sec,
                mtime_nsec,
                file_hash,
                chunks,
            }),
    {
        FileEntry {
            flags: FileFlags::regular(),
            path,
            size,
            mode,
            mtime_sec,
            mtime_nsec,
            file_hash,
            chunks,
        }
    }

    /// A directory entry.
    pub fn directory(path: VPath, mode: u32, mtime_sec: i64, mtime_nsec: u32) -> (r: Self)
        ensures
            r@ == (FileEntryView {
                flags: FILE_TYPE_DIR,
                path: path@,
                size: 0,
                mode,
                mtime_sec,
                mtime_nsec,
                file_hash: Seq::new(32, |i: int| 0u8),
                chunks: Seq::empty(),
            }),
    {
        let r = FileEntry {
            flags: FileFlags::directory(),
            path,
            size: 0,
            mode,
            mtime_sec,
            mtime_nsec,
            file_hash: util::Hash::zero(),
            chunks: Vec::new(),
        };
        assert(r@.chunks =~= Seq::empty());
        r
    }

    /// A symbolic link entry.
    pub fn symlink(
        path: VPath,
        mode: u32,
        mtime_sec: i64,
        mtime_nsec: u32,
        target_hash: util::Hash,
    ) -> (r: Self)
        ensures
            r@ == (FileEntryView {
                flags: FILE_TYPE_SYMLINK,
                path: path@,
                size: 0,
                mode,
                mtime_sec,
                mtime_nsec,
                file_hash: target_hash@,
                chunks: Seq::empty(),
            }),
    {
        let r = FileEntry {
            flags: FileFlags::symlink(),
            path,
            size: 0,
            mode,
            mtime_sec,
            mtime_nsec,
            file_hash: target_hash,
            chunks: Vec::new(),
        };
        assert(r@.chunks =~= Seq::empty());
        r
    }

    /// Sum of all chunk lengths of this entry.
    pub fn chunk_length_sum(&self) -> (r: u64)
        requires
            lengths_sum(self@.chunks) <= u64::MAX,
        ensures
            r == lengths_sum(self@.chunks),
    {
        let ghost s = self@.chunks;
        let mut sum: u64 = 0;
        let mut i: usize = 0;
        assert(s.take(0) =~= Seq::<ChunkDescView>::empty());
        while i < self.chunks.len()
            invariant
                i <= self.chunks.len() == s.len(),
                s == self@.chunks,
                lengths_sum(s) <= u64::MAX,
                sum == lengths_sum(s.take(i as int)),
            decreases self.chunks.len() - i,
        {
            proof {
                assert(s.take(i + 1).drop_last() =~= s.take(i as int));
                lemma_lengths_sum_prefix(s, i + 1);
            }
            sum = sum + self.chunks[i].length;
            i = i + 1;
        }
        assert(s.take(i as int) =~= s);
        sum
    }

    /// A one-line description for logs.
    pub fn to_string(&self) -> (r: String)
        ensures
            r@ == self.path@ + " ("@ + text::decimal(self.size as nat) + " bytes, "@
                + text::decimal(self.chunks@.len()) + " chunks)"@,
    {
        let mut s: String = self.path.as_str().to_owned();
        text::push_str(&mut s, " (");
        text::push_decimal(&mut s, self.size);
        text::push_str(&mut s, " bytes, ");
        text::push_decimal(&mut s, self.chunks.len() as u64);
        text::push_str(&mut s, " chunks)");
        s
    }
}

} // verus!
