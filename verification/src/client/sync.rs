//! Synchronizing directories.

use vstd::prelude::*;

use crate::chunking::{ChunkMode, ChunkParams};
use crate::client::options;
use crate::client::upload;
use crate::client::upload::new_key;
use crate::client::url;
use crate::client::{contents, expect, expected, ClientError, ClientFault};
use crate::protocol::frame::Frame;
use crate::protocol::message;
use crate::protocol::message::{Message, MessageView, TransferCreate, TransferCreateView, TransferOp};
use crate::text;
use crate::util;

verus! {

/// What is to be done about a file.
#[derive(Debug, Clone, Copy, PartialEq, Eq, Structural)]
pub enum FileActionType {
    /// It is only at the source.
    Add,
    /// It is at both sides, and differs.
    Modify,
    /// It is only at the destination.
    Delete,
    /// It is the same at both sides.
    Unchanged,
}

impl FileActionType {
    /// The name of the action in reports.
    pub open spec fn text(self) -> &'static str {
        match self {
            FileActionType::Add => "add",
            FileActionType::Modify => "modify",
            FileActionType::Delete => "delete",
            FileActionType::Unchanged => "unchanged",
        }
    }

    /// The name of the action in reports.
    pub fn name(self) -> (r: &'static str)
        ensures
            r == self.text(),
    {
        match self {
            FileActionType::Add => "add",
            FileActionType::Modify => "modify",
            FileActionType::Delete => "delete",
            FileActionType::Unchanged => "unchanged",
        }
    }

    /// The file is transferred.
    pub open spec fn transfers(self) -> bool {
        self == FileActionType::Add || self == FileActionType::Modify
    }
}

/// What is to be done about a file, and about which.
#[derive(Debug)]
pub struct FileAction {
    /// What is to be done.
    pub action: FileActionType,
    /// The file, relative to the directory.
    pub rel_path: String,
    /// Its size at the source.
    pub src_size: u64,
    /// The bytes of it that are at the destination already.
    pub bytes_reusable: u64,
}

/// What a sync comes to.
#[derive(Debug, Clone, Copy, PartialEq, Eq, Structural)]
pub struct DirectoryDiffSummary {
    pub files_unchanged: u64,
    pub files_modified: u64,
    pub files_added: u64,
    pub files_deleted: u64,
    pub data_present: u64,
    pub data_to_transfer: u64,
}

/// Whether files that are only at the destination are deleted.
#[derive(Debug, Clone, Copy, PartialEq, Eq, Structural)]
pub enum DeleteMode {
    /// They are kept.
    Keep,
    /// They are deleted once everything else is committed.
    DeleteAfter,
}

/// How two local directories are synchronized.
#[derive(Debug, Clone, Copy, PartialEq, Eq)]
pub struct DirectorySyncOptions {
    /// How files are cut into chunks.
    pub mode: ChunkMode,
    /// Sizes of the chunks.
    pub params: ChunkParams,
    /// What becomes of files that are only at the destination.
    pub delete_mode: DeleteMode,
    /// Only report what would be done.
    pub dry_run: bool,
    /// Size of the buffer that files are read with.
    pub read_buffer_size: u64,
}

/// What kind of sync is asked for.
#[derive(Debug, Clone, Copy, PartialEq, Eq)]
pub enum SyncRoute {
    /// From a local directory to a server.
    Upload { dry_run: bool, delete_after: bool },
    /// From a server to a local directory.
    Download { dry_run: bool, delete_after: bool },
    /// Between local directories.
    Local(DirectorySyncOptions),
}

/// Size of the chunks that files are cut into without content-defined
/// chunking.
pub const SYNC_FIXED_CHUNK: u64 = 1048576;

/// Size of the buffer that files are read with.
pub const SYNC_BUFFER_SIZE: u64 = 2097152;

/// How two local directories are synchronized.
pub open spec fn local_options(dry_run: bool, delete: bool, cdc: bool) -> DirectorySyncOptions {
    DirectorySyncOptions {
        mode: if cdc {
            ChunkMode::Cdc
        } else {
            ChunkMode::Fixed
        },
        params: if cdc {
            ChunkParams { min: 262144, target: 1048576, max: 4194304 }
        } else {
            ChunkParams { min: SYNC_FIXED_CHUNK, target: SYNC_FIXED_CHUNK, max: SYNC_FIXED_CHUNK }
        },
        delete_mode: if delete {
            DeleteMode::DeleteAfter
        } else {
            DeleteMode::Keep
        },
        dry_run,
        read_buffer_size: SYNC_BUFFER_SIZE,
    }
}

/// Decide what kind of sync is asked for. Of the two sides at most one may be
/// on a server. Either of the two flags asks for deletion.
pub fn sync_route(
    source: &str,
    destination: &str,
    dry_run: bool,
    delete_after: bool,
    delete: bool,
    cdc: bool,
) -> (r: Result<SyncRoute, ClientError>)
    ensures
        match (url::is_remote(source@), url::is_remote(destination@)) {
            (true, true) => r matches Err(e) && e@ == ClientFault::CrossServer,
            (false, true) => r == Ok::<SyncRoute, ClientError>(
                SyncRoute::Upload { dry_run, delete_after: delete_after || delete },
            ),
            (true, false) => r == Ok::<SyncRoute, ClientError>(
                SyncRoute::Download { dry_run, delete_after: delete_after || delete },
            ),
            (false, false) => r == Ok::<SyncRoute, ClientError>(
                SyncRoute::Local(local_options(dry_run, delete_after || delete, cdc)),
            ),
        },
{
    let delete_after: bool = delete_after || delete;
    let from_server: bool = text::starts_with(source, "velcrux://");
    let to_server: bool = text::starts_with(destination, "velcrux://");
    if from_server && to_server {
        return Err(ClientError::CrossServer);
    }
    if to_server {
        return Ok(SyncRoute::Upload { dry_run, delete_after });
    }
    if from_server {
        return Ok(SyncRoute::Download { dry_run, delete_after });
    }
    Ok(
        SyncRoute::Local(
            DirectorySyncOptions {
                mode: if cdc {
                    ChunkMode::Cdc
                } else {
                    ChunkMode::Fixed
                },
                params: if cdc {
                    ChunkParams { min: 262144, target: 1048576, max: 4194304 }
                } else {
                    ChunkParams {
                        min: SYNC_FIXED_CHUNK,
                        target: SYNC_FIXED_CHUNK,
                        max: SYNC_FIXED_CHUNK,
                    }
                },
                delete_mode: if delete_after {
                    DeleteMode::DeleteAfter
                } else {
                    DeleteMode::Keep
                },
                dry_run,
                read_buffer_size: SYNC_BUFFER_SIZE,
            },
        ),
    )
}

/// The directory of the chunk store that a sync between local directories
/// uses, if it uses one: the given one, or one below the destination.
pub fn sync_chunk_store(dedup: bool, given: &Option<String>, destination: &str) -> (r: Option<
    String,
>)
    ensures
        options::opt(r) == match (dedup, *given) {
            (false, _) => None,
            (true, Some(p)) => Some(p@),
            (true, None) => Some(text::joined_path(destination@, ".velcrux-chunks"@)),
        },
{
    if !dedup {
        return None;
    }
    match given {
        Some(p) => Some(p.clone()),
        None => Some(text::join_path(destination, ".velcrux-chunks")),
    }
}

/// The request for the manifest of a directory on the server. `upload` tells
/// the direction of the sync.
pub open spec fn sync_create(upload: bool, path: Seq<char>, key: Seq<char>) -> TransferCreateView {
    TransferCreateView {
        op: if upload {
            TransferOp::SyncUpload
        } else {
            TransferOp::SyncDownload
        },
        src_path: if upload {
            ""@
        } else {
            text::without_leading(path)
        },
        dst_path: if upload {
            text::without_leading(path)
        } else {
            ""@
        },
        idempotency_key: key,
        file_size: 0,
        file_hash: util::zero_hash(),
    }
}

/// The request for the manifest of a directory on the server.
pub fn sync_request(upload: bool, path: &str) -> (r: Message)
    ensures
        exists|key: Seq<char>| #[trigger]
            upload::is_key(key) && r@ == MessageView::TransferCreate(
                sync_create(upload, path@, key),
            ),
{
    let key: String = new_key();
    let ghost k = key@;
    let dir: String = text::trim_start(path);
    let create = if upload {
        TransferCreate {
            op: TransferOp::SyncUpload,
            src_path: "".to_owned(),
            dst_path: dir,
            idempotency_key: key,
            file_size: 0,
            file_hash: util::Hash::zero(),
        }
    } else {
        TransferCreate {
            op: TransferOp::SyncDownload,
            src_path: dir,
            dst_path: "".to_owned(),
            idempotency_key: key,
            file_size: 0,
            file_hash: util::Hash::zero(),
        }
    };
    assert(upload::is_key(k) && create@ == sync_create(upload, path@, k));
    Message::TransferCreate(create)
}

/// Take the answer to the request for a manifest; the manifest follows.
pub fn on_sync_created(frame: Frame<'_>) -> (r: Result<(), ClientError>)
    ensures
        match expected(contents(frame), message::TRANSFER_CREATED, "TRANSFER_CREATED", true) {
            Ok(_) => r is Ok,
            Err(f) => r matches Err(e) && e@ == f,
        },
{
    match expect(frame, message::TRANSFER_CREATED, "TRANSFER_CREATED", true) {
        Ok(_) => Ok(()),
        Err(e) => Err(e),
    }
}

/// The path on the server of a file of a directory.
pub open spec fn remote_path(dir: Seq<char>, rel_path: Seq<char>) -> Seq<char> {
    if dir.len() == 0 {
        rel_path
    } else {
        text::without_trailing(dir) + "/"@ + rel_path
    }
}

/// The path on the server of a file of a directory.
pub fn remote_file(dir: &str, rel_path: &str) -> (r: String)
    ensures
        r@ == remote_path(dir@, rel_path@),
{
    if text::chars_of(dir).len() == 0 {
        return rel_path.to_owned();
    }
    let mut out: String = text::trim_end(dir);
    text::push_str(&mut out, "/");
    text::push_str(&mut out, rel_path);
    out
}

/// The places of the first `n` actions that transfer.
pub open spec fn transfers(a: Seq<FileAction>, n: int) -> Seq<int>
    decreases n,
{
    if n <= 0 {
        Seq::empty()
    } else if a[n - 1].action.transfers() {
        transfers(a, n - 1).push(n - 1)
    } else {
        transfers(a, n - 1)
    }
}

/// The places of the first `n` actions that delete.
pub open spec fn deletions(a: Seq<FileAction>, n: int) -> Seq<int>
    decreases n,
{
    if n <= 0 {
        Seq::empty()
    } else if a[n - 1].action == FileActionType::Delete {
        deletions(a, n - 1).push(n - 1)
    } else {
        deletions(a, n - 1)
    }
}

/// Places as numbers.
pub open spec fn places(s: Seq<usize>) -> Seq<int> {
    s.map_values(|x: usize| x as int)
}

/// The places of the actions that are performed, in order: first the files
/// that are transferred, then those that are deleted, if any are.
pub open spec fn order(a: Seq<FileAction>, delete_after: bool) -> Seq<int> {
    transfers(a, a.len() as int) + if delete_after {
        deletions(a, a.len() as int)
    } else {
        Seq::empty()
    }
}

/// The places of the actions that are performed, in order: first the files
/// that are transferred, then those that are deleted, if any are.
pub fn schedule(actions: &Vec<FileAction>, delete_after: bool) -> (r: Vec<usize>)
    ensures
        places(r@) == order(actions@, delete_after),
{
    let mut out: Vec<usize> = Vec::new();
    let mut i: usize = 0;
    assert(places(out@) =~= Seq::empty());
    while i < actions.len()
        invariant
            i <= actions.len(),
            places(out@) == transfers(actions@, i as int),
        decreases actions.len() - i,
    {
        let sent: bool = match actions[i].action {
            FileActionType::Add => true,
            FileActionType::Modify => true,
            _ => false,
        };
        if sent {
            let ghost before = out@;
            out.push(i);
            assert(places(out@) =~= places(before).push(i as int));
        }
        i = i + 1;
    }
    let ghost first = transfers(actions@, actions@.len() as int);
    if !delete_after {
        assert(first + Seq::<int>::empty() =~= first);
        return out;
    }
    i = 0;
    assert(places(out@) =~= first + deletions(actions@, 0));
    while i < actions.len()
        invariant
            i <= actions.len(),
            places(out@) == first + deletions(actions@, i as int),
        decreases actions.len() - i,
    {
        if actions[i].action == FileActionType::Delete {
            let ghost before = out@;
            out.push(i);
            assert(places(out@) =~= places(before).push(i as int));
            assert(places(out@) =~= first + deletions(actions@, i + 1));
        }
        i = i + 1;
    }
    out
}

/// The places of the actions that a sync with a server performs, in order. A
/// dry run performs none: no file is transferred and none is deleted.
pub fn sync_work(actions: &Vec<FileAction>, delete_after: bool, dry_run: bool) -> (r: Vec<usize>)
    ensures
        dry_run ==> r@.len() == 0,
        !dry_run ==> places(r@) == order(actions@, delete_after),
{
    if dry_run {
        return Vec::new();
    }
    schedule(actions, delete_after)
}

/// Every file that is to be transferred is, once. Nothing is deleted unless
/// that is asked for; then every file that is to be deleted is, once, and only
/// behind all that are transferred.
pub proof fn law_schedule_complete(a: Seq<FileAction>, delete_after: bool, k: int)
    requires
        0 <= k < a.len(),
    ensures
        ({
            let s = order(a, delete_after);
            &&& s.no_duplicates()
            &&& s.contains(k) <==> a[k].action.transfers() || (delete_after && a[k].action
                == FileActionType::Delete)
            &&& forall|i: int|
                0 <= i < s.len() ==> 0 <= #[trigger] s[i] < a.len() && (a[s[i]].action.transfers()
                    || (delete_after && a[s[i]].action == FileActionType::Delete))
            &&& forall|i: int, j: int|
                0 <= i < j < s.len() && a[#[trigger] s[j]].action.transfers()
                    ==> a[#[trigger] s[i]].action.transfers()
        }),
{
    let n = a.len() as int;
    let s = order(a, delete_after);
    let t = transfers(a, n);
    let d = deletions(a, n);
    lemma_transfers(a, n);
    lemma_deletions(a, n);
    assert forall|i: int| 0 <= i < t.len() implies 0 <= #[trigger] t[i] < n
        && a[t[i]].action.transfers() by {
        assert(t.contains(t[i]));
    }
    assert forall|i: int| 0 <= i < d.len() implies 0 <= #[trigger] d[i] < n && a[d[i]].action
        == FileActionType::Delete by {
        assert(d.contains(d[i]));
    }
    assert(t.contains(k) ==> s.contains(k)) by {
        if t.contains(k) {
            assert(s[t.index_of(k)] == k);
        }
    }
    assert(delete_after && d.contains(k) ==> s.contains(k)) by {
        if delete_after && d.contains(k) {
            assert(s[t.len() + d.index_of(k)] == k);
        }
    }
    assert forall|i: int| 0 <= i < s.len() implies #[trigger] s[i] == if i < t.len() {
        t[i]
    } else {
        d[i - t.len()]
    } by {}
    assert(s.contains(k) ==> t.contains(k) || (delete_after && d.contains(k)));
}

proof fn lemma_transfers(a: Seq<FileAction>, n: int)
    requires
        0 <= n <= a.len(),
    ensures
        forall|k: int|
            #![trigger transfers(a, n).contains(k)]
            transfers(a, n).contains(k) <==> 0 <= k < n && a[k].action.transfers(),
        transfers(a, n).no_duplicates(),
    decreases n,
{
    if n > 0 {
        lemma_transfers(a, n - 1);
        let t = transfers(a, n - 1);
        assert(!t.contains(n - 1));
        assert forall|k: int|
            #![trigger transfers(a, n).contains(k)]
            transfers(a, n).contains(k) <==> 0 <= k < n && a[k].action.transfers() by {
            if a[n - 1].action.transfers() {
                assert(t.push(n - 1)[t.len() as int] == n - 1);
                if t.contains(k) {
                    let i = t.index_of(k);
                    assert(t.push(n - 1)[i] == k);
                }
                if t.push(n - 1).contains(k) {
                    let i = t.push(n - 1).index_of(k);
                    if i < t.len() {
                        assert(t[i] == k);
                    }
                }
                assert(t.contains(k) <==> 0 <= k < n - 1 && a[k].action.transfers());
            } else {
                assert(t.contains(k) <==> 0 <= k < n - 1 && a[k].action.transfers());
            }
        }
    }
}

proof fn lemma_deletions(a: Seq<FileAction>, n: int)
    requires
        0 <= n <= a.len(),
    ensures
        forall|k: int|
            #![trigger deletions(a, n).contains(k)]
            deletions(a, n).contains(k) <==> 0 <= k < n && a[k].action == FileActionType::Delete,
        deletions(a, n).no_duplicates(),
    decreases n,
{
    if n > 0 {
        lemma_deletions(a, n - 1);
        let t = deletions(a, n - 1);
        assert(!t.contains(n - 1));
        assert forall|k: int|
            #![trigger deletions(a, n).contains(k)]
            deletions(a, n).contains(k) <==> 0 <= k < n && a[k].action
                == FileActionType::Delete by {
            if a[n - 1].action == FileActionType::Delete {
                assert(t.push(n - 1)[t.len() as int] == n - 1);
                if t.contains(k) {
                    let i = t.index_of(k);
                    assert(t.push(n - 1)[i] == k);
                }
                if t.push(n - 1).contains(k) {
                    let i = t.push(n - 1).index_of(k);
                    if i < t.len() {
                        assert(t[i] == k);
                    }
                }
                assert(t.contains(k) <==> 0 <= k < n - 1 && a[k].action
                    == FileActionType::Delete);
            } else {
                assert(t.contains(k) <==> 0 <= k < n - 1 && a[k].action
                    == FileActionType::Delete);
            }
        }
    }
}

/// What was done so far.
#[derive(Debug, Clone, Copy, PartialEq, Eq, Structural)]
pub struct SyncTally {
    /// Files that were transferred.
    pub files_transferred: u64,
    /// Files that were committed.
    pub files_committed: u64,
    /// Files that were deleted.
    pub files_deleted: u64,
    /// Bytes that were sent or received.
    pub wire_bytes: u64,
}

impl SyncTally {
    /// Nothing was done.
    pub fn new() -> (r: Self)
        ensures
            r == (SyncTally {
                files_transferred: 0,
                files_committed: 0,
                files_deleted: 0,
                wire_bytes: 0,
            }),
    {
        SyncTally { files_transferred: 0, files_committed: 0, files_deleted: 0, wire_bytes: 0 }
    }

    /// A file was transferred and committed.
    pub fn transferred(self, size: u64) -> (r: Self)
        requires
            self.files_transferred < u64::MAX,
            self.files_committed < u64::MAX,
            self.wire_bytes + size <= u64::MAX,
        ensures
            r == (SyncTally {
                files_transferred: (self.files_transferred + 1) as u64,
                files_committed: (self.files_committed + 1) as u64,
                wire_bytes: (self.wire_bytes + size) as u64,
                ..self
            }),
    {
        SyncTally {
            files_transferred: self.files_transferred + 1,
            files_committed: self.files_committed + 1,
            files_deleted: self.files_deleted,
            wire_bytes: self.wire_bytes + size,
        }
    }

    /// A file was deleted.
    pub fn deleted(self) -> (r: Self)
        requires
            self.files_deleted < u64::MAX,
        ensures
            r == (SyncTally { files_deleted: (self.files_deleted + 1) as u64, ..self }),
    {
        SyncTally {
            files_transferred: self.files_transferred,
            files_committed: self.files_committed,
            files_deleted: self.files_deleted + 1,
            wire_bytes: self.wire_bytes,
        }
    }
}

} // verus!
