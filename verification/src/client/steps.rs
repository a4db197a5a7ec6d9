//! What the client asks for and does, told of what its functions give back.

use vstd::prelude::*;

use crate::client::download;
use crate::client::download::{Download, DownloadStage, DownloadStep, DownloadStepView};
use crate::client::options::{ClientOptions, FileClientConfig};
use crate::client::query;
use crate::client::resume;
use crate::client::sync;
use crate::client::sync::{FileAction, FileActionType, SyncRoute, SyncTally};
use crate::client::upload::{Upload, UploadStage};
use crate::client::url;
use crate::client::url::Target;
use crate::client::{ClientError, ClientFault};
use crate::foreign;
use crate::protocol::capabilities::{Capabilities, Capability};
use crate::protocol::message::{Message, MessageView, ResumeState, TransferOp};
use crate::state::ChunkBitmap;
use crate::transfer as chunks;
use crate::transfer::{Bloom, DeltaAnswer};
use crate::util;
use crate::util::TransferId;

verus! {

/// The user names a transfer by the text of its id. The server is asked about
/// that id, or is told to cancel it; nothing is sent for another text.
pub proof fn law_transfer_is_asked_for_by_text(
    id: TransferId,
    given: &str,
    stat: Result<Message, ClientError>,
    cancel: Result<Message, ClientError>,
    resumed: Result<TransferId, ClientError>,
)
    requires
        call_ensures(query::stat_request, (given,), stat),
        call_ensures(query::cancel_request, (given,), cancel),
        call_ensures(resume::transfer_id_of, (given,), resumed),
    ensures
        given@ == util::transfer_id_text(id@) ==> {
            &&& stat matches Ok(m) && (m@ matches MessageView::Stat(q) && q.transfer_id == id@)
            &&& cancel matches Ok(m) && (m@ matches MessageView::Cancel(q) && q.transfer_id == id@
                && q.reason_code == 5000)
            &&& resumed matches Ok(t) && t@ == id@
        },
        stat is Err <==> cancel is Err,
        stat is Err <==> resumed is Err,
        stat matches Err(e) ==> e@ == ClientFault::InvalidTransferId(given@),
        cancel matches Err(e) ==> e@ == ClientFault::InvalidTransferId(given@),
        resumed matches Err(e) ==> e@ == ClientFault::InvalidTransferId(given@),
        given@.len() != 26 ==> stat is Err,
{
    util::law_transfer_id_text_roundtrip(id);
}

/// An upload asks for its file, with its size and digest, and remembers them; a
/// download asks for no particular content.
pub proof fn law_what_is_asked_for(
    local: &str,
    path: &str,
    size: u64,
    hash: util::Hash,
    u: (Upload, Message),
    d: (Download, Message),
)
    requires
        call_ensures(Upload::start, (local, path, size, hash), u),
        call_ensures(Download::start, (path,), d),
    ensures
        u.1@ matches MessageView::TransferCreate(c) && c.op == TransferOp::Upload && c.src_path
            == local@ && c.file_size == size && c.file_hash == hash@ && c.idempotency_key
            == u.0@.idempotency_key && c.dst_path == crate::text::without_leading(path@),
        u.0@.stage == UploadStage::Created && u.0@.transfer_id is None,
        u.0@.file_size == size && u.0@.file_hash == hash@,
        d.1@ matches MessageView::TransferCreate(c) && c.op == TransferOp::Download
            && c.src_path.len() == 0 && c.file_size == 0 && c.file_hash.len() == 32 && c.dst_path
            == crate::text::without_leading(path@),
        d.0@.stage == DownloadStage::Created && d.0@.transfer_id is None,
{
    reveal_strlit("");
}

/// A download offers its filter if it has one; otherwise it moves what the plan
/// says.
pub proof fn law_filter_is_offered(
    d: &mut Download,
    bloom: Bloom,
    e: &mut Download,
    r: DownloadStep,
    s: DownloadStep,
)
    requires
        call_ensures(Download::on_looked, (d, Some(bloom)), r),
        call_ensures(Download::on_looked, (e, None), s),
    ensures
        final(d)@ == old(d)@.at(DownloadStage::Query),
        r@ matches DownloadStepView::Send(MessageView::InventoryHint(h)) && h.transfer_id
            == old(d)@.transfer_id->0 && h.filter_bits == bloom.filter_bits && h.num_hashes
            == bloom.num_hashes && h.bitset == foreign::bytes_content(bloom.bitset),
        final(e)@ == old(e)@.at(DownloadStage::Moving),
        s@ matches DownloadStepView::Move(MessageView::TransferBegin(b), n, staged) && b.transfer_id
            == old(e)@.transfer_id->0 && n == old(e)@.bytes_to_transfer && !staged,
{
}

/// A download tells which of the chunks it has, in answer to the question it was
/// asked.
pub proof fn law_download_answers(d: &mut Download, a: DeltaAnswer, rle: bytes::Bytes, r: Message)
    requires
        a.have@.len() <= u32::MAX,
        call_ensures(Download::on_located, (d, &a, rle), r),
    ensures
        final(d)@ == old(d)@.at(DownloadStage::Update),
        r@ matches MessageView::ChunkResponse(c) && c.transfer_id == old(d)@.transfer_id->0
            && c.query_seq == old(d)@.stage->query_seq && c.total_chunks == a.have@.len()
            && c.have_count == chunks::count_true(a.have@) && c.rle_bitmap
            == foreign::bytes_content(rle),
{
    chunks::staging::law_true_is_counted(a.have@, Seq::empty());
}

/// An upload asks about all its chunks, and skips those that the server has.
pub proof fn law_upload_asks_and_skips(
    u: &mut Upload,
    hashes: Vec<util::Hash>,
    q: Message,
    v: &mut Upload,
    have: Vec<bool>,
    b: ChunkBitmap,
    i: u64,
)
    requires
        call_ensures(Upload::on_digests, (u, hashes), q),
        call_ensures(Upload::on_unpacked, (v, &have), b),
    ensures
        final(u)@ == old(u)@.at(UploadStage::Response),
        q matches Message::ChunkQuery(m) && m.chunk_hashes == hashes && m.query_seq == 1 && Some(
            m.transfer_id@,
        ) == old(u)@.transfer_id,
        final(v)@ == old(v)@.at(UploadStage::Plan),
        b@.set.contains(i) ==> i < have@.len() && have@[i as int] && 65536 * i
            < old(v)@.file_size,
        65536 * i < old(v)@.file_size && i < have@.len() && have@[i as int] ==> b@.set.contains(i),
{
}

/// The user's choices on the command line win over the file, one by one; the
/// others are taken from the file.
pub proof fn law_each_option_is_merged(cli: ClientOptions, file: FileClientConfig, r: ClientOptions)
    requires
        call_ensures(crate::client::options::load_client_config, (cli, file), r),
    ensures
        cli.ca matches Some(s) ==> (r.ca matches Some(t) && t@ == s@),
        cli.cert matches Some(s) ==> (r.cert matches Some(t) && t@ == s@),
        cli.key matches Some(s) ==> (r.key matches Some(t) && t@ == s@),
        cli.sni matches Some(s) ==> (r.sni matches Some(t) && t@ == s@),
        cli.state_db matches Some(s) ==> (r.state_db matches Some(t) && t@ == s@),
        cli.chunk_store matches Some(s) ==> (r.chunk_store matches Some(t) && t@ == s@),
        cli.ca is None ==> (file.ca matches Some(s) ==> (r.ca matches Some(t) && t@ == s@)),
        cli.cert is None ==> (file.cert matches Some(s) ==> (r.cert matches Some(t) && t@ == s@)),
        cli.key is None ==> (file.key matches Some(s) ==> (r.key matches Some(t) && t@ == s@)),
        cli.sni is None ==> (file.sni matches Some(s) ==> (r.sni matches Some(t) && t@ == s@)),
        cli.state_db is None ==> (file.state_db matches Some(s) ==> (r.state_db matches Some(t)
            && t@ == s@)),
        cli.chunk_store is None ==> (file.chunk_store matches Some(s) ==> (
        r.chunk_store matches Some(t) && t@ == s@)),
        cli.ca is None && file.ca is None ==> r.ca is None,
        cli.cert is None && file.cert is None ==> r.cert is None,
        cli.key is None && file.key is None ==> r.key is None,
        cli.sni is None && file.sni is None ==> r.sni is None,
        cli.state_db is None && file.state_db is None ==> r.state_db is None,
        cli.chunk_store is None && file.chunk_store is None ==> r.chunk_store is None,
        r.json == (cli.json || file.json == Some(true)),
        r.dedup == (cli.dedup || file.dedup == Some(true)),
        cli.log_format@ != "text"@ ==> r.log_format@ == cli.log_format@,
        cli.log_format@ == "text"@ ==> (file.log_format matches Some(s) ==> r.log_format@ == s@),
        file.log_format is None ==> r.log_format@ == cli.log_format@,
{
    assert(r@.ca == crate::client::options::prefer(cli@.ca, crate::client::options::opt(file.ca)));
}

/// What a client can do: with a store of chunks it can also find chunks there.
pub proof fn law_client_capabilities(o: ClientOptions, c: Capabilities, p: bool)
    requires
        call_ensures(ClientOptions::capabilities, (&o,), c),
        call_ensures(ClientOptions::presents_certificate, (&o,), p),
    ensures
        c.contains(Capability::DedupChunkStore) <==> o.dedup || o.chunk_store is Some,
        c.contains(Capability::Blake3) && c.contains(Capability::FixedChunking) && c.contains(
            Capability::CdcChunking,
        ),
        c.intersection_fault() is None,
        !c.contains(Capability::Sha256) && !c.contains(Capability::InventoryBloom),
        p <==> o.cert is Some && o.key is Some,
{
}

/// Where chunks and state are kept: where the user says, else below the home
/// directory.
pub proof fn law_where_things_are_kept(
    o: ClientOptions,
    home: Option<String>,
    store: Option<String>,
    db: Option<String>,
)
    requires
        call_ensures(ClientOptions::chunk_store_dir, (&o, home), store),
        call_ensures(ClientOptions::state_db_path, (&o, home), db),
    ensures
        o.chunk_store matches Some(p) ==> (store matches Some(s) && s@ == p@),
        o.chunk_store is None && !o.dedup ==> store is None,
        o.chunk_store is None && o.dedup ==> (home matches Some(h) ==> (store matches Some(s)
            && h@.is_prefix_of(s@))),
        o.chunk_store is None && o.dedup ==> store is Some,
        o.state_db matches Some(p) ==> (db matches Some(s) && s@ == p@),
        o.state_db is None ==> (db is Some <==> home is Some),
        o.state_db is None ==> (home matches Some(h) ==> (db matches Some(s) && h@.is_prefix_of(
            s@,
        ))),
{
}

/// A transfer is resumed from the file that the user names, else from the one
/// that is recorded, else from the one that the server stages.
pub proof fn law_resumed_file(
    given: Option<String>,
    recorded: Option<String>,
    staging: &str,
    r: String,
)
    requires
        call_ensures(resume::local_file, (&given, recorded, staging), r),
    ensures
        given matches Some(p) ==> r@ == p@,
        given is None ==> (recorded matches Some(p) ==> r@ == p@),
        given is None && recorded is None ==> (resume::file_name(staging@) matches Some(n) ==> r@
            == n),
        given is None && recorded is None && resume::file_name(staging@) is None ==> r@
            == "download"@,
{
}

/// A transfer is resumed only with a file of the recorded size and digest, and
/// then skips the chunks that are there.
pub proof fn law_resumed_content(
    s: ResumeState,
    id: TransferId,
    n: u64,
    h: util::Hash,
    a: Result<(), ClientError>,
    b: Result<(Message, ChunkBitmap), ClientError>,
)
    requires
        call_ensures(resume::check_size, (&s, n), a),
        call_ensures(resume::check_hash, (&s, id, h), b),
    ensures
        a is Ok <==> n == s.file_size,
        a matches Err(e) ==> e@ == (ClientFault::SizeMismatch { local: n, remote: s.file_size }),
        b is Ok <==> h@ == s.file_hash@,
        b matches Ok((m, k)) ==> (m@ matches MessageView::TransferBegin(t) && t.transfer_id == id@)
            && k@.set == s.completed_chunks@.to_set() && k@.bytes_completed == s.bytes_completed,
        b matches Err(e) ==> e@ == ClientFault::HashMismatch,
{
}

/// A sync goes from here to a server, from a server to here, or stays here; it
/// does not go between two servers.
pub proof fn law_sync_goes_one_way(
    source: &str,
    destination: &str,
    dry_run: bool,
    delete_after: bool,
    delete: bool,
    cdc: bool,
    r: Result<SyncRoute, ClientError>,
)
    requires
        call_ensures(sync::sync_route, (source, destination, dry_run, delete_after, delete, cdc), r),
    ensures
        r is Err <==> url::is_remote(source@) && url::is_remote(destination@),
        r matches Ok(SyncRoute::Upload { dry_run: n, delete_after: d }) ==> !url::is_remote(
            source@,
        ) && n == dry_run && d == (delete_after || delete),
        r matches Ok(SyncRoute::Download { dry_run: n, delete_after: d }) ==> !url::is_remote(
            destination@,
        ) && n == dry_run && d == (delete_after || delete),
        r matches Ok(SyncRoute::Local(o)) <==> !url::is_remote(source@) && !url::is_remote(
            destination@,
        ),
        r matches Ok(SyncRoute::Local(o)) ==> o.dry_run == dry_run && (o.delete_mode
            == sync::DeleteMode::Keep <==> !delete_after && !delete),
{
}

/// A dry run does nothing; otherwise everything that is to be done is done.
pub proof fn law_dry_run_does_nothing(
    a: Vec<FileAction>,
    delete_after: bool,
    dry: Vec<usize>,
    wet: Vec<usize>,
    k: usize,
)
    requires
        call_ensures(sync::sync_work, (&a, delete_after, true), dry),
        call_ensures(sync::sync_work, (&a, delete_after, false), wet),
        k < a@.len(),
    ensures
        dry@.len() == 0,
        wet@.contains(k) <==> match a@[k as int].action {
            FileActionType::Add => true,
            FileActionType::Modify => true,
            FileActionType::Delete => delete_after,
            FileActionType::Unchanged => false,
        },
{
    crate::client::commands::law_what_is_synchronized(a@, delete_after, k as int);
    let p = sync::places(wet@);
    if wet@.contains(k) {
        let i = choose|i: int| 0 <= i < wet@.len() && wet@[i] == k;
        assert(p[i] == k as int);
        assert(sync::order(a@, delete_after).contains(k as int));
    }
    if sync::order(a@, delete_after).contains(k as int) {
        let i = choose|i: int| 0 <= i < p.len() && p[i] == k as int;
        assert(wet@[i] == k);
    }
}

/// Files that were transferred and files that were deleted are counted apart,
/// and so are the bytes.
pub proof fn law_files_are_counted(
    t: SyncTally,
    size: u64,
    a: SyncTally,
    b: SyncTally,
    zero: SyncTally,
)
    requires
        t.files_transferred < u64::MAX && t.files_committed < u64::MAX && t.files_deleted < u64::MAX,
        t.wire_bytes + size <= u64::MAX,
        call_ensures(SyncTally::transferred, (t, size), a),
        call_ensures(SyncTally::deleted, (t,), b),
        call_ensures(SyncTally::new, (), zero),
    ensures
        a.files_transferred == t.files_transferred + 1 && a.files_committed == t.files_committed
            + 1 && a.wire_bytes == t.wire_bytes + size && a.files_deleted == t.files_deleted,
        b.files_deleted == t.files_deleted + 1 && b.files_transferred == t.files_transferred
            && b.files_committed == t.files_committed && b.wire_bytes == t.wire_bytes,
        zero.files_transferred == 0 && zero.files_committed == 0 && zero.files_deleted == 0
            && zero.wire_bytes == 0,
{
}

/// The first address of the older kind is taken, else the first.
pub proof fn law_preferred_address(v4: Vec<bool>, r: Option<usize>, i: int)
    requires
        call_ensures(url::preferred, (&v4,), r),
        0 <= i < v4@.len(),
    ensures
        r is Some,
        v4@[i] ==> v4@[r->0 as int] && r->0 <= i,
        (forall|j: int| 0 <= j < v4@.len() ==> !(#[trigger] v4@[j])) ==> r == Some(0usize),
{
}

/// The name that the certificate of the server has to carry: what the user
/// gives, else the host.
pub proof fn law_server_name(given: Option<String>, t: Target, r: String)
    requires
        call_ensures(url::get_sni, (&given, &t), r),
    ensures
        given matches Some(s) ==> r@ == s@,
        given is None ==> r@ == t@.host,
{
}

/// A download is written next to its place until it is whole.
pub proof fn law_partial_file(local: &str, r: String)
    requires
        call_ensures(download::partial_name, (local,), r),
    ensures
        local@.is_prefix_of(r@),
        r@.len() > local@.len(),
        r@.skip(local@.len() as int) == ".velcrux-partial"@,
{
    reveal_strlit(".velcrux-partial");
    assert(r@.skip(local@.len() as int) =~= ".velcrux-partial"@);
}

} // verus!
