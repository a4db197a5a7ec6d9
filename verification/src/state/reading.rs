//! What is read back of what was kept.

use vstd::prelude::*;

use crate::error::ProtocolError;
use crate::protocol::indices;
use crate::state::bitmap;
use crate::state::keeping;
use crate::state::mock::MockStateStore;
use crate::state::sqlite;
use crate::state::sqlite::TransferRow;
use crate::state::{
    ChunkBitmap, CommitJournalEntry, CommitStatus, StateStore, StateStoreError, TransferRecord,
};
use crate::util::TransferId;

verus! {

/// A chunk that is marked is there, and the others are as before. It counts with
/// its bytes the first time only.
pub proof fn law_marked_chunk_is_there(
    b: &mut ChunkBitmap,
    index: u64,
    len: u64,
    r: bool,
    other: u64,
    c: bool,
    d: bool,
)
    requires
        call_ensures(ChunkBitmap::mark_complete, (b, index, len), r),
        call_ensures(ChunkBitmap::contains, (&*final(b), index), c),
        call_ensures(ChunkBitmap::contains, (&*final(b), other), d),
    ensures
        c,
        other != index ==> d == old(b)@.set.contains(other),
        r <==> !old(b)@.set.contains(index),
        old(b)@.set.contains(index) ==> final(b)@ == old(b)@,
        !old(b)@.set.contains(index) && old(b)@.bytes_completed + len <= u64::MAX
            ==> final(b)@.bytes_completed == old(b)@.bytes_completed + len,
{
}

/// What is missing is what is not there.
pub proof fn law_missing_chunks(
    b: ChunkBitmap,
    total: u64,
    n: u64,
    from: u64,
    f: Option<u64>,
    i: u64,
)
    requires
        b@.set.finite(),
        call_ensures(ChunkBitmap::missing_count, (&b, total), n),
        call_ensures(ChunkBitmap::first_missing_from, (&b, from), f),
    ensures
        n <= total,
        b@.set.len() == 0 ==> n == total,
        f matches Some(k) ==> from <= k && !b@.set.contains(k),
        from <= i && !b@.set.contains(i) ==> (f matches Some(k) ==> k <= i),
{
    if b@.set.len() == 0 {
        assert(b@.set =~= Set::empty());
        keeping::law_present_chunks_are_counted(Set::empty(), total, 0);
    }
}

/// A bitmap that is written out is read back, if it is not too large.
pub proof fn law_bitmap_is_read_back(
    b: ChunkBitmap,
    places: Vec<u64>,
    out: &mut Vec<u8>,
    max: u64,
    w: Result<(), ProtocolError>,
    buf: &[u8],
    n: u64,
    r: Result<ChunkBitmap, ProtocolError>,
)
    requires
        call_ensures(ChunkBitmap::indices, (&b,), places),
        call_ensures(ChunkBitmap::encode, (&b, out, max), w),
        old(out)@.len() == 0,
        buf@ == final(out)@,
        call_ensures(ChunkBitmap::decode, (buf, n), r),
    ensures
        w is Ok <==> b@.set.len() <= max && b@.set.len() <= 1_000_000,
        w is Ok ==> (r matches Ok(x) && x@.set == b@.set && x@.bytes_completed == n),
{
    if w is Ok {
        bitmap::law_bitmap_roundtrip(places@);
        assert(final(out)@ =~= indices::list_bytes(bitmap::ascending(b@.set)));
    }
}

/// A record is read back from the row that it was stored in, with its numbers.
pub proof fn law_row_is_read_back(r: TransferRecord, row: TransferRow, s: Option<TransferRecord>)
    requires
        call_ensures(sqlite::record_to_row, (&r,), row),
        call_ensures(sqlite::row_to_record, (row,), s),
        r@.transfer_id.len() == 16,
        r@.file_hash.len() == 32,
    ensures
        s matches Some(x) && x@.transfer_id == r@.transfer_id && x@.remote_path == r@.remote_path
            && x@.idempotency_key == r@.idempotency_key && x@.local_path == r@.local_path
            && x@.file_hash == r@.file_hash && x@.staging_relpath == r@.staging_relpath,
{
    assert(row@.role == sqlite::role_code(r@.role));
    assert(row@.direction == sqlite::direction_code(r@.direction));
    assert(row@.status == r@.status.text()@);
}

/// A transfer that is updated is read back as it was given; one that is deleted
/// is not there any more, and neither are its chunks.
pub proof fn law_update_is_read_back(
    m: &mut MockStateStore,
    r: TransferRecord,
    id: TransferId,
    w: Result<(), StateStoreError>,
    g: Result<TransferRecord, StateStoreError>,
)
    requires
        call_ensures(<MockStateStore as StateStore>::update_transfer, (m, &r), w),
        call_ensures(<MockStateStore as StateStore>::get_transfer, (&*final(m), id), g),
        id@ == r@.transfer_id,
    ensures
        w is Ok <==> old(m)@.transfers.dom().contains(id@),
        w is Ok ==> (g matches Ok(x) && x@ == r@),
        w is Err ==> g is Err && final(m)@ == old(m)@,
{
}

/// The chunks of a transfer are read back as they were written, as long as the
/// transfer is known.
pub proof fn law_chunks_are_read_back(
    m: &mut MockStateStore,
    id: TransferId,
    b: ChunkBitmap,
    w: Result<(), StateStoreError>,
    g: Result<ChunkBitmap, StateStoreError>,
)
    requires
        call_ensures(<MockStateStore as StateStore>::write_bitmap, (m, id, &b), w),
        call_ensures(<MockStateStore as StateStore>::read_bitmap, (&*final(m), id), g),
    ensures
        w is Ok <==> old(m)@.transfers.dom().contains(id@),
        w is Ok ==> (g matches Ok(x) && x@ == b@),
        final(m)@.transfers == old(m)@.transfers && final(m)@.journal == old(m)@.journal,
{
}

/// A transfer that is deleted is not there any more, and neither are its
/// chunks.
pub proof fn law_deleted_is_gone(
    m: &mut MockStateStore,
    id: TransferId,
    w: Result<(), StateStoreError>,
    g: Result<TransferRecord, StateStoreError>,
    c: Result<ChunkBitmap, StateStoreError>,
)
    requires
        call_ensures(<MockStateStore as StateStore>::delete_transfer, (m, id), w),
        call_ensures(<MockStateStore as StateStore>::get_transfer, (&*final(m), id), g),
        call_ensures(<MockStateStore as StateStore>::read_bitmap, (&*final(m), id), c),
    ensures
        w is Ok,
        g is Err && c is Err,
        forall|k: Seq<u8>|
            k != id@ ==> (#[trigger] final(m)@.transfers.dom().contains(k) <==> old(
                m,
            )@.transfers.dom().contains(k)),
{
}

/// An entry of the journal that is committed is the entry that was written, but
/// for its status.
pub proof fn law_journal_is_committed(
    m: &mut MockStateStore,
    e: CommitJournalEntry,
    w: Result<(), StateStoreError>,
    n: &mut MockStateStore,
    id: TransferId,
    c: Result<(), StateStoreError>,
)
    requires
        call_ensures(<MockStateStore as StateStore>::write_journal, (m, &e), w),
        *n == *final(m),
        id@ == e@.transfer_id,
        call_ensures(
            <MockStateStore as StateStore>::mark_journal_committed,
            (n, id, e.file_id),
            c,
        ),
    ensures
        w is Ok && c is Ok,
        ({
            let k = (id@, e@.file_id);
            let x = final(n)@.journal[k];
            &&& final(n)@.journal.dom().contains(k)
            &&& x.status == CommitStatus::Committed
            &&& x.transfer_id == e@.transfer_id && x.file_id == e@.file_id && x.remote_path
                == e@.remote_path && x.updated_ms == e@.updated_ms
        }),
        final(n)@.transfers == old(m)@.transfers && final(n)@.bitmaps == old(m)@.bitmaps,
{
}

} // verus!
