//! What is kept of transfers.

use vstd::prelude::*;

use crate::state::bitmap;
use crate::state::mock;
use crate::state::mock::{MockStateStoreView, UpsertView};
use crate::state::sqlite;
use crate::state::{
    CommitJournalEntryView, CommitStatus, Direction, JournalRecovery, Role, TransferRecordView,
    TransferStatus,
};

verus! {

/// A retry asks for the same transfer however far that has come: its id, its
/// key, its status, its progress and its times do not matter.
pub proof fn law_retry_ignores_progress(r: TransferRecordView, q: TransferRecordView)
    ensures
        r.same_request(
            TransferRecordView {
                role: r.role,
                direction: r.direction,
                remote_path: r.remote_path,
                local_path: r.local_path,
                file_size: r.file_size,
                file_hash: r.file_hash,
                ..q
            },
        ),
        r.same_request(q) ==> q.same_request(r),
{
}

/// A retry asks for another transfer if it is about another file, another
/// content, another direction or another side.
pub proof fn law_retry_of_something_else(r: TransferRecordView, q: TransferRecordView)
    requires
        r.role != q.role || r.direction != q.direction || r.remote_path != q.remote_path
            || r.local_path != q.local_path || r.file_size != q.file_size || r.file_hash
            != q.file_hash,
    ensures
        !r.same_request(q),
{
}

/// A transfer is recorded exactly if its key is new for its side. It is then
/// found by its id and by its key, and everything else is as it was.
pub proof fn law_new_key_is_recorded(
    s: MockStateStoreView,
    r: TransferRecordView,
    id: Seq<u8>,
    role: Role,
    key: Seq<char>,
)
    ensures
        s.upserted(r).1 is Inserted <==> !s.idem.dom().contains((r.role, r.idempotency_key)),
        s.upserted(r).1 !is Inserted ==> s.upserted(r).0 == s,
        s.upserted(r).1 is Inserted ==> {
            let t = s.upserted(r).0;
            &&& t.transfers.dom().contains(r.transfer_id) && t.transfers[r.transfer_id] == r
            &&& t.by_idempotency(r.role, r.idempotency_key) == Some(r)
            &&& id != r.transfer_id ==> t.transfers.dom().contains(id) == s.transfers.dom().contains(
                id,
            ) && t.transfers[id] == s.transfers[id]
            &&& (role, key) != (r.role, r.idempotency_key) ==> t.idem.dom().contains((role, key))
                == s.idem.dom().contains((role, key)) && t.idem[(role, key)] == s.idem[(role, key)]
            &&& t.bitmaps == s.bitmaps
            &&& t.journal == s.journal
        },
{
}

/// A key that is there already is answered with its transfer if the retry asks
/// for the same, and refused if not.
pub proof fn law_known_key_is_answered(s: MockStateStoreView, r: TransferRecordView)
    requires
        s.by_idempotency(r.role, r.idempotency_key) is Some,
    ensures
        ({
            let e = s.by_idempotency(r.role, r.idempotency_key)->0;
            &&& e.same_request(r) ==> s.upserted(r).1 == UpsertView::Reused(e)
            &&& !e.same_request(r) ==> s.upserted(r).1 is Conflict
        }),
{
}

/// A record that is put in replaces the one with its id, and no other.
pub proof fn law_record_is_replaced(s: MockStateStoreView, r: TransferRecordView, id: Seq<u8>)
    ensures
        ({
            let t = s.with_record(r);
            &&& t.transfers.dom().contains(r.transfer_id) && t.transfers[r.transfer_id] == r
            &&& id != r.transfer_id ==> t.transfers.dom().contains(id) == s.transfers.dom().contains(
                id,
            ) && t.transfers[id] == s.transfers[id]
            &&& t.bitmaps == s.bitmaps
            &&& t.journal == s.journal
        }),
{
}

/// An interruption makes the active transfers resumable, at its time, and
/// changes nothing else of anything.
pub proof fn law_interruption_keeps_everything_else(s: MockStateStoreView, now_ms: u64, id: Seq<u8>)
    requires
        s.transfers.dom().contains(id),
    ensures
        ({
            let t = s.interrupted(now_ms);
            let before = s.transfers[id];
            let after = t.transfers[id];
            &&& t.transfers.dom().contains(id)
            &&& before.status == TransferStatus::Active ==> after == (TransferRecordView {
                status: TransferStatus::Resumable,
                updated_ms: now_ms,
                ..before
            })
            &&& before.status != TransferStatus::Active ==> after == before
            &&& t.idem == s.idem
            &&& t.bitmaps == s.bitmaps
            &&& t.journal == s.journal
        }),
{
}

/// A transfer is listed under a prefix of its path, for its own side.
pub proof fn law_listed_by_prefix(r: TransferRecordView, role: Role, prefix: Seq<char>)
    ensures
        mock::lies_below(r, role, prefix) <==> r.role == role && exists|rest: Seq<char>|
            r.remote_path == #[trigger] (prefix + rest),
        r.role == role ==> mock::lies_below(r, role, r.remote_path) && mock::lies_below(
            r,
            role,
            Seq::empty(),
        ),
{
    if prefix.is_prefix_of(r.remote_path) {
        let rest = r.remote_path.skip(prefix.len() as int);
        assert(r.remote_path =~= prefix + rest);
    }
    if exists|rest: Seq<char>| r.remote_path == #[trigger] (prefix + rest) {
        let rest = choose|rest: Seq<char>| r.remote_path == #[trigger] (prefix + rest);
        assert(prefix =~= r.remote_path.subrange(0, prefix.len() as int));
    }
    assert(r.remote_path =~= r.remote_path.subrange(0, r.remote_path.len() as int));
    assert(Seq::<char>::empty() =~= r.remote_path.subrange(0, 0));
}

/// The first of the transfers that are listed is the oldest, the last the
/// youngest.
pub proof fn law_listed_oldest_first(s: Seq<TransferRecordView>, i: int)
    requires
        mock::oldest_first(s),
        0 <= i < s.len(),
    ensures
        s[0].created_ms <= s[i].created_ms <= s.last().created_ms,
{
}

/// What is pending in the commit journal is every row that is not committed,
/// once.
pub proof fn law_pending_is_not_committed(
    p: Seq<CommitJournalEntryView>,
    m: Map<(Seq<u8>, u64), CommitJournalEntryView>,
    k: (Seq<u8>, u64),
)
    requires
        mock::lists_pending(p, m),
        m.dom().contains(k),
    ensures
        m[k].status == CommitStatus::Pending || m[k].status == CommitStatus::Renamed
            ==> p.contains(m[k]),
        forall|i: int|
            0 <= i < p.len() ==> (#[trigger] p[i]).status != CommitStatus::Committed
                && m.dom().contains((p[i].transfer_id, p[i].file_id)) && m[(
            p[i].transfer_id,
            p[i].file_id,
        )] == p[i],
        forall|i: int, j: int|
            0 <= i < j < p.len() ==> p[i].transfer_id != p[j].transfer_id || p[i].file_id
                != p[j].file_id,
{
}

/// After a restart a file that was renamed is finalized, and one that was not
/// is left to a resume; a committed one needs nothing.
pub proof fn law_recovery_follows_rename(a: JournalRecovery, e: CommitJournalEntryView)
    requires
        a.is_for(e),
    ensures
        a is Finalize <==> e.status == CommitStatus::Renamed,
        a is LeavePending <==> e.status == CommitStatus::Pending,
        match a {
            JournalRecovery::Finalize { transfer_id, file_id } => transfer_id@ == e.transfer_id
                && file_id == e.file_id,
            JournalRecovery::LeavePending { transfer_id, file_id } => transfer_id@
                == e.transfer_id && file_id == e.file_id,
        },
{
}

/// Each column of a stored record holds what it is named for; numbers are
/// stored with their bits.
pub proof fn law_columns_hold_fields(r: TransferRecordView)
    ensures
        ({
            let row = sqlite::stored(r);
            &&& row.transfer_id == r.transfer_id
            &&& row.idempotency_key == r.idempotency_key
            &&& row.remote_path == r.remote_path
            &&& row.local_path == r.local_path
            &&& row.file_hash == r.file_hash
            &&& row.staging_relpath == r.staging_relpath
            &&& row.file_size as u64 == r.file_size
            &&& row.verified_up_to as u64 == r.verified_up_to
            &&& row.last_checkpoint_ms as u64 == r.last_checkpoint_ms
            &&& row.bytes_completed as u64 == r.bytes_completed
            &&& row.created_ms as u64 == r.created_ms
            &&& row.updated_ms as u64 == r.updated_ms
            &&& row.role == if r.role == Role::Client {
                1i32
            } else {
                2
            }
            &&& row.direction == if r.direction == Direction::Upload {
                1i32
            } else {
                2
            }
            &&& r.status == TransferStatus::Active ==> row.status == "active"@
            &&& r.status == TransferStatus::Cancelled ==> row.status == "cancelled"@
            &&& r.status == TransferStatus::Committed ==> row.status == "committed"@
            &&& r.status == TransferStatus::Resumable ==> row.status == "resumable"@
        }),
{
    assert(forall|x: u64| #[trigger] ((x as i64) as u64) == x) by (bit_vector);
}

/// The names of what a transfer and a commit have come to.
pub proof fn law_names_of_states(t: TransferStatus, d: Direction, c: CommitStatus)
    ensures
        t.text() == match t {
            TransferStatus::Active => "active",
            TransferStatus::Resumable => "resumable",
            TransferStatus::Committed => "committed",
            TransferStatus::Cancelled => "cancelled",
        },
        d.text() == match d {
            Direction::Upload => "upload",
            Direction::Download => "download",
        },
        c.text() == match c {
            CommitStatus::Pending => "pending",
            CommitStatus::Renamed => "renamed",
            CommitStatus::Committed => "committed",
        },
{
}

/// Each chunk that is there counts once, if it is one of the file.
pub proof fn law_present_chunks_are_counted(set: Set<u64>, n: u64, i: u64)
    requires
        set.finite(),
    ensures
        bitmap::count_below(Set::empty(), n) == 0,
        i < n && !set.contains(i) ==> bitmap::count_below(set.insert(i), n) == bitmap::count_below(
            set,
            n,
        ) + 1,
        i >= n || set.contains(i) ==> bitmap::count_below(set.insert(i), n) == bitmap::count_below(
            set,
            n,
        ),
{
    let below = |x: u64| x < n;
    assert(Set::<u64>::empty().filter(below) =~= Set::<u64>::empty());
    if i < n {
        assert(set.insert(i).filter(below) =~= set.filter(below).insert(i));
    } else {
        assert(set.insert(i).filter(below) =~= set.filter(below));
    }
}

} // verus!
