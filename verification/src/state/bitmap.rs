//! Bounded-memory chunk completion bitmap.
//!
//! The set of completed chunk indices is sparse: memory is proportional to
//! the number of completed chunks, not to the file. It is stored and sent as
//! the sorted list of those indices, with the length in front, everything a
//! varint.

use std::collections::BTreeSet;

use vstd::prelude::*;

use crate::error::ProtocolError;
use crate::protocol::indices;
use crate::protocol::indices::ListFaults;

pub use crate::protocol::indices::MAX_WIRE_CHUNKS;

verus! {

broadcast use {vstd::std_specs::btree::group_btree_axioms, vstd::laws_cmp::group_laws_cmp};

/// Sparse set of completed chunk indices.
#[derive(Debug, PartialEq, Eq)]
pub struct ChunkBitmap {
    set: BTreeSet<u64>,
    bytes_completed: u64,
}

/// Contents of a chunk bitmap.
#[verifier::ext_equal]
pub struct ChunkBitmapView {
    /// The completed indices.
    pub set: Set<u64>,
    /// The bytes that they stand for.
    pub bytes_completed: u64,
}

impl View for ChunkBitmap {
    type V = ChunkBitmapView;

    closed spec fn view(&self) -> ChunkBitmapView {
        ChunkBitmapView { set: self.set@, bytes_completed: self.bytes_completed }
    }
}

/// The indices of a set in ascending order.
pub open spec fn ascending(set: Set<u64>) -> Seq<u64> {
    choose|s: Seq<u64>| #[trigger] indices::increasing(s) && s.to_set() == set
}

/// How many indices of a set are below `n`.
pub open spec fn count_below(set: Set<u64>, n: u64) -> nat {
    set.filter(|i: u64| i < n).len()
}

/// The errors of an encoded bitmap.
pub open spec fn bitmap_faults() -> ListFaults {
    ListFaults {
        truncated: "truncated chunk index",
        non_monotonic: "non-monotonic chunk index list",
    }
}

proof fn lemma_increasing_unique(s: Seq<u64>, t: Seq<u64>)
    requires
        indices::increasing(s),
        indices::increasing(t),
        s.to_set() == t.to_set(),
    ensures
        s == t,
    decreases s.len(),
{
    if s.len() == 0 {
        if t.len() > 0 {
            assert(t.to_set().contains(t[0]));
            assert(s.to_set().contains(t[0]));
        }
        assert(s =~= t);
    } else {
        assert(s.to_set().contains(s.last()));
        assert(t.to_set().contains(s.last()));
        assert(t.to_set().contains(t.last()));
        assert(s.to_set().contains(t.last()));
        let a = s.drop_last();
        let b = t.drop_last();
        assert forall|x: u64| a.to_set().contains(x) implies b.to_set().contains(x) by {
            let i = choose|i: int| 0 <= i < a.len() && a[i] == x;
            assert(s[i] == x);
            assert(s.to_set().contains(x));
            let j = choose|j: int| 0 <= j < t.len() && t[j] == x;
            assert(b[j] == x);
        }
        assert forall|x: u64| b.to_set().contains(x) implies a.to_set().contains(x) by {
            let i = choose|i: int| 0 <= i < b.len() && b[i] == x;
            assert(t[i] == x);
            assert(t.to_set().contains(x));
            let j = choose|j: int| 0 <= j < s.len() && s[j] == x;
            assert(a[j] == x);
        }
        assert(a.to_set() =~= b.to_set());
        lemma_increasing_unique(a, b);
        assert(s =~= a.push(s.last()));
        assert(t =~= b.push(t.last()));
    }
}

/// An increasing list is the ascending order of its elements.
pub proof fn lemma_ascending(s: Seq<u64>)
    requires
        indices::increasing(s),
    ensures
        ascending(s.to_set()) == s,
        s.to_set().len() == s.len(),
{
    lemma_increasing_unique(ascending(s.to_set()), s);
    s.unique_seq_to_set();
}

/// Where an index belongs in an increasing list.
spec fn place_in(s: Seq<u64>, x: u64) -> nat
    decreases s.len(),
{
    if s.len() == 0 || s.last() < x {
        s.len()
    } else {
        place_in(s.drop_last(), x)
    }
}

proof fn lemma_place_in(s: Seq<u64>, x: u64)
    requires
        indices::increasing(s),
        !s.contains(x),
    ensures
        place_in(s, x) <= s.len(),
        forall|i: int| 0 <= i < place_in(s, x) ==> s[i] < x,
        forall|i: int| place_in(s, x) <= i < s.len() ==> x < s[i],
    decreases s.len(),
{
    if s.len() > 0 && !(s.last() < x) {
        let t = s.drop_last();
        assert(s.contains(s.last()));
        assert(!t.contains(x)) by {
            if t.contains(x) {
                assert(s[t.index_of(x)] == x);
            }
        }
        lemma_place_in(t, x);
        assert forall|i: int| 0 <= i < place_in(s, x) implies s[i] < x by {
            assert(t[i] == s[i]);
        }
        assert forall|i: int| place_in(s, x) <= i < s.len() implies x < s[i] by {
            if i < t.len() {
                assert(t[i] == s[i]);
            }
        }
    }
}

/// The indices of a finite set can be listed in ascending order.
pub proof fn lemma_ascending_lists(set: Set<u64>)
    requires
        set.finite(),
    ensures
        indices::increasing(ascending(set)),
        ascending(set).to_set() == set,
    decreases set.len(),
{
    if set.len() == 0 {
        let s = Seq::<u64>::empty();
        set.lemma_len0_is_empty();
        assert(s.to_set() =~= set);
        assert(indices::increasing(s));
    } else {
        let x = set.choose();
        let rest = set.remove(x);
        lemma_ascending_lists(rest);
        let t = ascending(rest);
        assert(!t.contains(x)) by {
            assert(!t.to_set().contains(x));
        }
        lemma_place_in(t, x);
        let p = place_in(t, x) as int;
        let s = t.take(p) + seq![x] + t.skip(p);
        assert(s.to_set() =~= set) by {
            assert forall|y: u64| set.contains(y) implies s.contains(y) by {
                if y == x {
                    assert(s[p] == x);
                } else {
                    assert(t.to_set().contains(y));
                    let i = t.index_of(y);
                    assert(s[if i < p { i } else { i + 1 }] == y);
                }
            }
            assert forall|y: u64| s.contains(y) implies set.contains(y) by {
                let i = s.index_of(y);
                if i != p {
                    let j = if i < p { i } else { i - 1 };
                    assert(t[j] == y);
                    assert(t.to_set().contains(y));
                }
            }
        }
        assert(indices::increasing(s));
    }
}

impl Clone for ChunkBitmap {
    fn clone(&self) -> (r: Self)
        ensures
            r@ == self@,
    {
        ChunkBitmap { set: self.set.clone(), bytes_completed: self.bytes_completed }
    }
}

impl Default for ChunkBitmap {
    fn default() -> (r: Self)
        ensures
            r@ == (ChunkBitmapView { set: Set::empty(), bytes_completed: 0 }),
    {
        ChunkBitmap::new()
    }
}

impl ChunkBitmap {
    /// An empty bitmap.
    pub fn new() -> (r: Self)
        ensures
            r@ == (ChunkBitmapView { set: Set::empty(), bytes_completed: 0 }),
    {
        ChunkBitmap { set: BTreeSet::new(), bytes_completed: 0 }
    }

    /// A bitmap with the given indices.
    pub fn from_sorted_indices(indices: &[u64], bytes_completed: u64) -> (r: Self)
        ensures
            r@ == (ChunkBitmapView { set: indices@.to_set(), bytes_completed }),
    {
        let mut set: BTreeSet<u64> = BTreeSet::new();
        let mut i: usize = 0;
        assert(indices@.take(0).to_set() =~= Set::empty());
        while i < indices.len()
            invariant
                i <= indices.len(),
                set@ == indices@.take(i as int).to_set(),
            decreases indices.len() - i,
        {
            set.insert(indices[i]);
            proof {
                let t = indices@.take(i as int);
                let u = indices@.take(i + 1);
                assert(u =~= t.push(indices@[i as int]));
                assert forall|x: u64| u.to_set().contains(x) implies t.to_set().insert(
                    indices@[i as int],
                ).contains(x) by {
                    let k = choose|k: int| 0 <= k < u.len() && u[k] == x;
                    if k < i {
                        assert(t[k] == x);
                    }
                }
                assert forall|x: u64| t.to_set().insert(indices@[i as int]).contains(
                    x,
                ) implies u.to_set().contains(x) by {
                    if x == indices@[i as int] {
                        assert(u[i as int] == x);
                    } else {
                        let k = choose|k: int| 0 <= k < t.len() && t[k] == x;
                        assert(u[k] == x);
                    }
                }
                assert(u.to_set() =~= t.to_set().insert(indices@[i as int]));
            }
            i = i + 1;
        }
        assert(indices@.take(i as int) =~= indices@);
        ChunkBitmap { set, bytes_completed }
    }

    /// Mark a chunk complete. Returns true if it is new; a chunk that was
    /// complete already is not counted again.
    pub fn mark_complete(&mut self, index: u64, chunk_len: u64) -> (r: bool)
        ensures
            r == !old(self)@.set.contains(index),
            final(self)@ == if r {
                ChunkBitmapView {
                    set: old(self)@.set.insert(index),
                    bytes_completed: old(self)@.bytes_completed.saturating_add(chunk_len),
                }
            } else {
                old(self)@
            },
    {
        if self.set.insert(index) {
            self.bytes_completed = self.bytes_completed.saturating_add(chunk_len);
            true
        } else {
            assert(self.set@ =~= old(self).set@);
            false
        }
    }

    /// True if `index` is complete.
    pub fn contains(&self, index: u64) -> (r: bool)
        ensures
            r == self@.set.contains(index),
    {
        self.set.contains(&index)
    }

    /// Number of completed chunks.
    pub fn len(&self) -> (r: usize)
        ensures
            r == self@.set.len(),
    {
        self.set.len()
    }

    /// True if no chunk is complete.
    pub fn is_empty(&self) -> (r: bool)
        ensures
            r == (self@.set == Set::<u64>::empty()),
    {
        let r: bool = self.set.is_empty();
        assert(r ==> self.set@ =~= Set::empty());
        r
    }

    /// Bytes completed.
    pub fn bytes_completed(&self) -> (r: u64)
        ensures
            r == self@.bytes_completed,
    {
        self.bytes_completed
    }

    /// All completed indices, in ascending order.
    pub fn indices(&self) -> (r: Vec<u64>)
        ensures
            r@ == ascending(self@.set),
            indices::increasing(r@),
            r@.to_set() == self@.set,
            self@.set.finite(),
            self@.set.len() == r@.len(),
    {
        let mut out: Vec<u64> = Vec::new();
        for x in it: self.set.iter()
            invariant
                out@.len() == it.index(),
                forall|i: int| 0 <= i < out@.len() ==> out@[i] == *it.seq()[i],
        {
            out.push(*x);
        }
        proof {
            let s = vstd::std_specs::iter::IteratorSpec::remaining(
                &vstd::std_specs::btree::spec_btree_keys_iter(&self.set),
            );
            assert(out@ =~= s.unref());
            assert forall|i: int, j: int| 0 <= i < j < out@.len() implies out@[i] < out@[j] by {
                assert(vstd::std_specs::cmp::OrdSpec::cmp_spec(&s[i], &s[j]) is Less);
            }
            lemma_ascending(out@);
        }
        out
    }

    /// Number of missing chunks in `0..total_chunks`.
    pub fn missing_count(&self, total_chunks: u64) -> (r: u64)
        ensures
            r == total_chunks - count_below(self@.set, total_chunks),
    {
        let v = self.indices();
        let mut n: usize = 0;
        while n < v.len() && v[n] < total_chunks
            invariant
                n <= v.len(),
                indices::increasing(v@),
                forall|i: int| 0 <= i < n ==> v@[i] < total_chunks,
            decreases v.len() - n,
        {
            n = n + 1;
        }
        proof {
            lemma_count_below(v@, n as int, total_chunks);
            if n > 0 {
                lemma_increasing_growth(v@.take(n as int));
            }
        }
        total_chunks - n as u64
    }

    /// First chunk index that is not complete, starting at `from`; none if
    /// every index from there on is complete.
    pub fn first_missing_from(&self, from: u64) -> (r: Option<u64>)
        ensures
            match r {
                Some(i) => from <= i && !self@.set.contains(i) && forall|j: u64|
                    from <= j < i ==> self@.set.contains(j),
                None => forall|j: u64| from <= j ==> self@.set.contains(j),
            },
    {
        let mut i: u64 = from;
        while self.set.contains(&i)
            invariant
                from <= i,
                forall|j: u64| from <= j < i ==> self@.set.contains(j),
            decreases u64::MAX - i,
        {
            if i == u64::MAX {
                return None;
            }
            i = i + 1;
        }
        Some(i)
    }

    /// Append the encoded bitmap. A bitmap with too many indices is refused,
    /// and nothing is written.
    pub fn encode(&self, out: &mut Vec<u8>, max_entries: u64) -> (r: Result<(), ProtocolError>)
        ensures
            if self@.set.len() > max_entries || self@.set.len() > MAX_WIRE_CHUNKS {
                &&& r matches Err(e) && e == ProtocolError::Malformed("too many completed chunks")
                &&& final(out)@ == old(out)@
            } else {
                &&& r is Ok
                &&& final(out)@ == old(out)@ + indices::list_bytes(ascending(self@.set))
            },
    {
        let n: u64 = self.set.len() as u64;
        if n > max_entries || n > MAX_WIRE_CHUNKS {
            return Err(ProtocolError::Malformed("too many completed chunks"));
        }
        let v = self.indices();
        indices::push_list(out, v.as_slice());
        Ok(())
    }

    /// Decode a bitmap.
    pub fn decode(buf: &[u8], bytes_completed: u64) -> (r: Result<Self, ProtocolError>)
        ensures
            match indices::list_at(buf@, 0, bitmap_faults()) {
                Ok((s, _)) => r matches Ok(b) && b@ == (ChunkBitmapView {
                    set: s.to_set(),
                    bytes_completed,
                }),
                Err(e) => r matches Err(d) && d == e,
            },
    {
        match indices::read_list(
            buf,
            0,
            ListFaults {
                truncated: "truncated chunk index",
                non_monotonic: "non-monotonic chunk index list",
            },
        ) {
            Ok((v, _)) => Ok(ChunkBitmap::from_sorted_indices(v.as_slice(), bytes_completed)),
            Err(e) => Err(e),
        }
    }
}

proof fn lemma_count_below(v: Seq<u64>, n: int, total: u64)
    requires
        indices::increasing(v),
        0 <= n <= v.len(),
        forall|i: int| 0 <= i < n ==> v[i] < total,
        n < v.len() ==> v[n] >= total,
    ensures
        count_below(v.to_set(), total) == n,
{
    let t = v.take(n);
    let f = v.to_set().filter(|i: u64| i < total);
    assert forall|x: u64| f.contains(x) implies t.to_set().contains(x) by {
        let k = choose|k: int| 0 <= k < v.len() && v[k] == x;
        assert(k < n);
        assert(t[k] == x);
    }
    assert forall|x: u64| t.to_set().contains(x) implies f.contains(x) by {
        let k = choose|k: int| 0 <= k < t.len() && t[k] == x;
        assert(v[k] == x);
    }
    assert(f =~= t.to_set());
    lemma_ascending(t);
}

proof fn lemma_increasing_growth(s: Seq<u64>)
    requires
        indices::increasing(s),
        s.len() > 0,
    ensures
        s.last() >= s.len() - 1,
    decreases s.len(),
{
    if s.len() > 1 {
        lemma_increasing_growth(s.drop_last());
    }
}

/// Decoding an encoded bitmap gives it back.
pub proof fn law_bitmap_roundtrip(s: Seq<u64>)
    requires
        indices::increasing(s),
        s.len() <= MAX_WIRE_CHUNKS,
    ensures
        ascending(s.to_set()) == s,
        indices::list_at(indices::list_bytes(ascending(s.to_set())), 0, bitmap_faults()) == Ok::<
            (Seq<u64>, int),
            ProtocolError,
        >((s, indices::list_bytes(s).len() as int)),
{
    lemma_ascending(s);
    let b = indices::list_bytes(s);
    assert(b.skip(0) =~= b + Seq::<u8>::empty());
    indices::lemma_list_roundtrip(b, 0, s, bitmap_faults(), Seq::empty());
}

} // verus!
