//! Tables of rows with distinct keys.

use vstd::prelude::*;

verus! {

/// A row of a table.
pub trait Row: View + Sized {
    /// What a row is found by.
    type Key: View;

    /// The key of the row.
    spec fn key(&self) -> <Self::Key as View>::V;

    /// Whether the row has the given key.
    fn has_key(&self, k: &Self::Key) -> (r: bool)
        ensures
            r == (self.key() == k@),
    ;
}

/// The rows of a list, by their keys; of two with the same key, the later.
pub open spec fn by_key<R: Row>(s: Seq<R>) -> Map<<R::Key as View>::V, R::V>
    decreases s.len(),
{
    if s.len() == 0 {
        Map::empty()
    } else {
        by_key(s.drop_last()).insert(s.last().key(), s.last()@)
    }
}

/// No two rows have the same key.
pub open spec fn distinct_keys<R: Row>(s: Seq<R>) -> bool {
    forall|i: int, j: int| 0 <= i < j < s.len() ==> s[i].key() != s[j].key()
}

/// A list with distinct keys holds what the map holds.
pub proof fn lemma_by_key<R: Row>(s: Seq<R>)
    requires
        distinct_keys(s),
    ensures
        forall|k: <R::Key as View>::V| #[trigger]
            by_key(s).dom().contains(k) <==> exists|i: int| 0 <= i < s.len() && s[i].key() == k,
        forall|i: int| 0 <= i < s.len() ==> by_key(s)[(#[trigger] s[i]).key()] == s[i]@,
        forall|i: int| 0 <= i < s.len() ==> by_key(s).dom().contains((#[trigger] s[i]).key()),
    decreases s.len(),
{
    if s.len() > 0 {
        let t = s.drop_last();
        assert forall|i: int, j: int| 0 <= i < j < t.len() implies t[i].key() != t[j].key() by {
            assert(t[i] == s[i] && t[j] == s[j]);
        }
        lemma_by_key(t);
        assert forall|k: <R::Key as View>::V| #[trigger]
            by_key(s).dom().contains(k) <==> exists|i: int|
            0 <= i < s.len() && s[i].key() == k by {
            if exists|i: int| 0 <= i < s.len() && s[i].key() == k {
                let i = choose|i: int| 0 <= i < s.len() && s[i].key() == k;
                if i < t.len() {
                    assert(t[i].key() == k);
                    assert(by_key(t).dom().contains(k));
                }
            }
            if by_key(s).dom().contains(k) {
                if k == s.last().key() {
                    assert(s[s.len() - 1].key() == k);
                } else {
                    assert(by_key(t).dom().contains(k));
                    let i = choose|i: int| 0 <= i < t.len() && t[i].key() == k;
                    assert(s[i].key() == k);
                }
            }
        }
        assert forall|i: int| 0 <= i < s.len() implies by_key(s)[(#[trigger] s[i]).key()]
            == s[i]@ by {
            if i < t.len() {
                assert(t[i] == s[i]);
                assert(s[i].key() != s[s.len() - 1].key());
            }
        }
        assert forall|i: int| 0 <= i < s.len() implies by_key(s).dom().contains(
            (#[trigger] s[i]).key(),
        ) by {
            if i < t.len() {
                assert(t[i] == s[i]);
            }
        }
    }
}

/// A table.
pub struct Rows<R: Row> {
    rows: Vec<R>,
}

impl<R: Row> View for Rows<R> {
    type V = Map<<R::Key as View>::V, R::V>;

    closed spec fn view(&self) -> Self::V {
        by_key(self.rows@)
    }
}

impl<R: Row> Rows<R> {
    /// The rows in the order in which they are kept.
    pub closed spec fn list(self) -> Seq<R> {
        self.rows@
    }

    #[verifier::type_invariant]
    spec fn distinct(self) -> bool {
        distinct_keys(self.rows@)
    }

    /// An empty table.
    pub fn new() -> (r: Self)
        ensures
            r@ == Map::<<R::Key as View>::V, R::V>::empty(),
            r.list().len() == 0,
    {
        Rows { rows: Vec::new() }
    }

    /// The number of rows.
    pub fn len(&self) -> (r: usize)
        ensures
            r == self.list().len(),
            distinct_keys(self.list()),
            self@ == by_key(self.list()),
    {
        proof {
            use_type_invariant(self);
        }
        self.rows.len()
    }

    /// A row by its position.
    pub fn at(&self, i: usize) -> (r: &R)
        requires
            i < self.list().len(),
        ensures
            *r == self.list()[i as int],
    {
        &self.rows[i]
    }

    fn position(&self, k: &R::Key) -> (r: Option<usize>)
        ensures
            match r {
                Some(i) => i < self.rows@.len() && self.rows@[i as int].key() == k@,
                None => forall|j: int| 0 <= j < self.rows@.len() ==> self.rows@[j].key() != k@,
            },
    {
        let mut i: usize = 0;
        while i < self.rows.len()
            invariant
                i <= self.rows.len(),
                forall|j: int| 0 <= j < i ==> self.rows@[j].key() != k@,
            decreases self.rows.len() - i,
        {
            if self.rows[i].has_key(k) {
                return Some(i);
            }
            i = i + 1;
        }
        None
    }

    /// The row with the given key.
    pub fn get(&self, k: &R::Key) -> (r: Option<&R>)
        ensures
            r is Some <==> self@.dom().contains(k@),
            r matches Some(row) ==> row@ == self@[k@] && row.key() == k@,
    {
        proof {
            use_type_invariant(self);
            lemma_by_key(self.rows@);
        }
        match self.position(k) {
            Some(i) => {
                assert(self.rows@[i as int].key() == k@);
                Some(&self.rows[i])
            },
            None => None,
        }
    }

    /// Put a row into the table, in place of one with the same key.
    pub fn put(&mut self, k: &R::Key, row: R)
        requires
            row.key() == k@,
        ensures
            final(self)@ == old(self)@.insert(k@, row@),
    {
        proof {
            use_type_invariant(&*self);
            lemma_by_key(self.rows@);
        }
        let at = self.position(k);
        let mut rows: Vec<R> = Vec::new();
        std::mem::swap(&mut rows, &mut self.rows);
        let ghost s = rows@;
        match at {
            Some(i) => {
                rows.set(i, row);
                proof {
                    let t = s.update(i as int, row);
                    assert(distinct_keys(t));
                    lemma_by_key(t);
                    assert forall|x: <R::Key as View>::V| #[trigger]
                        by_key(t).dom().contains(x) <==> by_key(s).insert(
                            k@,
                            row@,
                        ).dom().contains(x) by {
                        if exists|j: int| 0 <= j < s.len() && s[j].key() == x {
                            let j = choose|j: int| 0 <= j < s.len() && s[j].key() == x;
                            assert(t[j].key() == x);
                        }
                        if exists|j: int| 0 <= j < t.len() && t[j].key() == x {
                            let j = choose|j: int| 0 <= j < t.len() && t[j].key() == x;
                            assert(s[j].key() == x);
                        }
                    }
                    assert forall|x: <R::Key as View>::V| #[trigger]
                        by_key(t).dom().contains(x) implies by_key(t)[x] == by_key(s).insert(
                        k@,
                        row@,
                    )[x] by {
                        let j = choose|j: int| 0 <= j < t.len() && t[j].key() == x;
                        assert(by_key(t)[t[j].key()] == t[j]@);
                        assert(by_key(s)[s[j].key()] == s[j]@);
                    }
                    assert(by_key(t) =~= by_key(s).insert(k@, row@));
                }
            },
            None => {
                rows.push(row);
                assert(rows@.drop_last() =~= s);
            },
        }
        self.rows = rows;
    }

    /// Replace a row by one with the same key.
    pub fn set_at(&mut self, i: usize, row: R)
        requires
            i < old(self).list().len(),
            row.key() == old(self).list()[i as int].key(),
        ensures
            final(self).list() == old(self).list().update(i as int, row),
    {
        proof {
            use_type_invariant(&*self);
        }
        let mut rows: Vec<R> = Vec::new();
        std::mem::swap(&mut rows, &mut self.rows);
        rows.set(i, row);
        self.rows = rows;
    }

    /// Take the row with the given key out of the table.
    pub fn remove(&mut self, k: &R::Key) -> (r: Option<R>)
        ensures
            r is Some <==> old(self)@.dom().contains(k@),
            r matches Some(row) ==> row@ == old(self)@[k@] && row.key() == k@,
            final(self)@ == old(self)@.remove(k@),
    {
        proof {
            use_type_invariant(&*self);
            lemma_by_key(self.rows@);
        }
        let at = self.position(k);
        match at {
            None => {
                assert(self@ =~= old(self)@.remove(k@));
                None
            },
            Some(i) => {
                let mut rows: Vec<R> = Vec::new();
                std::mem::swap(&mut rows, &mut self.rows);
                let ghost s = rows@;
                let row = rows.remove(i);
                proof {
                    lemma_removed(s, i as int);
                    assert(s[i as int].key() == k@);
                }
                self.rows = rows;
                Some(row)
            },
        }
    }
}

/// `r` lists, once each, what the map holds that satisfies `p`.
pub open spec fn lists<K, V>(
    r: Seq<V>,
    key: spec_fn(V) -> K,
    m: Map<K, V>,
    p: spec_fn(V) -> bool,
) -> bool {
    &&& forall|i: int, j: int| 0 <= i < j < r.len() ==> key(r[i]) != key(r[j])
    &&& forall|i: int|
        0 <= i < r.len() ==> {
            let v = #[trigger] r[i];
            m.dom().contains(key(v)) && m[key(v)] == v && p(v)
        }
    &&& forall|k: K| #[trigger] m.dom().contains(k) && p(m[k]) ==> r.contains(m[k])
}

/// The number of rows that satisfy `p` is the number of keys under which
/// there is one.
pub proof fn lemma_count<R: Row>(s: Seq<R>, p: spec_fn(R::V) -> bool)
    requires
        distinct_keys(s),
    ensures
        by_key(s).dom().filter(|k: <R::Key as View>::V| p(by_key(s)[k])).finite(),
        by_key(s).dom().filter(|k: <R::Key as View>::V| p(by_key(s)[k])).len() == s.filter(
            |r: R| p(r@),
        ).len(),
    decreases s.len(),
{
    let f = |r: R| p(r@);
    let m = by_key(s);
    let d = m.dom().filter(|k: <R::Key as View>::V| p(m[k]));
    reveal(Seq::filter);
    if s.len() == 0 {
        assert(d =~= Set::empty());
    } else {
        let t = s.drop_last();
        let n = by_key(t);
        let e = n.dom().filter(|k: <R::Key as View>::V| p(n[k]));
        assert forall|i: int, j: int| 0 <= i < j < t.len() implies t[i].key() != t[j].key() by {
            assert(t[i] == s[i] && t[j] == s[j]);
        }
        lemma_count(t, p);
        lemma_by_key(s);
        lemma_by_key(t);
        let k = s.last().key();
        assert(!n.dom().contains(k)) by {
            if n.dom().contains(k) {
                let i = choose|i: int| 0 <= i < t.len() && t[i].key() == k;
                assert(s[i].key() == s[s.len() - 1].key());
            }
        }
        if p(s.last()@) {
            assert(d =~= e.insert(k));
        } else {
            assert(d =~= e);
        }
    }
}

proof fn lemma_removed<R: Row>(s: Seq<R>, i: int)
    requires
        distinct_keys(s),
        0 <= i < s.len(),
    ensures
        distinct_keys(s.remove(i)),
        by_key(s.remove(i)) == by_key(s).remove(s[i].key()),
{
    let t = s.remove(i);
    assert forall|a: int, b: int| 0 <= a < b < t.len() implies t[a].key() != t[b].key() by {
        let a2 = if a < i {
            a
        } else {
            a + 1
        };
        let b2 = if b < i {
            b
        } else {
            b + 1
        };
        assert(t[a] == s[a2] && t[b] == s[b2]);
    }
    lemma_by_key(s);
    lemma_by_key(t);
    let k = s[i].key();
    assert forall|x: <R::Key as View>::V| #[trigger] by_key(t).dom().contains(x) <==> by_key(
        s,
    ).remove(k).dom().contains(x) by {
        if by_key(t).dom().contains(x) {
            let j = choose|j: int| 0 <= j < t.len() && t[j].key() == x;
            let j2 = if j < i {
                j
            } else {
                j + 1
            };
            assert(s[j2].key() == x);
        }
        if by_key(s).remove(k).dom().contains(x) {
            let j = choose|j: int| 0 <= j < s.len() && s[j].key() == x;
            let j2 = if j < i {
                j
            } else {
                j - 1
            };
            assert(t[j2].key() == x);
        }
    }
    assert forall|x: <R::Key as View>::V| #[trigger] by_key(t).dom().contains(x) implies by_key(
        t,
    )[x] == by_key(s).remove(k)[x] by {
        let j = choose|j: int| 0 <= j < t.len() && t[j].key() == x;
        let j2 = if j < i {
            j
        } else {
            j + 1
        };
        assert(t[j] == s[j2]);
        assert(by_key(t)[t[j].key()] == t[j]@);
        assert(by_key(s)[s[j2].key()] == s[j2]@);
    }
    assert(by_key(t) =~= by_key(s).remove(k));
}

} // verus!
