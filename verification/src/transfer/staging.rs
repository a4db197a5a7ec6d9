//! What the staged file holds once everything that was found is copied.

use vstd::prelude::*;
use vstd::set_lib;

use crate::foreign;
use crate::transfer as chunks;
use crate::transfer::{ChunkSource, DeltaAnswer, FileCopy, StoreCopy};
use crate::util;

verus! {

/// A file after bytes are written over a part of it.
pub open spec fn written(file: Seq<u8>, at: int, bytes: Seq<u8>) -> Seq<u8> {
    Seq::new(
        file.len(),
        |k: int|
            if at <= k < at + bytes.len() {
                bytes[k - at]
            } else {
                file[k]
            },
    )
}

/// A file after parts of an old file are copied to it.
pub open spec fn after_file_copies(
    file: Seq<u8>,
    copies: Seq<FileCopy>,
    old_file: Seq<u8>,
) -> Seq<u8>
    decreases copies.len(),
{
    if copies.len() == 0 {
        file
    } else {
        let c = copies.last();
        written(
            after_file_copies(file, copies.drop_last(), old_file),
            c.dst_offset as int,
            old_file.subrange(c.src_offset as int, c.src_offset + c.length),
        )
    }
}

/// A file after chunks of the chunk store are copied to it. `store` gives the
/// bytes of a digest.
pub open spec fn after_store_copies(
    file: Seq<u8>,
    copies: Seq<StoreCopy>,
    store: Map<Seq<u8>, Seq<u8>>,
) -> Seq<u8>
    decreases copies.len(),
{
    if copies.len() == 0 {
        file
    } else {
        let c = copies.last();
        written(
            after_store_copies(file, copies.drop_last(), store),
            c.dst_offset as int,
            store[c.hash@].take(c.length as int),
        )
    }
}

/// Where the chunk at place `i` of a file ends.
pub open spec fn end_of(size: int, i: int) -> int {
    if 65536 * (i + 1) <= size {
        65536 * (i + 1)
    } else {
        size
    }
}

/// The sources hold the chunks of a file: what they say about the place `i`
/// are the bytes of the file from `65536 * i` on.
pub open spec fn hold(
    s: Seq<ChunkSource>,
    hashes: Seq<util::Hash>,
    file: Seq<u8>,
    old_file: Seq<u8>,
    store: Map<Seq<u8>, Seq<u8>>,
) -> bool {
    &&& s.len() == hashes.len()
    &&& file.len() <= u64::MAX
    &&& forall|i: int|
        0 <= i < s.len() ==> {
            let bytes = file.subrange(65536 * i, end_of(file.len() as int, i));
            &&& 65536 * i <= file.len()
            &&& #[trigger] s[i] matches ChunkSource::File { offset, length } ==> offset + length
                <= old_file.len() && old_file.subrange(offset as int, offset + length) == bytes
            &&& s[i] is Store ==> store[hashes[i]@] == bytes
        }
}

proof fn lemma_file_copies(
    s: Seq<ChunkSource>,
    hashes: Seq<util::Hash>,
    file: Seq<u8>,
    old_file: Seq<u8>,
    store: Map<Seq<u8>, Seq<u8>>,
    blank: Seq<u8>,
    n: int,
)
    requires
        hold(s, hashes, file, old_file, store),
        blank.len() == file.len(),
        0 <= n <= s.len(),
    ensures
        ({
            let r = after_file_copies(blank, chunks::file_copies(s, n), old_file);
            &&& r.len() == file.len()
            &&& forall|k: int|
                0 <= k < file.len() ==> #[trigger] r[k] == if k / 65536 < n && s[k / 65536] is File {
                    file[k]
                } else {
                    blank[k]
                }
        }),
    decreases n,
{
    if n > 0 {
        lemma_file_copies(s, hashes, file, old_file, store, blank, n - 1);
        let c = chunks::file_copies(s, n - 1);
        let d = chunks::file_copies(s, n);
        let r = after_file_copies(blank, d, old_file);
        let before = after_file_copies(blank, c, old_file);
        let i = n - 1;
        assert(65536 * i <= file.len());
        if let ChunkSource::File { offset, length } = s[i] {
            let bytes = file.subrange(65536 * i, end_of(file.len() as int, i));
            assert(d.drop_last() =~= c);
            assert(d.last().dst_offset == 65536 * i);
            assert(old_file.subrange(offset as int, offset + length) == bytes);
            assert(r == written(before, 65536 * i, bytes));
            assert forall|k: int| 0 <= k < file.len() implies #[trigger] r[k] == if k / 65536 < n
                && s[k / 65536] is File {
                file[k]
            } else {
                blank[k]
            } by {
                if k / 65536 == i {
                    assert(65536 * i <= k < 65536 * i + bytes.len());
                    assert(bytes[k - 65536 * i] == file[k]);
                } else {
                    assert(r[k] == before[k]);
                }
            }
        }
    }
}

proof fn lemma_store_copies(
    s: Seq<ChunkSource>,
    hashes: Seq<util::Hash>,
    file: Seq<u8>,
    old_file: Seq<u8>,
    store: Map<Seq<u8>, Seq<u8>>,
    blank: Seq<u8>,
    n: int,
)
    requires
        hold(s, hashes, file, old_file, store),
        blank.len() == file.len(),
        0 <= n <= s.len(),
    ensures
        ({
            let size = file.len() as u64;
            let r = after_store_copies(blank, chunks::store_copies(s, hashes, size, n), store);
            &&& r.len() == file.len()
            &&& forall|k: int|
                0 <= k < file.len() ==> #[trigger] r[k] == if k / 65536 < n
                    && s[k / 65536] is Store {
                    file[k]
                } else {
                    blank[k]
                }
        }),
    decreases n,
{
    if n > 0 {
        let size = file.len() as u64;
        lemma_store_copies(s, hashes, file, old_file, store, blank, n - 1);
        let c = chunks::store_copies(s, hashes, size, n - 1);
        let d = chunks::store_copies(s, hashes, size, n);
        let r = after_store_copies(blank, d, store);
        let before = after_store_copies(blank, c, store);
        let i = n - 1;
        assert(65536 * i <= file.len());
        if s[i] is Store {
            let bytes = file.subrange(65536 * i, end_of(file.len() as int, i));
            assert(d.drop_last() =~= c);
            assert(d.last().dst_offset == 65536 * i);
            assert(d.last().length == bytes.len());
            assert(store[hashes[i]@].take(d.last().length as int) =~= bytes);
            assert(r == written(before, 65536 * i, bytes));
            assert forall|k: int| 0 <= k < file.len() implies #[trigger] r[k] == if k / 65536 < n
                && s[k / 65536] is Store {
                file[k]
            } else {
                blank[k]
            } by {
                if k / 65536 == i {
                    assert(65536 * i <= k < 65536 * i + bytes.len());
                    assert(bytes[k - 65536 * i] == file[k]);
                } else {
                    assert(r[k] == before[k]);
                }
            }
        }
    }
}

/// A file after everything is copied to it: from the old file, if that can be
/// read, and from the chunk store.
pub open spec fn after_copies(
    blank: Seq<u8>,
    from_file: Seq<FileCopy>,
    old_file: Seq<u8>,
    readable: bool,
    from_store: Seq<StoreCopy>,
    store: Map<Seq<u8>, Seq<u8>>,
) -> Seq<u8> {
    if readable {
        after_store_copies(after_file_copies(blank, from_file, old_file), from_store, store)
    } else {
        after_store_copies(blank, from_store, store)
    }
}

/// Once everything that was found is copied, the staged file holds the bytes
/// of the new file exactly where the bitmap says that a chunk is complete, and
/// is untouched elsewhere. If the old file could not be read, only the chunks
/// of the chunk store are copied and complete. What is announced is what has a
/// source; with all chunks found, the staged file is the new file.
pub proof fn law_staged_is_new_file(
    s: Seq<ChunkSource>,
    hashes: Seq<util::Hash>,
    file: Seq<u8>,
    old_file: Seq<u8>,
    store: Map<Seq<u8>, Seq<u8>>,
    blank: Seq<u8>,
    readable: bool,
)
    requires
        hold(s, hashes, file, old_file, store),
        blank.len() == file.len(),
    ensures
        ({
            let n = s.len() as int;
            let staged = after_copies(
                blank,
                chunks::file_copies(s, n),
                old_file,
                readable,
                chunks::store_copies(s, hashes, file.len() as u64, n),
                store,
            );
            let complete = chunks::completed(s, readable);
            &&& staged.len() == file.len()
            &&& forall|k: int|
                0 <= k < file.len() ==> #[trigger] staged[k] == if complete.contains(
                    (k / 65536) as u64,
                ) {
                    file[k]
                } else {
                    blank[k]
                }
            &&& forall|i: u64| #[trigger]
                complete.contains(i) <==> i < s.len() && (s[i as int] is Store || (s[i as int] is File
                    && readable))
            &&& chunks::announced(s).len() == s.len()
            &&& forall|i: int|
                0 <= i < s.len() ==> (#[trigger] chunks::announced(s)[i] <==> s[i] is Store
                    || s[i] is File)
            &&& readable && file.len() <= 65536 * s.len() && (forall|i: int|
                0 <= i < s.len() ==> #[trigger] chunks::announced(s)[i]) ==> staged == file
        }),
{
    let n = s.len() as int;
    let copied = if readable {
        after_file_copies(blank, chunks::file_copies(s, n), old_file)
    } else {
        blank
    };
    let staged = after_copies(
        blank,
        chunks::file_copies(s, n),
        old_file,
        readable,
        chunks::store_copies(s, hashes, file.len() as u64, n),
        store,
    );
    lemma_file_copies(s, hashes, file, old_file, store, blank, n);
    lemma_store_copies(s, hashes, file, old_file, store, copied, n);
    if readable && file.len() <= 65536 * s.len() && (forall|i: int|
        0 <= i < s.len() ==> #[trigger] chunks::announced(s)[i]) {
        assert forall|k: int| 0 <= k < file.len() implies staged[k] == file[k] by {
            assert(chunks::announced(s)[k / 65536]);
        }
        assert(staged =~= file);
    }
}

/// Every chunk that is found in the old file is copied from where it stands
/// there to where it belongs in the new file, and nothing else is.
pub proof fn law_file_copies_go_to_place(s: Seq<ChunkSource>, size: u64, n: int)
    requires
        0 <= n <= s.len(),
        65536 * (n - 1) <= size,
    ensures
        forall|i: int|
            0 <= i < n ==> (#[trigger] s[i] matches ChunkSource::File { offset, length }
                ==> chunks::file_copies(s, n).contains(
                FileCopy { dst_offset: (65536 * i) as u64, src_offset: offset, length },
            )),
        forall|c: FileCopy| #[trigger]
            chunks::file_copies(s, n).contains(c) ==> c.dst_offset % 65536 == 0 && c.dst_offset
                / 65536 < n && s[c.dst_offset as int / 65536] == (ChunkSource::File {
                offset: c.src_offset,
                length: c.length,
            }),
    decreases n,
{
    if n > 0 {
        law_file_copies_go_to_place(s, size, n - 1);
        let before = chunks::file_copies(s, n - 1);
        let all = chunks::file_copies(s, n);
        if s[n - 1] is File {
            assert(all.drop_last() =~= before);
            assert(all[all.len() - 1] == all.last());
            assert forall|c: FileCopy| before.contains(c) implies #[trigger] all.contains(c) by {
                let j = choose|j: int| 0 <= j < before.len() && before[j] == c;
                assert(all[j] == c);
            }
            assert forall|c: FileCopy| #[trigger] all.contains(c) && c != all.last() implies before.contains(
            c) by {
                let j = choose|j: int| 0 <= j < all.len() && all[j] == c;
                assert(before[j] == c);
            }
        }
        assert forall|i: int| 0 <= i < n implies (#[trigger] s[i] matches ChunkSource::File {
            offset,
            length,
        } ==> all.contains(
            FileCopy { dst_offset: (65536 * i) as u64, src_offset: offset, length },
        )) by {
            if let ChunkSource::File { offset, length } = s[i] {
                let c = FileCopy { dst_offset: (65536 * i) as u64, src_offset: offset, length };
                if i < n - 1 {
                    assert(before.contains(c));
                } else {
                    assert(all.last() == c);
                }
            }
        }
        assert forall|c: FileCopy| #[trigger] all.contains(c) implies c.dst_offset % 65536 == 0
            && c.dst_offset / 65536 < n && s[c.dst_offset as int / 65536] == (ChunkSource::File {
            offset: c.src_offset,
            length: c.length,
        }) by {
            if s[n - 1] is File && c == all.last() {
                assert(c.dst_offset == 65536 * (n - 1));
            } else {
                assert(before.contains(c));
            }
        }
    }
}

/// The bytes of a file that lie in some of its chunks.
pub open spec fn bytes_in(size: u64, set: Set<u64>) -> Set<int> {
    Set::new(|k: int| 0 <= k < size && set.contains((k / 65536) as u64))
}

/// The bytes of a file that lie in some of its first `n` chunks.
spec fn bytes_below(size: u64, set: Set<u64>, n: int) -> Set<int> {
    Set::new(|k: int| 0 <= k < size && set.contains((k / 65536) as u64) && k / 65536 < n)
}

proof fn lemma_range_added(size: u64, set: Set<u64>, n: int)
    requires
        0 <= n,
        65536 * n <= size,
    ensures
        ({
            &&& bytes_below(size, set, n).finite() ==> bytes_below(size, set, n + 1).finite()
                && bytes_below(size, set, n + 1).len() == bytes_below(size, set, n).len()
                + if set.contains(n as u64) {
                end_of(size as int, n) - 65536 * n
            } else {
                0
            }
        }),
{
    if bytes_below(size, set, n).finite() {
        if set.contains(n as u64) {
            let a = 65536 * n;
            let e = end_of(size as int, n);
            let range = set_lib::set_int_range(a, e);
            set_lib::lemma_int_range(a, e);
            assert forall|k: int| #[trigger]
                bytes_below(size, set, n + 1).contains(k) == bytes_below(size, set, n).union(
                    range,
                ).contains(k) by {
                if 0 <= k < size {
                    assert(k / 65536 == n <==> a <= k < e);
                }
            }
            assert(bytes_below(size, set, n + 1) =~= bytes_below(size, set, n).union(range));
            assert(bytes_below(size, set, n).disjoint(range));
            set_lib::lemma_set_disjoint_lens(bytes_below(size, set, n), range);
        } else {
            assert(bytes_below(size, set, n + 1) =~= bytes_below(size, set, n));
        }
    }
}

proof fn lemma_found_are_counted(s: Seq<ChunkSource>, size: u64, readable: bool, n: int)
    requires
        0 <= n <= s.len(),
        forall|i: int| 0 <= i < s.len() ==> #[trigger] (65536 * i) <= size,
        forall|i: int|
            0 <= i < s.len() ==> (#[trigger] s[i] matches ChunkSource::File { offset, length }
                ==> length == end_of(size as int, i) - 65536 * i),
    ensures
        ({
            let set = chunks::completed(s, readable);
            bytes_below(size, set, n).finite() && chunks::found_bytes(s, size, readable, n)
                == bytes_below(size, set, n).len()
        }),
    decreases n,
{
    let set = chunks::completed(s, readable);
    if n == 0 {
        assert(bytes_below(size, set, 0) =~= Set::empty());
    } else {
        lemma_found_are_counted(s, size, readable, n - 1);
        assert((65536 * (n - 1)) <= size);
        lemma_range_added(size, set, n - 1);
    }
}

/// What is counted as found is the number of bytes of the file that lie in
/// the chunks that are complete.
pub proof fn law_found_bytes_are_counted(s: Seq<ChunkSource>, size: u64, readable: bool)
    requires
        forall|i: int| 0 <= i < s.len() ==> #[trigger] (65536 * i) <= size,
        forall|i: int|
            0 <= i < s.len() ==> (#[trigger] s[i] matches ChunkSource::File { offset, length }
                ==> length == end_of(size as int, i) - 65536 * i),
    ensures
        ({
            let set = bytes_in(size, chunks::completed(s, readable));
            &&& set.finite()
            &&& chunks::found_bytes(s, size, readable, s.len() as int) == set.len()
        }),
{
    let set = chunks::completed(s, readable);
    let n = s.len() as int;
    lemma_found_are_counted(s, size, readable, n);
    assert(bytes_below(size, set, n) =~= bytes_in(size, set));
}

proof fn lemma_had_are_counted(size: u64, have: Seq<bool>, n: nat)
    requires
        n <= chunks::chunk_count(size),
    ensures
        ({
            let set = chunks::had_chunks(size, have);
            bytes_below(size, set, n as int).finite() && chunks::had_bytes(size, have, n)
                == bytes_below(size, set, n as int).len()
        }),
    decreases n,
{
    let set = chunks::had_chunks(size, have);
    if n == 0 {
        assert(bytes_below(size, set, 0) =~= Set::empty());
    } else {
        lemma_had_are_counted(size, have, (n - 1) as nat);
        lemma_range_added(size, set, n - 1);
    }
}

/// What is skipped is counted by the bytes of the file that lie in the chunks
/// that the other side has.
pub proof fn law_had_bytes_are_counted(size: u64, have: Seq<bool>)
    ensures
        ({
            let set = bytes_in(size, chunks::had_chunks(size, have));
            &&& set.finite()
            &&& chunks::had_bytes(size, have, chunks::chunk_count(size)) == set.len()
            &&& forall|k: int| #[trigger]
                set.contains(k) <==> 0 <= k < size && k / 65536 < have.len() && have[k / 65536]
        }),
{
    let set = chunks::had_chunks(size, have);
    let n = chunks::chunk_count(size) as int;
    lemma_had_are_counted(size, have, n as nat);
    assert(bytes_below(size, set, n) =~= bytes_in(size, set));
}

/// What is true is counted: in a part and in the rest as in the whole.
pub proof fn law_true_is_counted(a: Seq<bool>, b: Seq<bool>)
    ensures
        chunks::count_true(a + b) == chunks::count_true(a) + chunks::count_true(b),
        chunks::count_true(seq![true]) == 1,
        chunks::count_true(seq![false]) == 0,
        chunks::count_true(a) <= a.len(),
    decreases b.len(), a.len(),
{
    reveal_with_fuel(chunks::count_true, 2);
    if b.len() > 0 {
        law_true_is_counted(a, b.drop_last());
        assert((a + b).drop_last() =~= a + b.drop_last());
        assert((a + b).last() == b.last());
    } else {
        assert(a + b =~= a);
        if a.len() > 0 {
            law_true_is_counted(a.drop_last(), b);
        }
    }
}

/// The digests of the chunks of a file are those of its parts of 65536 bytes,
/// in order; the last may be shorter.
pub proof fn law_digests_are_of_parts(file: Seq<u8>, i: int)
    requires
        file.len() <= u64::MAX,
    ensures
        chunks::chunk_digests(file).len() == (file.len() + 65535) / 65536,
        0 <= i && 65536 * i < file.len() ==> i < chunks::chunk_digests(file).len()
            && chunks::chunk_digests(file)[i] == foreign::blake3_digest(
            file.subrange(65536 * i, end_of(file.len() as int, i)),
        ),
{
    if 0 <= i && 65536 * i < file.len() {
        assert(chunks::chunk_at(file, i) =~= file.subrange(
            65536 * i,
            end_of(file.len() as int, i),
        ));
    }
}

/// A file has as many chunks as it takes parts of 65536 bytes to cover it.
pub proof fn law_number_of_chunks(size: u64, i: int)
    ensures
        65536 * (chunks::chunk_count(size) - 1) < size,
        size <= 65536 * chunks::chunk_count(size),
        0 <= i < chunks::chunk_count(size) ==> chunks::chunk_len(size, i) == end_of(size as int, i)
            - 65536 * i,
{
}

/// An answer to a question about chunks stages the new file: copying what it
/// says puts the bytes of the file exactly where its bitmap says so.
pub proof fn law_answer_stages_new_file(
    sources: Vec<ChunkSource>,
    hashes: Vec<util::Hash>,
    file: Seq<u8>,
    old_file: Seq<u8>,
    store: Map<Seq<u8>, Seq<u8>>,
    blank: Seq<u8>,
    readable: bool,
    r: DeltaAnswer,
    k: int,
)
    requires
        hold(sources@, hashes@, file, old_file, store),
        blank.len() == file.len(),
        call_ensures(chunks::delta_answer, (file.len() as u64, &hashes, &sources, readable), r),
        0 <= k < file.len(),
    ensures
        ({
            let staged = after_copies(
                blank,
                r.file_copies@,
                old_file,
                readable,
                r.store_copies@,
                store,
            );
            &&& staged.len() == file.len()
            &&& staged[k] == if r.bitmap@.set.contains((k / 65536) as u64) {
                file[k]
            } else {
                blank[k]
            }
        }),
        forall|i: int|
            0 <= i < sources@.len() ==> #[trigger] r.have@[i] == !(sources@[i] is Missing),
{
    law_staged_is_new_file(sources@, hashes@, file, old_file, store, blank, readable);
    let n = sources@.len() as int;
    assert(r.file_copies@ == chunks::file_copies(sources@, n));
    assert(r.store_copies@ == chunks::store_copies(sources@, hashes@, file.len() as u64, n));
}

} // verus!
