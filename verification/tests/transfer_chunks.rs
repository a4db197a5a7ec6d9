//! Chunk arithmetic, plans and what is there already.

use velcrux::transfer::{
    chunk_response, count_chunks, count_have, delta_answer, fits, len_of_chunk, make_plan,
    skip_bitmap, source_of, ChunkDigests, ChunkSource, FileCopy, StoreCopy, TRANSFER_CHUNK,
};
use velcrux::protocol::message::Message;
use velcrux::util;

#[test]
fn chunks_of_a_file() {
    assert_eq!(count_chunks(0), 0);
    assert_eq!(count_chunks(1), 1);
    assert_eq!(count_chunks(65536), 1);
    assert_eq!(count_chunks(65537), 2);
    assert_eq!(len_of_chunk(65537, 0), 65536);
    assert_eq!(len_of_chunk(65537, 1), 1);
    assert_eq!(count_chunks(u64::MAX), 1 << 48);
}

#[test]
fn plans_account_for_every_byte() {
    let id = util::TransferId::generate();
    let p = make_plan(id, 100, 30);
    assert_eq!((p.bytes_total, p.bytes_to_transfer, p.bytes_reusable), (100, 70, 30));
    let p = make_plan(id, 100, 130);
    assert_eq!((p.bytes_to_transfer, p.bytes_reusable), (0, 130));
}

#[test]
fn chunks_that_are_had_are_skipped() {
    let size = 2 * TRANSFER_CHUNK + 10;
    let b = skip_bitmap(size, &vec![true, false, true]);
    assert_eq!(b.indices(), vec![0, 2]);
    assert_eq!(b.bytes_completed(), TRANSFER_CHUNK + 10);
    let b = skip_bitmap(size, &vec![true]);
    assert_eq!(b.indices(), vec![0]);
    let b = skip_bitmap(size, &vec![false, false, false, true]);
    assert!(b.is_empty());
}

#[test]
fn chunks_are_found_in_the_file_or_the_store() {
    let hashes: Vec<util::Hash> = (0..3u8).map(|i| util::Hash::of(&[i])).collect();
    let sources = vec![
        ChunkSource::File { offset: 7, length: TRANSFER_CHUNK },
        ChunkSource::Missing,
        ChunkSource::Store,
    ];
    let size = 2 * TRANSFER_CHUNK + 5;
    assert!(fits(size, hashes.len()));
    let a = delta_answer(size, &hashes, &sources, true);
    assert_eq!(a.have, vec![true, false, true]);
    assert_eq!(
        a.file_copies,
        vec![FileCopy { dst_offset: 0, src_offset: 7, length: TRANSFER_CHUNK }]
    );
    assert_eq!(
        a.store_copies,
        vec![StoreCopy { dst_offset: 2 * TRANSFER_CHUNK, hash: hashes[2], length: 5 }]
    );
    assert_eq!(a.bitmap.indices(), vec![0, 2]);
    assert_eq!(a.bitmap.bytes_completed(), TRANSFER_CHUNK + 5);
    let a = delta_answer(size, &hashes, &sources, false);
    assert_eq!(a.have, vec![true, false, true]);
    assert_eq!(a.bitmap.indices(), vec![2]);
}

#[test]
fn the_file_is_preferred_to_the_store() {
    let here = ChunkSource::File { offset: 3, length: 4 };
    assert_eq!(source_of(Some((3, 4)), true), here);
    assert_eq!(source_of(Some((3, 4)), false), here);
    assert_eq!(source_of(None, true), ChunkSource::Store);
    assert_eq!(source_of(None, false), ChunkSource::Missing);
}

#[test]
fn more_chunks_than_the_file_has_do_not_fit() {
    assert!(fits(0, 0));
    assert!(fits(0, 1));
    assert!(!fits(0, 2));
    assert!(fits(TRANSFER_CHUNK, 2));
    assert!(!fits(TRANSFER_CHUNK - 1, 2));
}

#[test]
fn responses_count_what_is_had() {
    let have = vec![true, false, true, true];
    assert_eq!(count_have(&have), 3);
    let id = util::TransferId::generate();
    match chunk_response(id, 9, &have, bytes::Bytes::from_static(b"rle")) {
        Message::ChunkResponse(r) => {
            assert_eq!((r.query_seq, r.total_chunks, r.have_count), (9, 4, 3));
            assert_eq!(&r.rle_bitmap[..], b"rle");
        }
        other => panic!("unexpected {other:?}"),
    }
}

#[test]
fn a_file_is_digested_chunk_by_chunk() {
    let data: Vec<u8> = (0..=255u8).cycle().take(150_000).collect();
    let mut d = ChunkDigests::new(data.len() as u64);
    let mut rest = &data[..];
    loop {
        let n = d.wanted();
        if n == 0 {
            break;
        }
        d.push(&rest[..n]);
        rest = &rest[n..];
    }
    assert!(rest.is_empty());
    let expected: Vec<util::Hash> = data.chunks(65536).map(util::Hash::of).collect();
    assert_eq!(d.hashes, expected);
    assert_eq!(ChunkDigests::new(0).wanted(), 0);
}
