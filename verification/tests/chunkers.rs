//! Chunkers.

use velcrux::chunking::{
    ChunkParams, Chunker, FixedChunker, RollingChunker, CHUNK_DEFAULT_MAX, GEAR,
};

/// The GEAR table MUST be a permutation of `0..=255`. A chunker built on
/// a non-permutation table degrades to poor hash distribution and breaks
/// CDC's whole point. This test catches accidental copy-paste errors.
#[test]
fn gear_table_is_a_permutation() {
    let mut seen = [false; 256];
    for &b in GEAR.iter() {
        let i = b as usize;
        assert!(i < 256, "gear value {i} out of range");
        assert!(!seen[i], "gear value {i} appears twice");
        seen[i] = true;
    }
    assert!(seen.iter().all(|&x| x), "gear table misses some values");
}

fn chunk_all(input: &[u8], mode: &str) -> Vec<Vec<u8>> {
    let params = ChunkParams::default();
    let mut cursor: Box<dyn Chunker> = match mode {
        "fixed" => Box::new(FixedChunker::new(params)),
        "rolling" => Box::new(RollingChunker::new(params)),
        _ => panic!("unknown mode"),
    };
    let mut chunks: Vec<Vec<u8>> = Vec::new();
    let mut start = 0usize;
    let boundaries = cursor.push(input).unwrap();
    for b in boundaries {
        chunks.push(input[start..start + b.length as usize].to_vec());
        start += b.length as usize;
    }
    let last = cursor.finish().unwrap();
    if let Some(b) = last {
        chunks.push(input[start..start + b.length as usize].to_vec());
    }
    chunks
}

#[test]
fn empty_input_yields_zero_chunks() {
    let params = ChunkParams::default();
    let mut c = RollingChunker::new(params);
    assert!(c.push(&[]).unwrap().is_empty());
    assert!(c.finish().unwrap().is_none());
    assert!(c.is_finished());
}

#[test]
fn empty_input_yields_zero_chunks_fixed() {
    let params = ChunkParams::default();
    let mut c = FixedChunker::new(params);
    assert!(c.push(&[]).unwrap().is_empty());
    assert!(c.finish().unwrap().is_none());
}

#[test]
fn concatenation_reproduces_input_rolling() {
    let inputs: Vec<Vec<u8>> = vec![
        vec![],
        vec![0; 1],
        vec![0; 4096],
        vec![0; 4097],
        (0..=255u8).cycle().take(100_000).collect(),
        (0..=255u8).cycle().take(1024 * 1024).collect(),
    ];
    for input in inputs {
        let chunks = chunk_all(&input, "rolling");
        let joined: Vec<u8> = chunks.iter().flat_map(|c| c.iter().copied()).collect();
        assert_eq!(joined, input, "concat mismatch for len {}", input.len());
    }
}

#[test]
fn concatenation_reproduces_input_fixed() {
    let inputs: Vec<Vec<u8>> = vec![
        vec![],
        vec![1, 2, 3],
        (0..=255u8).cycle().take(2 * 1024 * 1024).collect(),
    ];
    for input in inputs {
        let chunks = chunk_all(&input, "fixed");
        let joined: Vec<u8> = chunks.iter().flat_map(|c| c.iter().copied()).collect();
        assert_eq!(joined, input);
    }
}

#[test]
fn rolling_chunker_is_bounded_by_max() {
    let input = vec![0u8; 16 * 1024 * 1024];
    let chunks = chunk_all(&input, "rolling");
    for c in &chunks {
        assert!(c.len() as u64 <= CHUNK_DEFAULT_MAX);
    }
    let joined: Vec<u8> = chunks.iter().flat_map(|c| c.iter().copied()).collect();
    assert_eq!(joined.len(), input.len());
    assert_eq!(joined, input);
}

#[test]
fn rolling_chunker_respects_min() {
    let params = ChunkParams::default();
    let mut c = RollingChunker::new(params);
    let input = vec![0u8; (params.min - 1) as usize];
    let bs = c.push(&input).unwrap();
    assert!(bs.is_empty(), "first chunk must not cut before min");
    let _ = c.finish().unwrap();
}

#[test]
fn double_finish_is_an_error() {
    let mut c = RollingChunker::new(ChunkParams::default());
    c.finish().unwrap();
    assert!(c.finish().is_err());
}

#[test]
fn push_after_finish_is_an_error() {
    let mut c = RollingChunker::new(ChunkParams::default());
    c.finish().unwrap();
    assert!(c.push(&[1, 2, 3]).is_err());
}

#[test]
fn params_validation() {
    assert!(ChunkParams::new(0, 1024, 4096).is_none());
    assert!(ChunkParams::new(256, 1024, 256).is_none());
    assert!(ChunkParams::new(256, 1024, 1024).is_none());
    assert!(ChunkParams::new(256, 100, 4096).is_none());
    assert!(ChunkParams::new(256, 1024, 4096).is_some());
}

/// Boundary-stability property: inserting a small prefix
/// shifts all boundaries by the size of the prefix, but the *deltas*
/// between adjacent boundaries past the insertion point must match
/// the deltas in the unprefixed file. This is the property that makes
/// CDC worth its cost: distant chunks reuse even after small edits.
#[test]
fn boundary_stability_under_prefix_insertion() {
    let params = ChunkParams {
        min: 1024,
        target: 2048,
        max: 4096,
    };
    let base: Vec<u8> = (0..=255u8).cycle().take(64 * 1024).collect();
    let prefix = vec![0xAAu8; 32];
    let mut with_prefix = Vec::with_capacity(prefix.len() + base.len());
    with_prefix.extend_from_slice(&prefix);
    with_prefix.extend_from_slice(&base);

    let mut c1 = RollingChunker::new(params);
    let mut c2 = RollingChunker::new(params);
    let b1 = c1.push(&base).unwrap();
    let b2 = c2.push(&with_prefix).unwrap();
    let f1 = c1.finish().unwrap();
    let f2 = c2.finish().unwrap();
    let mut offsets1: Vec<u64> = b1.iter().map(|b| b.end()).collect();
    let mut offsets2: Vec<u64> = b2.iter().map(|b| b.end()).collect();
    if let Some(f) = f1 {
        offsets1.push(f.end());
    }
    if let Some(f) = f2 {
        offsets2.push(f.end());
    }

    // Compare deltas (gaps) in the two streams. The deltas must be
    // identical regardless of the absolute offsets — this is what
    // lets a content-defined chunker re-use the same chunks at the
    // same byte positions in the *new* file.
    let blast = 16 * 1024;
    // Skip the first delta after the blast radius — it necessarily
    // absorbs the prefix shift because the previous boundary lives at
    // a different position on each side. We compare the second and
    // later deltas: those capture gap-to-gap, which is what CDC
    // re-uses.
    let mut deltas1: Vec<u64> = offsets1
        .iter()
        .filter(|&&o| o >= blast)
        .scan(0u64, |prev, &o| {
            let d = o - *prev;
            *prev = o;
            Some(d)
        })
        .collect();
    let mut deltas2: Vec<u64> = offsets2
        .iter()
        .filter(|&&o| o >= blast + prefix.len() as u64)
        .scan(0u64, |prev, &o| {
            let d = o - *prev;
            *prev = o;
            Some(d)
        })
        .collect();
    if !deltas1.is_empty() {
        deltas1.remove(0);
    }
    if !deltas2.is_empty() {
        deltas2.remove(0);
    }
    // The last delta is the trailing partial chunk and naturally differs
    // when file size differs (it's `64 KiB - last_full_chunk`).
    if !deltas1.is_empty() {
        deltas1.pop();
    }
    if !deltas2.is_empty() {
        deltas2.pop();
    }
    assert_eq!(
        deltas1, deltas2,
        "boundary deltas past the insertion must match (deltas1={deltas1:?}, deltas2={deltas2:?})"
    );
}
