use membench::chunks::{partition, Chunk};

#[test]
fn splits_evenly_with_one_short_final_chunk() {
    let chunks = partition(10, 3);
    assert_eq!(chunks.len(), 3);
    assert_eq!(chunks[0], Chunk { offset: 0, len: 4 });
    assert_eq!(chunks[1], Chunk { offset: 4, len: 4 });
    assert_eq!(chunks[2], Chunk { offset: 8, len: 2 });
}

#[test]
fn lengths_always_sum_to_size() {
    let cases = [
        (0usize, 1usize),
        (1, 7),
        (5, 4),
        (3, 5),
        (1048576, 8),
        (17, 16),
        (1000, 7),
    ];
    for &(size, threads) in cases.iter() {
        let chunks = partition(size, threads);
        assert_eq!(chunks.len(), threads);
        let total: usize = chunks.iter().map(|c| c.len).sum();
        assert_eq!(total, size);
    }
}

#[test]
fn small_sizes_leave_trailing_chunks_empty() {
    let chunks = partition(3, 5);
    let lens: Vec<usize> = chunks.iter().map(|c| c.len).collect();
    assert_eq!(lens, vec![1, 1, 1, 0, 0]);
}

#[test]
fn no_chunk_exceeds_the_ceiling_length() {
    let chunks = partition(10, 4);
    assert!(chunks.iter().all(|c| c.len <= 3));
}

#[test]
fn chunks_have_zero_overlap_and_zero_gap() {
    let size = 1000usize;
    let chunks = partition(size, 7);
    let mut pos = 0usize;
    for c in chunks.iter() {
        assert_eq!(c.offset, pos);
        pos += c.len;
    }
    assert_eq!(pos, size);
}
