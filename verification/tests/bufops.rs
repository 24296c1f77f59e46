use membench::ops::{copy_buffer, copy_chunked, fill_buffer, fill_chunked};

#[test]
fn fill_is_the_same_with_one_chunk_or_many() {
    let mut one = vec![0xBEu8; 100];
    let mut many = vec![0xBEu8; 100];
    fill_buffer(&mut one, 0xFE);
    fill_chunked(&mut many, 7, 0xFE);
    assert_eq!(one, many);
    assert!(one.iter().all(|&b| b == 0xFE));
}

#[test]
fn copy_is_the_same_with_one_chunk_or_many() {
    let src: Vec<u8> = (0..200usize).map(|i| (i % 251) as u8).collect();
    let mut one = vec![0u8; 200];
    let mut many = vec![0xEEu8; 200];
    copy_buffer(&mut one, &src);
    copy_chunked(&mut many, &src, 3);
    assert_eq!(one, src);
    assert_eq!(many, src);
    assert_eq!(one, many);
}

#[test]
fn more_chunks_than_bytes_still_covers_the_buffer() {
    let mut buf = vec![1u8; 3];
    fill_chunked(&mut buf, 5, 9);
    assert_eq!(buf, vec![9u8; 3]);
}

#[test]
fn empty_buffers_are_handled() {
    let mut buf: Vec<u8> = Vec::new();
    fill_chunked(&mut buf, 4, 0xFE);
    assert!(buf.is_empty());
    let src: Vec<u8> = Vec::new();
    let mut dst: Vec<u8> = Vec::new();
    copy_chunked(&mut dst, &src, 4);
    assert!(dst.is_empty());
}
