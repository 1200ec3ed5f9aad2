use tangle_tunes::chunk::{
    byte_offset_of_chunk, chunk_count, is_transfer_complete, song_is_complete, BYTES_PER_CHUNK,
};

#[test]
fn song_is_complete_test() {
    assert!(song_is_complete(&[0; 1], 1));
    assert!(song_is_complete(&vec![0; BYTES_PER_CHUNK], 1));
    assert!(!song_is_complete(&vec![0; BYTES_PER_CHUNK], 2));
    assert!(song_is_complete(&vec![0; BYTES_PER_CHUNK + 1], 2));
    assert!(song_is_complete(&vec![0; BYTES_PER_CHUNK * 2 - 1], 2));
    assert!(song_is_complete(&vec![0; BYTES_PER_CHUNK * 2], 2));
}

#[test]
fn chunk_count_is_ceiling_division() {
    assert_eq!(chunk_count(0, 100), 0);
    assert_eq!(chunk_count(1, 100), 1);
    assert_eq!(chunk_count(99, 100), 1);
    assert_eq!(chunk_count(100, 100), 1);
    assert_eq!(chunk_count(101, 100), 2);
    assert_eq!(chunk_count(1000, 100), 10);
    assert_eq!(chunk_count(1001, 100), 11);
    assert_eq!(chunk_count(7, 1), 7);
}

#[test]
fn transfer_complete_boundaries() {
    // One byte of the final expected chunk is enough.
    assert!(is_transfer_complete(1, 1, 100));
    assert!(is_transfer_complete(100, 1, 100));
    assert!(!is_transfer_complete(100, 2, 100));
    assert!(is_transfer_complete(101, 2, 100));
    assert!(is_transfer_complete(199, 2, 100));
    assert!(is_transfer_complete(200, 2, 100));
}

#[test]
fn byte_offsets() {
    assert_eq!(byte_offset_of_chunk(0, 100), 0);
    assert_eq!(byte_offset_of_chunk(3, 100), 300);
    assert_eq!(byte_offset_of_chunk(7, BYTES_PER_CHUNK), 7 * BYTES_PER_CHUNK);
}
