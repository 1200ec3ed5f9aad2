use tangle_tunes::songid::SongId;
use tangle_tunes::verify::{hash_song_chunks, verify_song_hashes};

fn sample_content(len: usize) -> Vec<u8> {
    let mut data = Vec::with_capacity(len);
    for i in 0..len {
        data.push((i % 251) as u8);
    }
    data
}

#[test]
fn digest_has_known_value() {
    // Keccak-256 of the three bytes "abc".
    let expected =
        SongId::try_from_hex("4e03657aea45a94fc7d47ba826c8d667c0d1e6e33a64a036ec44f58fa12d6c45")
            .unwrap();
    let hashes = hash_song_chunks(b"abc", 100);
    assert_eq!(hashes.len(), 1);
    assert!(hashes[0].matches(&expected));
}

#[test]
fn round_trip_verifies() {
    let data = sample_content(250);
    let hashes = hash_song_chunks(&data, 100);
    assert_eq!(hashes.len(), 3);
    assert!(verify_song_hashes(&data, &hashes, 100));
}

#[test]
fn any_flipped_byte_fails_verification() {
    let data = sample_content(250);
    let hashes = hash_song_chunks(&data, 100);
    for position in [0, 1, 99, 100, 199, 200, 249] {
        let mut tampered = data.clone();
        tampered[position] ^= 1;
        assert!(!verify_song_hashes(&tampered, &hashes, 100));
    }
}

#[test]
fn hash_count_mismatch_fails_verification() {
    let data = sample_content(250);
    let mut hashes = hash_song_chunks(&data, 100);
    hashes.pop();
    assert!(!verify_song_hashes(&data, &hashes, 100));
    assert!(!verify_song_hashes(&data, &Vec::new(), 100));
}

#[test]
fn empty_buffer_matches_empty_hashes() {
    let hashes = hash_song_chunks(&[], 100);
    assert_eq!(hashes.len(), 0);
    assert!(verify_song_hashes(&[], &hashes, 100));
}

#[test]
fn chunking_respects_boundaries() {
    // The digest of a whole-chunk prefix must equal the digest of that
    // chunk taken alone.
    let data = sample_content(250);
    let hashes = hash_song_chunks(&data, 100);
    let first_alone = hash_song_chunks(&data[..100], 100);
    assert!(hashes[0].matches(&first_alone[0]));
    // The final short chunk hashes only the remaining 50 bytes.
    let last_alone = hash_song_chunks(&data[200..], 100);
    assert!(hashes[2].matches(&last_alone[0]));
}
