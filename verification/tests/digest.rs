use dilithium_keys::digest::{digest, StreamingDigest, CHUNK_LEN};
use sha2::{Digest, Sha256};

fn hex(bytes: &[u8]) -> String {
    bytes.iter().map(|b| format!("{:02x}", b)).collect()
}

fn pattern(n: usize) -> Vec<u8> {
    (0..n).map(|i| (i * 7 + i / 255) as u8).collect()
}

#[test]
fn digest_of_known_messages() {
    assert_eq!(
        hex(&digest(b"")),
        "e3b0c44298fc1c149afbf4c8996fb92427ae41e4649b934ca495991b7852b855"
    );
    assert_eq!(
        hex(&digest(b"abc")),
        "ba7816bf8f01cfea414140de5dae2223b00361a396177a9cb410ff61f20015ad"
    );
    assert_eq!(
        hex(&digest(b"hello world")),
        "b94d27b9934d3e08a52e52d7da7dabfac484efe37a5380ee9088f7ace2efcde9"
    );
}

#[test]
fn chunk_length_is_4096() {
    assert_eq!(CHUNK_LEN, 4096);
}

#[test]
fn digest_is_that_of_the_whole_input_whatever_its_length() {
    for n in [0usize, 1, 4095, 4096, 4097, 8192, 10000, 12288] {
        let data = pattern(n);
        assert_eq!(digest(&data).to_vec(), Sha256::digest(&data).to_vec());
    }
}

#[test]
fn where_the_pieces_are_cut_makes_no_difference() {
    let data = pattern(10000);
    let whole = digest(&data);
    for step in [1usize, 3, 64, 1000, 4096, 9999, 10000] {
        let mut state = StreamingDigest::new();
        let mut at = 0;
        while at < data.len() {
            let end = (at + step).min(data.len());
            assert!(state.feed(&data[at..end], end - at));
            at = end;
        }
        assert_eq!(state.finish(), whole);
    }
}

#[test]
fn only_the_filled_part_of_the_buffer_is_taken_in() {
    let mut buffer = [0xeeu8; 4096];
    buffer[..3].copy_from_slice(b"abc");
    let mut state = StreamingDigest::new();
    assert!(state.feed(&buffer, 3));
    assert!(!state.feed(&buffer, 0));
    assert_eq!(state.finish(), digest(b"abc"));
}

#[test]
fn a_read_of_no_bytes_ends_the_file_and_changes_nothing() {
    let mut state = StreamingDigest::new();
    assert!(!state.feed(&[1, 2, 3], 0));
    assert!(!state.feed(&[], 0));
    assert_eq!(state.finish(), digest(b""));
}

#[test]
fn one_changed_byte_changes_the_digest() {
    let data = pattern(5000);
    let mut other = data.clone();
    other[4999] ^= 1;
    assert_ne!(digest(&data), digest(&other));
}
