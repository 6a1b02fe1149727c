use hasher::digest::{count_leading_zero_bits, count_nounce, hex_string, sha245_to_string, to_char};
use sha2::Digest;

/// SHA-256 computed directly with the sha2 crate, as a reference.
fn sha256(data: &[u8]) -> Vec<u8> {
    sha2::Sha256::digest(data).to_vec()
}

/// A direct bit-by-bit scan of a digest, as a reference for the library's
/// byte-wise count.
fn reference_leading_zero_bits(digest: &[u8]) -> u32 {
    let mut count = 0;
    for &byte in digest {
        for bit in (0..8).rev() {
            if (byte >> bit) & 1 == 1 {
                return count;
            }
            count += 1;
        }
    }
    count
}

#[test]
fn zero_bit_count_of_edge_digests() {
    assert_eq!(count_leading_zero_bits(&[0u8; 32]), 256);
    let mut top_bit_set = [0u8; 32];
    top_bit_set[0] = 0x80;
    assert_eq!(count_leading_zero_bits(&top_bit_set), 0);
    assert_eq!(count_leading_zero_bits(&[0x00, 0x1F]), 11);
    assert_eq!(count_leading_zero_bits(&[]), 0);
}

#[test]
fn zero_bit_count_matches_bit_by_bit_scan() {
    for i in 0u32..64 {
        let digest = sha256(format!("probe-{}", i).as_bytes());
        let counted = count_leading_zero_bits(&digest);
        assert_eq!(counted, reference_leading_zero_bits(&digest));
        assert!(counted <= 256);
    }
}

#[test]
fn sha256_of_abc_renders_the_known_digest() {
    let digest = sha256(b"abc");
    assert_eq!(digest.len(), 32);
    assert_eq!(
        sha245_to_string(&digest),
        "ba7816bf8f01cfea414140de5dae2223b00361a396177a9cb410ff61f20015ad"
    );
}

#[test]
fn hex_rendering_of_known_bytes() {
    assert_eq!(sha245_to_string(&[0x00, 0xab, 0x5c]), "00ab5c");
    assert_eq!(sha245_to_string(&[]), "");
}

#[test]
fn to_char_covers_every_nibble() {
    let expected = [
        '0', '1', '2', '3', '4', '5', '6', '7', '8', '9', 'A', 'B', 'C', 'D', 'E', 'F',
    ];
    for v in 0u8..16 {
        assert_eq!(to_char(v), expected[v as usize]);
    }
}

#[test]
fn hex_string_renders_little_endian_bytes() {
    assert_eq!(hex_string(1), "0100000000000000");
    assert_eq!(hex_string(0), "0000000000000000");
    assert_eq!(hex_string(0x1234_5678_9ABC_DEF0), "F0DEBC9A78563412");
}

#[test]
fn count_nounce_counts_leading_zero_characters() {
    assert_eq!(count_nounce(&String::from("000abc")), 3);
    assert_eq!(count_nounce(&String::from("abc")), 0);
    assert_eq!(count_nounce(&String::from("")), 0);
    assert_eq!(count_nounce(&String::from("0000")), 4);
    let hash = sha245_to_string(&sha256(b"abc"));
    assert_eq!(count_nounce(&hash), 0);
}
