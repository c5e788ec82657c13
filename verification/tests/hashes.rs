use gnunet::crypto::{HashCode, HASH_CODE_LEN};

#[test]
fn new_hash_code_is_zero() {
    let h = HashCode::new();
    assert_eq!(h.raw_data(), &[0u32; 16]);
    assert_eq!(h.to_bytes(), vec![0u8; 64]);
}

#[test]
fn hash_code_bytes_are_words_least_significant_byte_first() {
    let mut h = HashCode::new();
    h.raw_data_mut()[0] = 0x0403_0201;
    h.raw_data_mut()[15] = 0xdead_beef;
    let bytes = h.to_bytes();
    assert_eq!(bytes.len(), HASH_CODE_LEN);
    assert_eq!(&bytes[0..4], &[1, 2, 3, 4]);
    assert_eq!(&bytes[4..60], &[0u8; 56][..]);
    assert_eq!(&bytes[60..64], &[0xef, 0xbe, 0xad, 0xde]);
}

#[test]
fn hash_code_round_trip() {
    let mut bits = [0u32; 16];
    for (i, w) in bits.iter_mut().enumerate() {
        *w = (i as u32).wrapping_mul(0x9e37_79b9) ^ 0xffff_0000;
    }
    let h = HashCode::from_inner(bits);
    let mut bytes = h.to_bytes();
    assert_eq!(HashCode::from_bytes(&bytes), Some(h));
    bytes.push(1);
    assert_eq!(HashCode::from_bytes(&bytes), Some(h));
    let expected: Vec<u8> = bits.iter().flat_map(|w| w.to_le_bytes()).collect();
    assert_eq!(h.to_bytes(), expected);
}

#[test]
fn hash_code_from_too_few_bytes() {
    assert_eq!(HashCode::from_bytes(&[0u8; 63]), None);
    assert_eq!(HashCode::from_bytes(&[]), None);
}
