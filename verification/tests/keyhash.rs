use impenetrable::keyhash::{self, VerifyError};

#[test]
fn to_hex_encodes_two_digits_per_byte() {
    assert_eq!(keyhash::to_hex(&vec![0xbe, 0xef]), "beef");
    assert_eq!(keyhash::to_hex(&vec![0x00, 0x0a, 0xff]), "000aff");
    assert_eq!(keyhash::to_hex(&vec![]), "");
}

#[test]
fn from_hex_reads_pairs_of_digits() {
    assert_eq!(keyhash::_from_hex("beef"), Ok(vec![0xbe, 0xef]));
    assert_eq!(keyhash::_from_hex("000AFF"), Ok(vec![0x00, 0x0a, 0xff]));
    assert_eq!(keyhash::_from_hex(""), Ok(vec![]));
    // An odd trailing digit counts as one byte on its own.
    assert_eq!(keyhash::_from_hex("abc"), Ok(vec![0xab, 0x0c]));
    assert_eq!(keyhash::_from_hex("zz"), Err(()));
    assert_eq!(keyhash::_from_hex("a!"), Err(()));
}

#[test]
fn hex_codec_round_trips() {
    let bytes = vec![0u8, 1, 15, 16, 127, 128, 255];
    let encoded = keyhash::to_hex(&bytes);
    assert_eq!(keyhash::_from_hex(&encoded), Ok(bytes));
}

#[test]
fn generate_with_salt_matches_the_primitive() {
    // The derived credential is exactly the hex of the bcrypt digest of
    // the key under the given salt, at the crate's default cost.
    let salt: Vec<u8> = (1..=16).collect();
    let (hash_hex, salt_hex) = keyhash::generate_with_salt("hunter2", &salt);

    let mut salt_arr = [0u8; 16];
    salt_arr.copy_from_slice(&salt);
    let expected = bcrypt::bcrypt(bcrypt::DEFAULT_COST, salt_arr, b"hunter2");
    let expected_hex: String = expected.iter().map(|b| format!("{:02x}", b)).collect();

    assert_eq!(hash_hex, expected_hex);
    assert_eq!(salt_hex, "0102030405060708090a0b0c0d0e0f10");
}

#[test]
fn generate_draws_a_fresh_16_byte_salt() {
    let (hash_hex, salt_hex) = keyhash::generate("hunter2");
    assert_eq!(salt_hex.len(), 32);
    assert_eq!(hash_hex.len(), 48);
    assert!(salt_hex.chars().all(|c| c.is_ascii_hexdigit()));
    assert!(hash_hex.chars().all(|c| c.is_ascii_hexdigit()));
}

#[test]
fn verify_checks_a_bcrypt_hash_string() {
    let stored = bcrypt::hash("sekrit", 4).unwrap();
    assert_eq!(keyhash::verify("sekrit", &stored, ""), Ok(true));
    assert_eq!(keyhash::verify("wrong", &stored, ""), Ok(false));
}

#[test]
fn verify_rejects_a_malformed_hash() {
    assert_eq!(
        keyhash::verify("sekrit", "not a bcrypt hash", ""),
        Err(VerifyError::InvalidHash)
    );
}
