use coinslock_rust::crypto::{hash_160, hash_id, ripemd160, sha256, to_hex};

#[test]
fn test_ripemd160() {
    let input = [0x00, 0x01, 0x02, 0x03];
    let output = ripemd160(&input);
    assert_eq!(output.len(), 20);
}

#[test]
fn test_ripemd160_empty() {
    let input: [u8; 0] = [];
    let output = ripemd160(&input);
    assert_eq!(output.len(), 20);
}

#[test]
fn test_hash_160() {
    let input = [0x00, 0x01, 0x02, 0x03];
    let output = hash_160(&input);
    assert_eq!(output.len(), 20);
}

#[test]
fn test_sha256_zero_fixture() {
    let input = [0u8; 32];
    let digest = sha256(&input);
    assert_eq!(
        to_hex(digest.as_slice()),
        "66687aadf862bd776c8fc18b8e9f8e20089714856ee233b3902a591d0d5f2925"
    );
}

#[test]
fn test_to_hex() {
    let bytes = [0x00u8, 0x0f, 0xa5, 0xff];
    assert_eq!(to_hex(&bytes), "000fa5ff");
}

#[test]
fn test_hash_id() {
    // SHA-256 of "foo" begins 2c26b46b68ffc68f...
    let id = hash_id(String::from("foo"));
    assert_eq!(id, "2c26b46b68ffc68f");
    assert_eq!(id.len(), 16);
}
