use coinslock_rust::bits::{bits_to_bytes, bytes_to_bits};
use coinslock_rust::errors::LockerError;
use coinslock_rust::secret::{generate_secret, get_entropy_size, mnemonic_to_entropy, token_bytes};
use coinslock_rust::wordlist::WordList;

fn make_words() -> WordList {
    let mut v: Vec<String> = Vec::new();
    for i in 0..2048 {
        v.push(format!("w{:04}", i));
    }
    WordList::new(v).unwrap()
}

#[test]
fn test_token_bytes() {
    let bytes = token_bytes::<32>();
    assert_eq!(bytes.len(), 32);

    let bytes_16 = token_bytes::<16>();
    assert_eq!(bytes_16.len(), 16);
}

#[test]
fn test_bytes_to_bits() {
    let bytes = [0x0000, 0x0001, 0x0002, 0x0003];
    let test_bits = bytes_to_bits(&bytes);
    assert_eq!(test_bits.len(), bytes.len() * 8);
}

#[test]
fn test_bits_to_bytes_round_trip() {
    let bytes = [0x12u8, 0x34, 0xff, 0x00, 0x80];
    let bits = bytes_to_bits(&bytes);
    let back = bits_to_bytes(bits.as_slice());
    assert_eq!(back, bytes.to_vec());
}

#[test]
fn test_get_entropy_size() {
    assert_eq!(get_entropy_size(12), 128);
    assert_eq!(get_entropy_size(24), 256);
}

#[test]
fn test_generate_secret() {
    let words = make_words();
    let entropy = token_bytes::<16>();
    let mnemonic = generate_secret(&entropy, &words);
    assert!(mnemonic.is_ok());
    assert_eq!(mnemonic.unwrap().len(), 12);

    let entropy = token_bytes::<32>();
    let mnemonic = generate_secret(&entropy, &words);
    assert!(mnemonic.is_ok());
    assert_eq!(mnemonic.unwrap().len(), 24);
}

#[test]
fn test_invalid_entropy_value() {
    let words = make_words();
    let entropy = token_bytes::<20>();
    let mnemonic = generate_secret(&entropy, &words);
    assert!(mnemonic.is_err());
}

#[test]
fn test_mnemonic_to_entropy() {
    let words = make_words();
    let entropy = token_bytes::<16>();
    let mnemonic = generate_secret(&entropy, &words);
    assert!(mnemonic.is_ok());

    let entropy = mnemonic_to_entropy(mnemonic.unwrap(), &words);
    assert!(entropy.is_ok());
    assert_eq!(entropy.unwrap().len(), 16);

    let entropy = token_bytes::<32>();
    let mnemonic = generate_secret(&entropy, &words);
    assert!(mnemonic.is_ok());

    let entropy = mnemonic_to_entropy(mnemonic.unwrap(), &words);
    assert!(entropy.is_ok());
    assert_eq!(entropy.unwrap().len(), 32);
}

#[test]
fn test_round_trip_exact() {
    let words = make_words();
    let entropy = token_bytes::<32>();
    let mnemonic = generate_secret(&entropy, &words).unwrap();
    let back = mnemonic_to_entropy(mnemonic, &words).unwrap();
    assert_eq!(back, entropy.to_vec());

    let entropy = token_bytes::<16>();
    let mnemonic = generate_secret(&entropy, &words).unwrap();
    let back = mnemonic_to_entropy(mnemonic, &words).unwrap();
    assert_eq!(back, entropy.to_vec());
}

#[test]
fn test_encode_deterministic() {
    let words = make_words();
    let entropy = token_bytes::<32>();
    let first = generate_secret(&entropy, &words).unwrap();
    let second = generate_secret(&entropy, &words).unwrap();
    assert_eq!(first, second);
}

#[test]
fn test_fixture_zero_entropy() {
    // 32 zero bytes must map to 23 copies of word 0 followed by word 102:
    // the digest of 32 zero bytes starts with 0x66, so the last 11-bit group
    // is 000 0110 0110.
    let words = make_words();
    let entropy = [0u8; 32];
    let mnemonic = generate_secret(&entropy, &words).unwrap();
    assert_eq!(mnemonic.len(), 24);
    for j in 0..23 {
        assert_eq!(mnemonic[j], "w0000");
    }
    assert_eq!(mnemonic[23], "w0102");
}

#[test]
fn test_checksum_rejection() {
    let words = make_words();
    let entropy = [0u8; 32];
    let mut mnemonic = generate_secret(&entropy, &words).unwrap();
    // Replace one word with a different dictionary word.
    mnemonic[0] = String::from("w0001");
    let r = mnemonic_to_entropy(mnemonic, &words);
    assert_eq!(r, Err(LockerError::InvalidChecksum));
}

#[test]
fn test_unknown_word_rejection() {
    let words = make_words();
    let entropy = [0u8; 32];
    let mut mnemonic = generate_secret(&entropy, &words).unwrap();
    mnemonic[5] = String::from("not-a-word");
    let r = mnemonic_to_entropy(mnemonic, &words);
    assert_eq!(r, Err(LockerError::UnknownWord));
}

#[test]
fn test_invalid_mnemonic_length() {
    let words = make_words();
    let mnemonic = vec![String::from("w0000"); 13];
    let r = mnemonic_to_entropy(mnemonic, &words);
    assert_eq!(r, Err(LockerError::InvalidMnemonicLength));
}

#[test]
fn test_word_list_rejects_short_list() {
    let v = vec![String::from("a"); 10];
    assert!(WordList::new(v).is_err());
}

#[test]
fn test_word_list_rejects_duplicates() {
    let mut v: Vec<String> = Vec::new();
    for i in 0..2048 {
        v.push(format!("w{:04}", i));
    }
    v[100] = String::from("w0000");
    assert!(WordList::new(v).is_err());
}
