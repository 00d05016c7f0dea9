use coinslock_rust::address::{mnemonic_to_seed, GuardianWallet};
use coinslock_rust::crypto::to_hex;
use coinslock_rust::wordlist::WordList;

fn guardian_words() -> WordList {
    let mut v: Vec<String> = Vec::new();
    for i in 0..2048 {
        v.push(format!("w{:04}", i));
    }
    WordList::new(v).unwrap()
}

#[test]
fn test_mnemonic_to_seed_fixture() {
    // The reference seed of the twelve-word phrase "abandon ... about" with
    // the fixed salt and 2048 rounds.
    let mut mnemonic = vec![String::from("abandon"); 11];
    mnemonic.push(String::from("about"));
    let seed = mnemonic_to_seed(&mnemonic);
    assert_eq!(seed.len(), 64);
    assert_eq!(
        to_hex(seed.as_slice()),
        "5eb00bbddcf069084889a8ab9155568165f5c453ccb85e70811aaed6f6da5fc1\
         9a5ac40b389cd370d086206dec8aa6c43daea6690f20ad3d8d48b2d2ce9e38e4"
    );
}

#[test]
fn test_mnemonic_to_seed_deterministic() {
    let mnemonic = vec![String::from("w0000"); 12];
    assert_eq!(mnemonic_to_seed(&mnemonic), mnemonic_to_seed(&mnemonic));
}

#[test]
fn test_generate_new() {
    let words = guardian_words();
    let wallet = GuardianWallet::generate_new(&words).unwrap();
    assert_eq!(wallet.public_key().len(), 33);
}

#[test]
fn test_public_key_commitment() {
    let words = guardian_words();
    let wallet = GuardianWallet::generate_new(&words).unwrap();
    let commitment = wallet.public_key_commitment();
    assert_eq!(commitment.len(), 20);
}

#[test]
fn test_sign() {
    let words = guardian_words();
    let wallet = GuardianWallet::generate_new(&words).unwrap();
    let hashed_data = [0u8; 32];
    let signature = wallet.sign(hashed_data);
    assert!(signature.is_ok());
    let der = signature.unwrap();
    assert!(der.len() <= 72);
    assert!(der.len() >= 8);
}

#[test]
fn test_sign_verifies_against_own_key() {
    let words = guardian_words();
    let wallet = GuardianWallet::generate_new(&words).unwrap();
    let digest = [7u8; 32];
    let der = wallet.sign(digest).unwrap();

    let pk = secp256k1::PublicKey::from_slice(wallet.public_key().as_slice()).unwrap();
    let sig = secp256k1::ecdsa::Signature::from_der(der.as_slice()).unwrap();
    let msg = secp256k1::Message::from_digest(digest);
    assert!(secp256k1::ecdsa::verify(&sig, msg, &pk).is_ok());
}

#[test]
fn test_sign_fails_against_other_digest() {
    let words = guardian_words();
    let wallet = GuardianWallet::generate_new(&words).unwrap();
    let digest = [7u8; 32];
    let der = wallet.sign(digest).unwrap();

    let pk = secp256k1::PublicKey::from_slice(wallet.public_key().as_slice()).unwrap();
    let sig = secp256k1::ecdsa::Signature::from_der(der.as_slice()).unwrap();
    let other = secp256k1::Message::from_digest([8u8; 32]);
    assert!(secp256k1::ecdsa::verify(&sig, other, &pk).is_err());
}

#[test]
fn test_sign_fails_against_other_key() {
    let words = guardian_words();
    let wallet = GuardianWallet::generate_new(&words).unwrap();
    let stranger = GuardianWallet::generate_new(&words).unwrap();
    let digest = [7u8; 32];
    let der = wallet.sign(digest).unwrap();

    let other_pk = secp256k1::PublicKey::from_slice(stranger.public_key().as_slice()).unwrap();
    let sig = secp256k1::ecdsa::Signature::from_der(der.as_slice()).unwrap();
    let msg = secp256k1::Message::from_digest(digest);
    assert!(secp256k1::ecdsa::verify(&sig, msg, &other_pk).is_err());
}

#[test]
fn test_deterministic_wallet_from_entropy() {
    let words = guardian_words();
    let entropy = [3u8; 32];
    let first = GuardianWallet::from_entropy(&entropy, &words).unwrap();
    let second = GuardianWallet::from_entropy(&entropy, &words).unwrap();
    assert_eq!(first.public_key(), second.public_key());
    assert_eq!(first.public_key_commitment(), second.public_key_commitment());
}
