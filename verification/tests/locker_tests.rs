use coinslock_rust::crypto::{hash_160, sha256};
use coinslock_rust::locker::create_locker;
use coinslock_rust::transactions::{
    generate_p2wsh_address, hash_lock_contract, pub_key_contract, Network,
};
use coinslock_rust::wordlist::WordList;

fn locker_words() -> WordList {
    let mut v: Vec<String> = Vec::new();
    for i in 0..2048 {
        v.push(format!("w{:04}", i));
    }
    WordList::new(v).unwrap()
}

#[test]
fn test_hash_lock_contract_bytes() {
    let secret_hash = vec![0xabu8; 32];
    let recipient = vec![0xcdu8; 20];
    let script = hash_lock_contract(&secret_hash, &recipient);
    assert_eq!(script.len(), 60);
    assert_eq!(script[0], 0xaa); // HASH256
    assert_eq!(script[1], 0x20); // push 32
    assert_eq!(&script[2..34], secret_hash.as_slice());
    assert_eq!(script[34], 0x88); // EQUALVERIFY
    assert_eq!(script[35], 0x76); // DUP
    assert_eq!(script[36], 0xa9); // HASH160
    assert_eq!(script[37], 0x14); // push 20
    assert_eq!(&script[38..58], recipient.as_slice());
    assert_eq!(script[58], 0x88); // EQUALVERIFY
    assert_eq!(script[59], 0xac); // CHECKSIG
}

#[test]
fn test_pub_key_contract_bytes() {
    let script_hash = vec![0x11u8; 32];
    let spk = pub_key_contract(&script_hash);
    assert_eq!(spk.len(), 34);
    assert_eq!(spk[0], 0x00);
    assert_eq!(spk[1], 0x20);
    assert_eq!(&spk[2..], script_hash.as_slice());
}

#[test]
fn test_network_tagging() {
    let secret = [9u8; 32];
    let recipient = vec![0x42u8; 20];
    let main = generate_p2wsh_address(&secret, &recipient, Network::Mainnet).unwrap();
    let test = generate_p2wsh_address(&secret, &recipient, Network::Testnet).unwrap();
    let reg = generate_p2wsh_address(&secret, &recipient, Network::Regtest).unwrap();

    assert!(main.starts_with("bc1"));
    assert!(test.starts_with("tb1"));
    assert!(reg.starts_with("bcrt1"));
    assert_ne!(main, test);
    assert_ne!(main, reg);
    assert_ne!(test, reg);

    // Each decodes back to the identical witness program.
    let secret_hash = sha256(&secret);
    let script = hash_lock_contract(&secret_hash, &recipient);
    let script_hash = sha256(script.as_slice());
    let expected_spk = pub_key_contract(&script_hash);

    for addr in [main, test, reg] {
        let parsed: bitcoin::Address<bitcoin::address::NetworkUnchecked> = addr.parse().unwrap();
        let spk = parsed.assume_checked().script_pubkey();
        assert_eq!(spk.as_bytes(), expected_spk.as_slice());
    }
}

#[test]
fn test_address_deterministic() {
    let secret = [1u8; 16];
    let recipient = vec![0x24u8; 20];
    let first = generate_p2wsh_address(&secret, &recipient, Network::Regtest).unwrap();
    let second = generate_p2wsh_address(&secret, &recipient, Network::Regtest).unwrap();
    assert_eq!(first, second);
}

#[test]
fn test_create_locker() {
    let words = locker_words();
    let locker = create_locker(&words, Network::Regtest).unwrap();
    assert_eq!(locker.mnemonic.len(), 24);
    assert_eq!(locker.recipient_commitment.len(), 20);
    assert!(locker.address.starts_with("bcrt1"));
}

#[test]
fn test_commitment_matches_guardian_key() {
    let words = locker_words();
    let wallet =
        coinslock_rust::address::GuardianWallet::from_entropy(&[5u8; 32], &words).unwrap();
    let commitment = wallet.public_key_commitment();
    assert_eq!(commitment, hash_160(wallet.public_key().as_slice()));
}
