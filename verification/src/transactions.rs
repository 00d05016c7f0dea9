use vstd::prelude::*;

use crate::crypto::{sha256, sha256_of};
use crate::errors::LockerError;

verus! {

/// The three networks a locking output can be encoded for.
#[derive(Clone, Copy, Debug, PartialEq, Eq, Structural)]
pub enum Network {
    Mainnet,
    Testnet,
    Regtest,
}

/// A small tag distinguishing the networks in specifications.
pub open spec fn net_tag(n: Network) -> int {
    match n {
        Network::Mainnet => 0,
        Network::Testnet => 1,
        Network::Regtest => 2,
    }
}

/// The leading characters of every segwit address of a network: its bech32
/// human-readable part followed by the separator.
pub open spec fn net_prefix(tag: int) -> Seq<char> {
    if tag == 0 {
        seq!['b', 'c', '1']
    } else if tag == 1 {
        seq!['t', 'b', '1']
    } else {
        seq!['b', 'c', 'r', 't', '1']
    }
}

/// The redeem script of the locker, byte for byte: HASH256, push the 32-byte
/// `secret_hash`, EQUALVERIFY, then DUP, HASH160, push the 20-byte
/// `recipient`, EQUALVERIFY, CHECKSIG. It requires a preimage whose digest
/// matches `secret_hash` and a signature under the key committed by
/// `recipient`.
pub open spec fn hash_lock_script(secret_hash: Seq<u8>, recipient: Seq<u8>) -> Seq<u8> {
    seq![0xaau8, 0x20u8] + secret_hash + seq![0x88u8, 0x76u8, 0xa9u8, 0x14u8] + recipient + seq![
        0x88u8,
        0xacu8,
    ]
}

/// A version-0 witness scriptPubKey committing to a 32-byte script hash:
/// the version opcode, then the pushed 32-byte program.
pub open spec fn witness_output(script_hash: Seq<u8>) -> Seq<u8> {
    seq![0x00u8, 0x20u8] + script_hash
}

/// The shape of a version-0, 32-byte witness-program scriptPubKey.
pub open spec fn is_p2wsh_output(s: Seq<u8>) -> bool {
    s.len() == 34 && s[0] == 0x00 && s[1] == 0x20
}

/// The locking output that a secret and a recipient commitment determine:
/// the witness output over the SHA-256 of the redeem script built from the
/// SHA-256 of the secret. Note that the digest committed into the script is
/// one SHA-256 pass over the secret while the script's preimage opcode is
/// HASH256, a double pass; the contracts state the committed bytes exactly
/// so the depth of each hash is pinned down.
pub open spec fn locker_output(secret: Seq<u8>, recipient: Seq<u8>) -> Seq<u8> {
    witness_output(sha256_of(hash_lock_script(sha256_of(secret), recipient)))
}

/// What bitcoin's address encoder returns for a recognized scriptPubKey
/// under a network tag; a fixed function of the two alone.
pub uninterp spec fn address_str_of(spk: Seq<u8>, tag: int) -> Seq<char>;

/// Appends all of `src` to `dst`.
fn append_bytes(dst: &mut Vec<u8>, src: &Vec<u8>)
    ensures
        final(dst)@ == old(dst)@ + src@,
{
    let mut i: usize = 0;
    while i < src.len()
        invariant
            i <= src@.len(),
            dst@ == old(dst)@ + src@.take(i as int),
        decreases src@.len() - i,
    {
        dst.push(src[i]);
        proof {
            assert(dst@ =~= old(dst)@ + src@.take(i + 1));
        }
        i += 1;
    }
    proof {
        assert(dst@ =~= old(dst)@ + src@);
    }
}

/// Builds the redeem script that locks funds until the secret behind
/// `secret_hash` is revealed and a signature under the key committed by
/// `recipient` is presented.
pub fn hash_lock_contract(secret_hash: &Vec<u8>, recipient: &Vec<u8>) -> (r: Vec<u8>)
    requires
        secret_hash@.len() == 32,
        recipient@.len() == 20,
    ensures
        r@ == hash_lock_script(secret_hash@, recipient@),
        r@.len() == 60,
{
    let mut s: Vec<u8> = Vec::new();
    s.push(0xaa);
    s.push(0x20);
    append_bytes(&mut s, secret_hash);
    s.push(0x88);
    s.push(0x76);
    s.push(0xa9);
    s.push(0x14);
    append_bytes(&mut s, recipient);
    s.push(0x88);
    s.push(0xac);
    proof {
        assert(s@ =~= hash_lock_script(secret_hash@, recipient@));
    }
    s
}

/// Builds the version-0 witness scriptPubKey for a 32-byte script hash.
pub fn pub_key_contract(script_hash: &Vec<u8>) -> (r: Vec<u8>)
    requires
        script_hash@.len() == 32,
    ensures
        r@ == witness_output(script_hash@),
        is_p2wsh_output(r@),
{
    let mut s: Vec<u8> = Vec::new();
    s.push(0x00);
    s.push(0x20);
    append_bytes(&mut s, script_hash);
    proof {
        assert(s@ =~= witness_output(script_hash@));
    }
    s
}

/// Relies on bitcoin::Address::from_script, which recognizes every version-0
/// 32-byte witness-program scriptPubKey, and on its Display impl: a segwit
/// address is the bech32 string "hrp || '1' || data" with hrp "bc" on
/// mainnet, "tb" on testnet and "bcrt" on regtest; the string is a function
/// of the script bytes and the network alone.
#[verifier::external_body]
fn encode_address(spk: &Vec<u8>, network: Network) -> (r: Option<String>)
    ensures
        is_p2wsh_output(spk@) ==> r is Some,
        r matches Some(a) ==> a@ == address_str_of(spk@, net_tag(network)),
        r matches Some(a) ==> (is_p2wsh_output(spk@) ==> net_prefix(net_tag(network)).is_prefix_of(
            a@,
        )),
{
    let net = match network {
        Network::Mainnet => bitcoin::Network::Bitcoin,
        Network::Testnet => bitcoin::Network::Testnet,
        Network::Regtest => bitcoin::Network::Regtest,
    };
    let script = bitcoin::Script::from_bytes(spk.as_slice());
    match bitcoin::Address::from_script(script, net) {
        Ok(a) => Some(a.to_string()),
        Err(_) => None,
    }
}

/// Builds the network-tagged pay-to-witness-script-hash address of the
/// locker for a secret: hash the secret, build the redeem script with the
/// recipient commitment, hash the script into the witness output, and encode
/// it for the network. Never fails: the output shape is always recognized.
pub fn generate_p2wsh_address(secret: &[u8], recipient: &Vec<u8>, network: Network) -> (r: Result<
    String,
    LockerError,
>)
    requires
        recipient@.len() == 20,
    ensures
        r is Ok,
        r matches Ok(a) ==> {
            &&& a@ == address_str_of(locker_output(secret@, recipient@), net_tag(network))
            &&& net_prefix(net_tag(network)).is_prefix_of(a@)
        },
{
    let secret_hash = sha256(secret);
    let script = hash_lock_contract(&secret_hash, recipient);
    let script_hash = sha256(script.as_slice());
    let spk = pub_key_contract(&script_hash);
    match encode_address(&spk, network) {
        Some(a) => Ok(a),
        None => Err(LockerError::AddressEncodingFailure),
    }
}

/// NETWORK TAGGING: the same locking output encoded under two different
/// networks gives two different strings. The hypotheses are exactly what
/// `generate_p2wsh_address` ensures of its two results.
pub proof fn lemma_network_tagging(
    spk: Seq<u8>,
    n1: Network,
    n2: Network,
    a1: Seq<char>,
    a2: Seq<char>,
)
    requires
        n1 != n2,
        a1 == address_str_of(spk, net_tag(n1)),
        net_prefix(net_tag(n1)).is_prefix_of(a1),
        a2 == address_str_of(spk, net_tag(n2)),
        net_prefix(net_tag(n2)).is_prefix_of(a2),
    ensures
        a1 != a2,
{
    let p1 = net_prefix(net_tag(n1));
    let p2 = net_prefix(net_tag(n2));
    assert(a1[0] == p1[0] && a1[1] == p1[1] && a1[2] == p1[2]);
    assert(a2[0] == p2[0] && a2[1] == p2[1] && a2[2] == p2[2]);
    if a1 == a2 {
        if net_tag(n1) == 1 || net_tag(n2) == 1 {
            assert(a1[0] != a2[0]);
        } else {
            assert(a1[2] != a2[2]);
        }
        assert(false);
    }
}

} // verus!
