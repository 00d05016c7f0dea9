use vstd::prelude::*;

use crate::address::{pubkey_of, valid_scalar, GuardianWallet};
use crate::crypto::{hash160_of, sha256_of};
use crate::errors::LockerError;
use crate::secret::{encode_words, generate_secret, token_bytes, valid_entropy_len};
use crate::transactions::{
    address_str_of, generate_p2wsh_address, locker_output, net_prefix, net_tag, Network,
};
use crate::wordlist::WordList;

verus! {

/// One created locker: the mnemonic that reveals the secret, the
/// network-tagged address of the locking output, and the recipient
/// commitment of the guardian key. No secret scalar and no seed is kept.
pub struct Locker {
    pub mnemonic: Vec<String>,
    pub address: String,
    pub recipient_commitment: Vec<u8>,
}

/// The locker's fields are exactly what entropy `ent` and a guardian secret
/// scalar `sk` determine over dictionary `wl` under the network: the
/// mnemonic encodes `ent`, the commitment is the hash160 of the scalar's
/// public point, and the address encodes the locking output built from the
/// digest of `ent` and that commitment.
pub open spec fn locker_matches(
    l: Locker,
    ent: Seq<u8>,
    sk: Seq<u8>,
    wl: Seq<Seq<char>>,
    network: Network,
) -> bool {
    &&& l.mnemonic.deep_view() == encode_words(ent, sha256_of(ent), wl)
    &&& l.recipient_commitment@ == hash160_of(pubkey_of(sk))
    &&& l.recipient_commitment@.len() == 20
    &&& l.address@ == address_str_of(
        locker_output(ent, hash160_of(pubkey_of(sk))),
        net_tag(network),
    )
    &&& net_prefix(net_tag(network)).is_prefix_of(l.address@)
}

/// Assembles the locker that the given entropy and guardian wallet
/// determine: encode the mnemonic, commit to the guardian key, and build the
/// network-tagged address over the secret's digest. Fails if and only if the
/// entropy length is invalid; no partial locker is ever returned.
pub fn assemble_locker(
    entropy: &[u8],
    guardian: &GuardianWallet,
    words: &WordList,
    network: Network,
) -> (r: Result<Locker, LockerError>)
    requires
        words.wf(),
        guardian.wf(),
    ensures
        match r {
            Ok(l) => {
                &&& valid_entropy_len(entropy@.len() as int)
                &&& locker_matches(l, entropy@, guardian.sk_spec(), words@, network)
            },
            Err(e) => {
                &&& e == LockerError::InvalidEntropySize
                &&& !valid_entropy_len(entropy@.len() as int)
            },
        },
{
    let mnemonic = match generate_secret(entropy, words) {
        Ok(m) => m,
        Err(e) => {
            return Err(e);
        },
    };
    let commitment = guardian.public_key_commitment();
    let address = match generate_p2wsh_address(entropy, &commitment, network) {
        Ok(a) => a,
        Err(e) => {
            return Err(e);
        },
    };
    Ok(Locker { mnemonic, address, recipient_commitment: commitment })
}

/// Creates one locker: draw fresh 32-byte entropy, generate an independent
/// guardian wallet, and assemble the mnemonic, address and commitment. The
/// guardian's secret scalar is neither returned nor persisted; any failure
/// aborts the whole operation.
pub fn create_locker(words: &WordList, network: Network) -> (r: Result<Locker, LockerError>)
    requires
        words.wf(),
    ensures
        match r {
            Ok(l) => {
                &&& l.mnemonic@.len() == 24
                &&& l.recipient_commitment@.len() == 20
                &&& net_prefix(net_tag(network)).is_prefix_of(l.address@)
                &&& exists|ent: Seq<u8>, sk: Seq<u8>|
                    ent.len() == 32 && valid_scalar(sk) && locker_matches(
                        l,
                        ent,
                        sk,
                        words@,
                        network,
                    )
            },
            Err(e) => e == LockerError::KeyDerivationFailure,
        },
{
    let entropy = token_bytes::<32>();
    let guardian = match GuardianWallet::generate_new(words) {
        Ok(g) => g,
        Err(e) => {
            return Err(e);
        },
    };
    let r = assemble_locker(entropy.as_slice(), &guardian, words, network);
    match r {
        Ok(l) => {
            proof {
                assert(locker_matches(l, entropy@, guardian.sk_spec(), words@, network));
                assert(valid_scalar(guardian.sk_spec()));
                assert(l.mnemonic.deep_view().len() == 24);
            }
            Ok(l)
        },
        Err(e) => {
            proof {
                assert(false);
            }
            Err(e)
        },
    }
}

} // verus!
