use vstd::prelude::*;

use crate::crypto::{hash160_of, hash_160, sha256_of};
use crate::errors::LockerError;
use crate::secret::{encode_words, generate_secret, token_bytes, valid_entropy_len};
use crate::wordlist::WordList;

verus! {

/// The space-joined rendering of a word sequence.
pub open spec fn join_spaced(ws: Seq<Seq<char>>) -> Seq<char>
    decreases ws.len(),
{
    if ws.len() == 0 {
        Seq::empty()
    } else if ws.len() == 1 {
        ws[0]
    } else {
        join_spaced(ws.drop_last()) + seq![' '] + ws.last()
    }
}

/// What PBKDF2 with HMAC-SHA-512 returns for a password, salt, round count
/// and output length; a fixed function of them alone.
pub uninterp spec fn pbkdf2_sha512_of(
    password: Seq<u8>,
    salt: Seq<u8>,
    rounds: u32,
    out_len: usize,
) -> Seq<u8>;

/// Relies on pbkdf2::pbkdf2_hmac with sha2::Sha512: fills `out_len` bytes
/// that depend on the password, salt and round count alone.
#[verifier::external_body]
fn pbkdf2_hmac_sha512(password: &[u8], salt: &[u8], rounds: u32, out_len: usize) -> (r: Vec<u8>)
    ensures
        r@ == pbkdf2_sha512_of(password@, salt@, rounds, out_len),
        r@.len() == out_len,
{
    let mut out = vec![0u8; out_len];
    pbkdf2::pbkdf2_hmac::<sha2::Sha512>(password, salt, rounds, &mut out);
    out
}

/// The 64-byte seed a mnemonic derives: PBKDF2-HMAC-SHA-512 over the
/// space-joined words, with the fixed salt "mnemonic" and 2048 rounds.
pub open spec fn seed_of_mnemonic(m: Seq<Seq<char>>) -> Seq<u8> {
    pbkdf2_sha512_of(
        vstd::utf8::encode_utf8(join_spaced(m)),
        vstd::utf8::encode_utf8("mnemonic"@),
        2048u32,
        64usize,
    )
}

/// Derives the 64-byte seed of a mnemonic by slow keyed hashing of its
/// space-joined words; a pure function of the words alone.
pub fn mnemonic_to_seed(mnemonic: &Vec<String>) -> (r: Vec<u8>)
    ensures
        r@ == seed_of_mnemonic(mnemonic.deep_view()),
        r@.len() == 64,
{
    let ghost mv = mnemonic.deep_view();
    let mut phrase = String::new();
    let mut i: usize = 0;
    while i < mnemonic.len()
        invariant
            i <= mv.len(),
            mv == mnemonic.deep_view(),
            mv.len() == mnemonic@.len(),
            phrase@ == join_spaced(mv.take(i as int)),
        decreases mv.len() - i,
    {
        if i > 0 {
            proof {
                reveal_strlit(" ");
            }
            phrase.append(" ");
            proof {
                assert(" "@ =~= seq![' ']);
            }
        }
        phrase.append(mnemonic[i].as_str());
        proof {
            assert(mnemonic@[i as int]@ == mv[i as int]);
            assert(mv.take(i + 1).drop_last() =~= mv.take(i as int));
            assert(mv.take(i + 1).last() == mv[i as int]);
            if i == 0 {
                assert(phrase@ =~= join_spaced(mv.take(1)));
            } else {
                assert(phrase@ =~= join_spaced(mv.take(i as int)) + seq![' '] + mv[i as int]);
            }
        }
        i += 1;
    }
    proof {
        assert(mv.take(mv.len() as int) =~= mv);
    }
    pbkdf2_hmac_sha512(phrase.as_str().as_bytes(), "mnemonic".as_bytes(), 2048, 64)
}

/// DETERMINISM: the seed is a pure function of the mnemonic's words; equal
/// word sequences give the identical seed. Together with
/// `mnemonic_to_seed`'s postcondition, which pins its result to
/// `seed_of_mnemonic`, two calls on equal mnemonics return equal seeds.
pub proof fn lemma_derive_deterministic(m1: Seq<Seq<char>>, m2: Seq<Seq<char>>)
    requires
        m1 == m2,
    ensures
        seed_of_mnemonic(m1) == seed_of_mnemonic(m2),
{
}

/// The big-endian integer value of a byte string.
pub open spec fn be_int(s: Seq<u8>) -> int
    decreases s.len(),
{
    if s.len() == 0 {
        0
    } else {
        be_int(s.drop_last()) * 256 + s.last()
    }
}

/// The order of the curve's scalar field.
pub open spec fn curve_order() -> int {
    0xFFFFFFFFFFFFFFFFFFFFFFFFFFFFFFFEBAAEDCE6AF48A03BBFD25E8CD0364141int
}

/// 32 big-endian bytes form a valid secret scalar when their value is
/// non-zero and below the curve order.
pub open spec fn valid_scalar(s: Seq<u8>) -> bool {
    s.len() == 32 && 0 < be_int(s) < curve_order()
}

/// The 33-byte compressed public point of a valid secret scalar; a fixed
/// function of the secret bytes alone.
pub uninterp spec fn pubkey_of(secret: Seq<u8>) -> Seq<u8>;

/// The DER-encoded deterministic (RFC 6979) signature of a 32-byte digest
/// under a valid secret scalar; a fixed function of the two alone.
pub uninterp spec fn ecdsa_der_sig_of(secret: Seq<u8>, digest: Seq<u8>) -> Seq<u8>;

/// Relies on secp256k1::SecretKey::from_secret_bytes, which accepts exactly
/// the 32-byte big-endian values in [1, curve order), and on
/// secp256k1::PublicKey::from_secret_key with PublicKey::serialize: the
/// 33-byte compressed public point depends on the secret bytes alone.
#[verifier::external_body]
fn derive_public_key(secret: &[u8]) -> (r: Option<Vec<u8>>)
    ensures
        r is Some <==> valid_scalar(secret@),
        r matches Some(pk) ==> pk@ == pubkey_of(secret@) && pk@.len() == 33,
{
    let arr: [u8; 32] = match secret.try_into() {
        Ok(a) => a,
        Err(_) => return None,
    };
    let sk = match secp256k1::SecretKey::from_secret_bytes(arr) {
        Ok(k) => k,
        Err(_) => return None,
    };
    Some(secp256k1::PublicKey::from_secret_key(&sk).serialize().to_vec())
}

/// Relies on secp256k1::ecdsa::sign (deterministic, RFC 6979 nonce) and
/// ecdsa::Signature::serialize_der (at most 72 bytes): the signature depends
/// on the secret scalar and the digest alone.
#[verifier::external_body]
fn sign_ecdsa_der(secret: &[u8], digest: &[u8; 32]) -> (r: Option<Vec<u8>>)
    ensures
        r is Some <==> valid_scalar(secret@),
        r matches Some(s) ==> s@ == ecdsa_der_sig_of(secret@, digest@) && s@.len() <= 72,
{
    let arr: [u8; 32] = match secret.try_into() {
        Ok(a) => a,
        Err(_) => return None,
    };
    let sk = match secp256k1::SecretKey::from_secret_bytes(arr) {
        Ok(k) => k,
        Err(_) => return None,
    };
    let sig = secp256k1::ecdsa::sign(secp256k1::Message::from_digest(*digest), &sk);
    Some(sig.serialize_der().to_vec())
}

/// The scalar candidate that entropy derives over a dictionary: the leading
/// 32 bytes of the seed of its mnemonic encoding.
pub open spec fn scalar_candidate(ent: Seq<u8>, wl: Seq<Seq<char>>) -> Seq<u8> {
    seed_of_mnemonic(encode_words(ent, sha256_of(ent), wl)).take(32)
}

/// An independently generated recovery keypair bound into the locking
/// script: a 32-byte secret scalar and its 33-byte compressed public point.
/// The secret scalar never leaves the instance.
pub struct GuardianWallet {
    sk: Vec<u8>,
    pk: Vec<u8>,
}

impl GuardianWallet {
    /// The secret scalar bytes, for specification only.
    pub closed spec fn sk_spec(&self) -> Seq<u8> {
        self.sk@
    }

    /// The compressed public point bytes, for specification only.
    pub closed spec fn pk_spec(&self) -> Seq<u8> {
        self.pk@
    }

    /// A wallet holds a valid scalar and exactly its public point.
    pub open spec fn wf(&self) -> bool {
        &&& valid_scalar(self.sk_spec())
        &&& self.pk_spec() == pubkey_of(self.sk_spec())
        &&& self.pk_spec().len() == 33
    }

    /// Derives the wallet that the given entropy determines: encode it to a
    /// mnemonic, derive the mnemonic's seed, and take the seed's leading 32
    /// bytes as the secret scalar. Fails with `KeyDerivationFailure` if and
    /// only if those bytes are not a valid scalar; no retry, no substitution.
    pub fn from_entropy(entropy: &[u8], words: &WordList) -> (r: Result<GuardianWallet, LockerError>)
        requires
            words.wf(),
        ensures
            match r {
                Ok(w) => {
                    &&& valid_entropy_len(entropy@.len() as int)
                    &&& w.wf()
                    &&& w.sk_spec() == scalar_candidate(entropy@, words@)
                },
                Err(e) => {
                    ||| {
                        &&& e == LockerError::InvalidEntropySize
                        &&& !valid_entropy_len(entropy@.len() as int)
                    }
                    ||| {
                        &&& e == LockerError::KeyDerivationFailure
                        &&& valid_entropy_len(entropy@.len() as int)
                        &&& !valid_scalar(scalar_candidate(entropy@, words@))
                    }
                },
            },
    {
        let mnemonic = match generate_secret(entropy, words) {
            Ok(m) => m,
            Err(e) => {
                return Err(e);
            },
        };
        let seed = mnemonic_to_seed(&mnemonic);
        let mut sk: Vec<u8> = Vec::new();
        let mut k: usize = 0;
        while k < 32
            invariant
                k <= 32,
                seed@.len() == 64,
                sk@ == seed@.take(k as int),
            decreases 32 - k,
        {
            sk.push(seed[k]);
            proof {
                assert(sk@ =~= seed@.take(k + 1));
            }
            k += 1;
        }
        proof {
            assert(sk@ == scalar_candidate(entropy@, words@));
        }
        match derive_public_key(sk.as_slice()) {
            Some(pk) => Ok(GuardianWallet { sk, pk }),
            None => Err(LockerError::KeyDerivationFailure),
        }
    }

    /// Draws fresh 32-byte entropy, encodes it to a mnemonic that is used
    /// only internally and discarded, and derives the wallet that entropy
    /// determines. Fails only when the derived bytes are no valid scalar.
    pub fn generate_new(words: &WordList) -> (r: Result<GuardianWallet, LockerError>)
        requires
            words.wf(),
        ensures
            match r {
                Ok(w) => {
                    &&& w.wf()
                    &&& exists|ent: Seq<u8>|
                        ent.len() == 32 && w.sk_spec() == scalar_candidate(ent, words@)
                },
                Err(e) => e == LockerError::KeyDerivationFailure,
            },
    {
        let entropy = token_bytes::<32>();
        let r = Self::from_entropy(entropy.as_slice(), words);
        match r {
            Ok(w) => {
                proof {
                    assert(entropy@.len() == 32);
                    assert(w.sk_spec() == scalar_candidate(entropy@, words@));
                }
                Ok(w)
            },
            Err(e) => {
                proof {
                    assert(e == LockerError::KeyDerivationFailure);
                }
                Err(e)
            },
        }
    }

    /// The 33-byte compressed public point.
    pub fn public_key(&self) -> (r: Vec<u8>)
        ensures
            r@ == self.pk_spec(),
    {
        self.pk.clone()
    }

    /// The 20-byte recipient commitment: hash160 of the compressed public
    /// point.
    pub fn public_key_commitment(&self) -> (r: Vec<u8>)
        ensures
            r@ == hash160_of(self.pk_spec()),
            r@.len() == 20,
    {
        hash_160(self.pk.as_slice())
    }

    /// Signs a 32-byte digest with the secret scalar, in DER form. Signing
    /// only reads the scalar and never exposes it; a well-formed wallet
    /// always succeeds.
    pub fn sign(&self, hashed_data: [u8; 32]) -> (r: Result<Vec<u8>, LockerError>)
        ensures
            self.wf() ==> r is Ok,
            match r {
                Ok(s) => {
                    &&& valid_scalar(self.sk_spec())
                    &&& s@ == ecdsa_der_sig_of(self.sk_spec(), hashed_data@)
                    &&& s@.len() <= 72
                },
                Err(e) => {
                    &&& e == LockerError::KeyDerivationFailure
                    &&& !valid_scalar(self.sk_spec())
                },
            },
    {
        match sign_ecdsa_der(self.sk.as_slice(), &hashed_data) {
            Some(s) => Ok(s),
            None => Err(LockerError::KeyDerivationFailure),
        }
    }
}

} // verus!
