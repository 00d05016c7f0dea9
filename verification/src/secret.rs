use vstd::prelude::*;

use crate::bits::{
    bits_of_bytes, bits_of_index, bits_to_bytes, bytes_of_bits, bytes_to_bits, group_val, idx_bit,
    is_bits, lemma_bytes_of_bits_of_bytes, lemma_group_roundtrip, lemma_group_val_bound,
};
use crate::crypto::{sha256, sha256_of};
use crate::errors::LockerError;
use crate::wordlist::{distinct_words, WordList};

verus! {

/// Entropy buffers are 16 or 32 bytes, nothing else.
pub open spec fn valid_entropy_len(n: int) -> bool {
    n == 16 || n == 32
}

/// Mnemonics are 12 or 24 words, nothing else.
pub open spec fn valid_mnemonic_len(n: int) -> bool {
    n == 12 || n == 24
}

/// How many checksum bits follow `n` bytes of entropy: one per 32 entropy bits.
pub open spec fn cs_bits_len(n: int) -> int {
    n * 8 / 32
}

/// How many words encode `n` bytes of entropy: 12 for 16 bytes, 24 for 32.
pub open spec fn word_count(n: int) -> int {
    (n * 8 + cs_bits_len(n)) / 11
}

/// How many entropy bits a mnemonic of `n` words carries: 128 or 256.
pub open spec fn ent_bits_len(n: int) -> int {
    n * 32 / 3
}

/// The bit stream that a mnemonic encodes: the entropy bits followed by the
/// leading checksum bits of the entropy's digest `cs`.
pub open spec fn total_bits(e: Seq<u8>, cs: Seq<u8>) -> Seq<u8> {
    bits_of_bytes(e) + bits_of_bytes(cs).take(cs_bits_len(e.len() as int))
}

/// The dictionary index of word `j` of the mnemonic for entropy `e` with
/// digest `cs`: the value of the j-th 11-bit group of the bit stream.
pub open spec fn mnemonic_index(e: Seq<u8>, cs: Seq<u8>, j: int) -> u16 {
    group_val(total_bits(e, cs).subrange(11 * j, 11 * j + 11))
}

/// The mnemonic encoding of entropy `e` with digest `cs` over dictionary `wl`.
pub open spec fn encode_words(e: Seq<u8>, cs: Seq<u8>, wl: Seq<Seq<char>>) -> Seq<Seq<char>> {
    Seq::new(word_count(e.len() as int) as nat, |j: int| wl[mnemonic_index(e, cs, j) as int])
}

/// `w` reads as some word of the dictionary.
pub open spec fn word_known(wl: Seq<Seq<char>>, w: Seq<char>) -> bool {
    exists|i: int| 0 <= i < wl.len() && wl[i] == w
}

/// Every word of the mnemonic is in the dictionary.
pub open spec fn all_known(m: Seq<Seq<char>>, wl: Seq<Seq<char>>) -> bool {
    forall|j: int| 0 <= j < m.len() ==> word_known(wl, m[j])
}

/// The dictionary index of `w`; meaningful only when `w` is a known word of a
/// distinct dictionary, where it is the unique such index.
pub open spec fn index_of_word(wl: Seq<Seq<char>>, w: Seq<char>) -> int {
    choose|i: int| 0 <= i < wl.len() && wl[i] == w
}

/// The bit stream recovered from a mnemonic: 11 bits per word index.
pub open spec fn decode_bits(m: Seq<Seq<char>>, wl: Seq<Seq<char>>) -> Seq<u8> {
    Seq::new((m.len() * 11) as nat, |k: int| idx_bit(index_of_word(wl, m[k / 11]) as u16, k % 11))
}

/// The entropy bytes recovered from a mnemonic: the leading entropy bits of
/// the recovered stream, packed into bytes.
pub open spec fn decoded_entropy(m: Seq<Seq<char>>, wl: Seq<Seq<char>>) -> Seq<u8> {
    bytes_of_bits(decode_bits(m, wl).take(ent_bits_len(m.len() as int)))
}

/// The trailing bits of the recovered stream equal the leading checksum bits
/// of digest `cs`, bit for bit.
pub open spec fn checksum_matches(m: Seq<Seq<char>>, wl: Seq<Seq<char>>, cs: Seq<u8>) -> bool {
    forall|k: int|
        0 <= k < cs_bits_len(ent_bits_len(m.len() as int) / 8) ==> decode_bits(m, wl)[ent_bits_len(
            m.len() as int,
        ) + k] == bits_of_bytes(cs)[k]
}

/// Relies on rand's thread-local CSPRNG (rand::rng with Rng::fill_bytes):
/// fills `T` fresh bytes; nothing is assumed of their values.
#[verifier::external_body]
pub fn token_bytes<const T: usize>() -> (r: [u8; T])
    ensures
        r@.len() == T,
{
    let mut rng = rand::rng();
    let mut entropy = [0u8; T];
    rand::Rng::fill_bytes(&mut rng, &mut entropy);
    entropy
}

/// The number of entropy bits a mnemonic of the given length carries.
pub fn get_entropy_size(mnemonic_len: usize) -> (r: usize)
    requires
        valid_mnemonic_len(mnemonic_len as int),
    ensures
        r == ent_bits_len(mnemonic_len as int),
{
    if mnemonic_len == 12 {
        128
    } else {
        256
    }
}

/// Encodes entropy as a mnemonic: the entropy bits followed by the leading
/// checksum bits of its SHA-256 digest, read as 11-bit dictionary indices.
///
/// Returns exactly 12 words for 16-byte entropy and 24 words for 32-byte
/// entropy, and fails if and only if the entropy has any other length.
#[verifier::rlimit(60)]
pub fn generate_secret(entropy: &[u8], words: &WordList) -> (r: Result<Vec<String>, LockerError>)
    requires
        words.wf(),
    ensures
        match r {
            Ok(m) => {
                &&& valid_entropy_len(entropy@.len() as int)
                &&& m.deep_view() == encode_words(entropy@, sha256_of(entropy@), words@)
                &&& m@.len() == word_count(entropy@.len() as int)
                &&& (entropy@.len() == 16 ==> m@.len() == 12)
                &&& (entropy@.len() == 32 ==> m@.len() == 24)
            },
            Err(e) => {
                &&& e == LockerError::InvalidEntropySize
                &&& !valid_entropy_len(entropy@.len() as int)
            },
        },
{
    let n = entropy.len();
    if !(n == 16 || n == 32) {
        return Err(LockerError::InvalidEntropySize);
    }
    let checksum = sha256(entropy);
    let mut bits = bytes_to_bits(entropy);
    let cbits = bytes_to_bits(checksum.as_slice());
    let cs_len = n / 4;
    let ghost total = total_bits(entropy@, sha256_of(entropy@));
    proof {
        assert(cs_len == cs_bits_len(n as int));
    }
    let mut t: usize = 0;
    while t < cs_len
        invariant
            t <= cs_len,
            cs_len == cs_bits_len(entropy@.len() as int),
            cs_len <= 8,
            cbits@ == bits_of_bytes(sha256_of(entropy@)),
            cbits@.len() == 256,
            bits@ == bits_of_bytes(entropy@) + bits_of_bytes(sha256_of(entropy@)).take(t as int),
        decreases cs_len - t,
    {
        bits.push(cbits[t]);
        proof {
            assert(bits@ =~= bits_of_bytes(entropy@) + bits_of_bytes(sha256_of(entropy@)).take(
                t + 1,
            ));
        }
        t += 1;
    }
    proof {
        assert(bits@ == total);
        assert(is_bits(total));
        assert(total.len() == 8 * entropy@.len() + cs_bits_len(entropy@.len() as int));
    }
    let count = if n == 16 {
        12
    } else {
        24
    };
    proof {
        assert(count == word_count(entropy@.len() as int));
        assert(11 * count == total.len());
    }
    let mut m: Vec<String> = Vec::new();
    let mut j: usize = 0;
    while j < count
        invariant
            j <= count,
            words.wf(),
            count == word_count(entropy@.len() as int),
            bits@ == total,
            total == total_bits(entropy@, sha256_of(entropy@)),
            is_bits(total),
            11 * count == total.len(),
            count <= 24,
            m@.len() == j,
            m.deep_view().len() == j,
            forall|u: int|
                0 <= u < j ==> m.deep_view()[u] == words@[mnemonic_index(
                    entropy@,
                    sha256_of(entropy@),
                    u,
                ) as int],
        decreases count - j,
    {
        let p = 11 * j;
        proof {
            assert(11 * j + 11 <= 11 * count);
            assert(p + 10 < bits@.len());
        }
        let v: u16 = (bits[p] as u16) * 1024 + (bits[p + 1] as u16) * 512 + (bits[p + 2] as u16)
            * 256 + (bits[p + 3] as u16) * 128 + (bits[p + 4] as u16) * 64 + (bits[p + 5] as u16)
            * 32 + (bits[p + 6] as u16) * 16 + (bits[p + 7] as u16) * 8 + (bits[p + 8] as u16) * 4
            + (bits[p + 9] as u16) * 2 + (bits[p + 10] as u16);
        proof {
            let g = total.subrange(11 * (j as int), 11 * (j as int) + 11);
            assert forall|u: int| 0 <= u < 11 implies g[u] == total[11 * (j as int) + u] by {}
            lemma_group_val_bound(g);
            assert(v == group_val(g));
            assert(v == mnemonic_index(entropy@, sha256_of(entropy@), j as int));
            assert(v < 2048);
        }
        let ghost prev = m.deep_view();
        let ghost prev_vec = m@;
        let w = words.word_at(v as usize);
        let ghost wv = w@;
        m.push(w);
        proof {
            assert(m@ == prev_vec.push(w));
            assert forall|u: int|
                0 <= u < j + 1 implies m.deep_view()[u] == words@[mnemonic_index(
                entropy@,
                sha256_of(entropy@),
                u,
            ) as int] by {
                if u < j {
                    assert(m@[u] == prev_vec[u]);
                    assert(m.deep_view()[u] == prev[u]);
                    assert(prev[u] == words@[mnemonic_index(entropy@, sha256_of(entropy@), u) as int]);
                } else {
                    assert(m.deep_view()[j as int] == wv);
                    assert(wv == words@[mnemonic_index(entropy@, sha256_of(entropy@), j as int) as int]);
                }
            }
        }
        j += 1;
    }
    proof {
        assert(m.deep_view() =~= encode_words(entropy@, sha256_of(entropy@), words@));
    }
    Ok(m)
}

/// Decodes a mnemonic back to its entropy: each word is replaced by its
/// 11-bit dictionary index, the leading bits are packed into entropy bytes,
/// and the trailing bits are checked against the recovered entropy's digest.
///
/// Fails with `InvalidMnemonicLength` if and only if the word count is
/// neither 12 nor 24; else with `UnknownWord` if and only if some word is not
/// in the dictionary; else with `InvalidChecksum` if and only if the trailing
/// bits do not match the recomputed checksum.
pub fn mnemonic_to_entropy(mnemonic: Vec<String>, words: &WordList) -> (r: Result<
    Vec<u8>,
    LockerError,
>)
    requires
        words.wf(),
    ensures
        match r {
            Ok(e) => {
                &&& valid_mnemonic_len(mnemonic.deep_view().len() as int)
                &&& all_known(mnemonic.deep_view(), words@)
                &&& e@ == decoded_entropy(mnemonic.deep_view(), words@)
                &&& 8 * e@.len() == ent_bits_len(mnemonic.deep_view().len() as int)
                &&& checksum_matches(mnemonic.deep_view(), words@, sha256_of(e@))
            },
            Err(e) => {
                ||| {
                    &&& e == LockerError::InvalidMnemonicLength
                    &&& !valid_mnemonic_len(mnemonic.deep_view().len() as int)
                }
                ||| {
                    &&& e == LockerError::UnknownWord
                    &&& valid_mnemonic_len(mnemonic.deep_view().len() as int)
                    &&& !all_known(mnemonic.deep_view(), words@)
                }
                ||| {
                    &&& e == LockerError::InvalidChecksum
                    &&& valid_mnemonic_len(mnemonic.deep_view().len() as int)
                    &&& all_known(mnemonic.deep_view(), words@)
                    &&& !checksum_matches(
                        mnemonic.deep_view(),
                        words@,
                        sha256_of(decoded_entropy(mnemonic.deep_view(), words@)),
                    )
                }
            },
        },
{
    let ghost m = mnemonic.deep_view();
    let ghost wl = words@;
    let len = mnemonic.len();
    if !(len == 12 || len == 24) {
        return Err(LockerError::InvalidMnemonicLength);
    }
    let mut bits: Vec<u8> = Vec::new();
    let mut j: usize = 0;
    while j < len
        invariant
            j <= len,
            len == m.len(),
            valid_mnemonic_len(len as int),
            words.wf(),
            m == mnemonic.deep_view(),
            wl == words@,
            bits@.len() == 11 * j,
            forall|u: int| 0 <= u < j ==> word_known(wl, m[u]),
            forall|k: int|
                0 <= k < bits@.len() ==> bits@[k] == idx_bit(
                    index_of_word(wl, m[k / 11]) as u16,
                    k % 11,
                ),
        decreases len - j,
    {
        proof {
            assert(m[j as int] == mnemonic@[j as int]@);
        }
        let found = words.find(&mnemonic[j]);
        match found {
            None => {
                proof {
                    assert(!word_known(wl, m[j as int]));
                }
                return Err(LockerError::UnknownWord);
            },
            Some(i) => {
                proof {
                    assert(wl[i as int] == m[j as int]);
                    assert(word_known(wl, m[j as int]));
                    let i2 = index_of_word(wl, m[j as int]);
                    assert(0 <= i2 < wl.len() && wl[i2] == m[j as int]);
                    if i2 != i as int {
                        assert(false);
                    }
                    assert(i < 2048);
                }
                let idx = i as u16;
                let mut k: usize = 0;
                while k < 11
                    invariant
                        k <= 11,
                        j < len == m.len(),
                        m == mnemonic.deep_view(),
                        wl == words@,
                        idx == index_of_word(wl, m[j as int]) as u16,
                        bits@.len() == 11 * j + k,
                        forall|t: int|
                            0 <= t < bits@.len() ==> bits@[t] == idx_bit(
                                index_of_word(wl, m[t / 11]) as u16,
                                t % 11,
                            ),
                    decreases 11 - k,
                {
                    let sh: u16 = (10 - k) as u16;
                    let bit: u8 = if (idx >> sh) & 1 == 1 {
                        1
                    } else {
                        0
                    };
                    proof {
                        assert(bit == idx_bit(idx, k as int));
                        assert((11 * j + k) / 11 == j as int && (11 * j + k) % 11 == k as int);
                    }
                    bits.push(bit);
                    k += 1;
                }
            },
        }
        j += 1;
    }
    proof {
        assert(bits@ =~= decode_bits(m, wl));
        assert(all_known(m, wl));
        assert(is_bits(bits@));
    }
    let ent_bits = get_entropy_size(len);
    let cs_len = ent_bits / 32;
    proof {
        assert(ent_bits + cs_len == 11 * len);
        assert(ent_bits % 8 == 0);
    }
    let mut ebits: Vec<u8> = Vec::new();
    let mut k: usize = 0;
    while k < ent_bits
        invariant
            k <= ent_bits,
            ent_bits < bits@.len(),
            is_bits(bits@),
            ebits@ == bits@.take(k as int),
        decreases ent_bits - k,
    {
        ebits.push(bits[k]);
        proof {
            assert(ebits@ =~= bits@.take(k + 1));
        }
        k += 1;
    }
    let entropy = bits_to_bytes(ebits.as_slice());
    proof {
        assert(entropy@ == decoded_entropy(m, wl));
        assert(8 * entropy@.len() == ent_bits_len(m.len() as int));
    }
    let checksum = sha256(entropy.as_slice());
    let cbits = bytes_to_bits(checksum.as_slice());
    let mut k2: usize = 0;
    while k2 < cs_len
        invariant
            k2 <= cs_len,
            m == mnemonic.deep_view(),
            wl == words@,
            valid_mnemonic_len(m.len() as int),
            all_known(m, wl),
            ent_bits == ent_bits_len(m.len() as int),
            cs_len == cs_bits_len(ent_bits_len(m.len() as int) / 8),
            cs_len <= 8,
            ent_bits <= 256,
            ent_bits + cs_len == bits@.len(),
            bits@ == decode_bits(m, wl),
            entropy@ == decoded_entropy(m, wl),
            8 * entropy@.len() == ent_bits_len(m.len() as int),
            cbits@ == bits_of_bytes(sha256_of(entropy@)),
            cbits@.len() == 256,
            forall|u: int|
                0 <= u < k2 ==> decode_bits(m, wl)[ent_bits_len(m.len() as int) + u]
                    == bits_of_bytes(sha256_of(entropy@))[u],
        decreases cs_len - k2,
    {
        proof {
            assert(ent_bits + k2 < bits@.len());
        }
        if bits[ent_bits + k2] != cbits[k2] {
            proof {
                assert(!checksum_matches(m, wl, sha256_of(entropy@)));
            }
            return Err(LockerError::InvalidChecksum);
        }
        k2 += 1;
    }
    proof {
        assert(checksum_matches(m, wl, sha256_of(entropy@)));
    }
    Ok(entropy)
}

/// ROUND TRIP: decoding the mnemonic that encodes any valid entropy, over any
/// well-formed dictionary, recovers exactly that entropy, and its checksum
/// check passes against the same digest the encoder used.
pub proof fn lemma_mnemonic_round_trip(e: Seq<u8>, cs: Seq<u8>, wl: Seq<Seq<char>>)
    requires
        valid_entropy_len(e.len() as int),
        cs.len() == 32,
        wl.len() == 2048,
        distinct_words(wl),
    ensures
        encode_words(e, cs, wl).len() == word_count(e.len() as int),
        valid_mnemonic_len(encode_words(e, cs, wl).len() as int),
        all_known(encode_words(e, cs, wl), wl),
        decoded_entropy(encode_words(e, cs, wl), wl) == e,
        checksum_matches(encode_words(e, cs, wl), wl, cs),
{
    let total = total_bits(e, cs);
    let count = word_count(e.len() as int);
    let m = encode_words(e, cs, wl);
    assert(total.len() == 11 * count);
    assert(is_bits(total));

    // Each encoded word is the dictionary word at its group's value, and the
    // distinctness of the dictionary pins the recovered index back to it.
    assert forall|j: int| 0 <= j < count implies {
        &&& word_known(wl, m[j])
        &&& index_of_word(wl, m[j]) == mnemonic_index(e, cs, j) as int
    } by {
        let g = total.subrange(11 * j, 11 * j + 11);
        lemma_group_val_bound(g);
        let v = mnemonic_index(e, cs, j) as int;
        assert(m[j] == wl[v]);
        assert(word_known(wl, m[j]));
        let i2 = index_of_word(wl, m[j]);
        assert(0 <= i2 < wl.len() && wl[i2] == m[j]);
        if i2 != v {
            assert(false);
        }
    }
    assert(all_known(m, wl));

    // The recovered bit stream is exactly the encoded bit stream.
    assert forall|k: int| 0 <= k < 11 * count implies decode_bits(m, wl)[k] == total[k] by {
        let j = k / 11;
        let t = k % 11;
        assert(0 <= j < count && 0 <= t < 11 && k == 11 * j + t);
        let g = total.subrange(11 * j, 11 * j + 11);
        lemma_group_val_bound(g);
        lemma_group_roundtrip(g);
        assert(bits_of_index(group_val(g))[t] == g[t]);
        assert(idx_bit(group_val(g), t) == g[t]);
        assert(index_of_word(wl, m[j]) as u16 == mnemonic_index(e, cs, j));
    }
    assert(decode_bits(m, wl) =~= total);

    // The leading bits are the entropy's bits, so packing them recovers it.
    let ent_bits = ent_bits_len(m.len() as int);
    assert(ent_bits == 8 * e.len());
    assert(decode_bits(m, wl).take(ent_bits) =~= bits_of_bytes(e));
    lemma_bytes_of_bits_of_bytes(e);
    assert(decoded_entropy(m, wl) == e);

    // The trailing bits are the digest's leading bits.
    assert forall|k: int| 0 <= k < cs_bits_len(ent_bits / 8) implies decode_bits(m, wl)[ent_bits
        + k] == bits_of_bytes(cs)[k] by {
        assert(total[ent_bits + k] == bits_of_bytes(cs).take(cs_bits_len(e.len() as int))[k]);
    }
    assert(checksum_matches(m, wl, cs));
}

/// DETERMINISM: the mnemonic encoding is a pure function of the entropy, its
/// digest and the dictionary; equal inputs give the identical word sequence.
/// Together with `generate_secret`'s postcondition, which pins its result to
/// `encode_words`, two calls on equal inputs return equal mnemonics.
pub proof fn lemma_encode_deterministic(
    e1: Seq<u8>,
    cs1: Seq<u8>,
    wl1: Seq<Seq<char>>,
    e2: Seq<u8>,
    cs2: Seq<u8>,
    wl2: Seq<Seq<char>>,
)
    requires
        e1 == e2,
        cs1 == cs2,
        wl1 == wl2,
    ensures
        encode_words(e1, cs1, wl1) == encode_words(e2, cs2, wl2),
{
}

} // verus!
