use vstd::prelude::*;

use sha2::Digest;

verus! {

/// What SHA-256 returns for given input bytes; a fixed function of them alone.
pub uninterp spec fn sha256_of(input: Seq<u8>) -> Seq<u8>;

/// What RIPEMD-160 returns for given input bytes; a fixed function of them alone.
pub uninterp spec fn ripemd160_of(input: Seq<u8>) -> Seq<u8>;

/// hash160: RIPEMD-160 of the SHA-256 of the input, the address-style
/// commitment to a public key.
pub open spec fn hash160_of(input: Seq<u8>) -> Seq<u8> {
    ripemd160_of(sha256_of(input))
}

/// Relies on sha2::Sha256 through digest's Digest::digest: returns the 32-byte
/// SHA-256 digest, a function of the input bytes alone.
#[verifier::external_body]
pub fn sha256(input: &[u8]) -> (r: Vec<u8>)
    ensures
        r@ == sha256_of(input@),
        r@.len() == 32,
{
    sha2::Sha256::digest(input).to_vec()
}

/// Relies on ripemd::Ripemd160 through digest's Digest::digest: returns the
/// 20-byte RIPEMD-160 digest, a function of the input bytes alone.
#[verifier::external_body]
pub fn ripemd160(input: &[u8]) -> (r: Vec<u8>)
    ensures
        r@ == ripemd160_of(input@),
        r@.len() == 20,
{
    ripemd::Ripemd160::digest(input).to_vec()
}

/// The 20-byte hash160 of the input: RIPEMD-160 over SHA-256.
pub fn hash_160(input: &[u8]) -> (r: Vec<u8>)
    ensures
        r@ == hash160_of(input@),
        r@.len() == 20,
{
    let sha = sha256(input);
    ripemd160(sha.as_slice())
}

/// The lowercase hexadecimal digit for a value below 16.
pub open spec fn hex_digit(n: u8) -> char {
    if n == 0 {
        '0'
    } else if n == 1 {
        '1'
    } else if n == 2 {
        '2'
    } else if n == 3 {
        '3'
    } else if n == 4 {
        '4'
    } else if n == 5 {
        '5'
    } else if n == 6 {
        '6'
    } else if n == 7 {
        '7'
    } else if n == 8 {
        '8'
    } else if n == 9 {
        '9'
    } else if n == 10 {
        'a'
    } else if n == 11 {
        'b'
    } else if n == 12 {
        'c'
    } else if n == 13 {
        'd'
    } else if n == 14 {
        'e'
    } else {
        'f'
    }
}

/// The lowercase hexadecimal rendering of bytes, two digits per byte.
pub open spec fn hex_of(bytes: Seq<u8>) -> Seq<char> {
    Seq::new(
        bytes.len() * 2,
        |i: int|
            if i % 2 == 0 {
                hex_digit((bytes[i / 2] / 16) as u8)
            } else {
                hex_digit((bytes[i / 2] % 16) as u8)
            },
    )
}

/// The one-character string for one hexadecimal digit.
fn hex_digit_str(n: u8) -> (r: &'static str)
    requires
        n < 16,
    ensures
        r@ =~= seq![hex_digit(n)],
{
    proof {
        reveal_strlit("0");
        reveal_strlit("1");
        reveal_strlit("2");
        reveal_strlit("3");
        reveal_strlit("4");
        reveal_strlit("5");
        reveal_strlit("6");
        reveal_strlit("7");
        reveal_strlit("8");
        reveal_strlit("9");
        reveal_strlit("a");
        reveal_strlit("b");
        reveal_strlit("c");
        reveal_strlit("d");
        reveal_strlit("e");
        reveal_strlit("f");
    }
    match n {
        0 => "0",
        1 => "1",
        2 => "2",
        3 => "3",
        4 => "4",
        5 => "5",
        6 => "6",
        7 => "7",
        8 => "8",
        9 => "9",
        10 => "a",
        11 => "b",
        12 => "c",
        13 => "d",
        14 => "e",
        _ => "f",
    }
}

/// Renders bytes as a lowercase hexadecimal string.
pub fn to_hex(bytes: &[u8]) -> (r: String)
    ensures
        r@ == hex_of(bytes@),
{
    let mut r = String::new();
    let mut i: usize = 0;
    while i < bytes.len()
        invariant
            i <= bytes@.len(),
            r@.len() == 2 * i,
            forall|k: int| 0 <= k < r@.len() ==> r@[k] == hex_of(bytes@)[k],
        decreases bytes@.len() - i,
    {
        let b = bytes[i];
        r.append(hex_digit_str(b / 16));
        r.append(hex_digit_str(b % 16));
        proof {
            assert((2 * i) % 2 == 0 && (2 * i) / 2 == i as int);
            assert((2 * i + 1) % 2 == 1 && (2 * i + 1) / 2 == i as int);
        }
        i += 1;
    }
    proof {
        assert(r@ =~= hex_of(bytes@));
    }
    r
}

/// The cache-layer identifier of a datum: the first 8 bytes of its SHA-256
/// digest, rendered as 16 lowercase hexadecimal characters.
pub fn hash_id(data: String) -> (r: String)
    ensures
        r@ == hex_of(sha256_of(vstd::utf8::encode_utf8(data@)).take(8)),
        r@.len() == 16,
{
    let d = sha256(data.as_str().as_bytes());
    let mut id: Vec<u8> = Vec::new();
    let mut k: usize = 0;
    while k < 8
        invariant
            k <= 8,
            d@.len() == 32,
            id@ == d@.take(k as int),
        decreases 8 - k,
    {
        id.push(d[k]);
        proof {
            assert(id@ =~= d@.take(k + 1));
        }
        k += 1;
    }
    to_hex(id.as_slice())
}

} // verus!
