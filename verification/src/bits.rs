use vstd::prelude::*;

verus! {

/// Bit `k` (most significant first) of the byte `b`, as 0 or 1.
pub open spec fn bit_at(b: u8, k: int) -> u8 {
    if (b >> ((7 - k) as u8)) & 1u8 == 1u8 {
        1u8
    } else {
        0u8
    }
}

/// The bytes of `s` spread out as one bit per element, most significant first.
pub open spec fn bits_of_bytes(s: Seq<u8>) -> Seq<u8> {
    Seq::new(s.len() * 8, |k: int| bit_at(s[k / 8], k % 8))
}

/// Every element is 0 or 1.
pub open spec fn is_bits(s: Seq<u8>) -> bool {
    forall|i: int| 0 <= i < s.len() ==> s[i] == 0 || s[i] == 1
}

/// The byte encoded by eight bits, most significant first.
pub open spec fn byte_of_bits(g: Seq<u8>) -> u8 {
    (g[0] * 128 + g[1] * 64 + g[2] * 32 + g[3] * 16 + g[4] * 8 + g[5] * 4 + g[6] * 2
        + g[7]) as u8
}

/// The bits of `s` packed back into bytes, eight at a time.
pub open spec fn bytes_of_bits(s: Seq<u8>) -> Seq<u8> {
    Seq::new(s.len() / 8, |i: int| byte_of_bits(s.subrange(8 * i, 8 * i + 8)))
}

/// The value of an 11-bit group, most significant first.
pub open spec fn group_val(g: Seq<u8>) -> u16 {
    (g[0] * 1024 + g[1] * 512 + g[2] * 256 + g[3] * 128 + g[4] * 64 + g[5] * 32 + g[6] * 16
        + g[7] * 8 + g[8] * 4 + g[9] * 2 + g[10]) as u16
}

/// Bit `k` (most significant first) of an 11-bit value.
pub open spec fn idx_bit(v: u16, k: int) -> u8 {
    if (v >> ((10 - k) as u16)) & 1u16 == 1u16 {
        1u8
    } else {
        0u8
    }
}

/// An 11-bit value spread out as bits, most significant first.
pub open spec fn bits_of_index(v: u16) -> Seq<u8> {
    Seq::new(11, |k: int| idx_bit(v, k))
}

/// A byte is the weighted sum of its bits.
proof fn lemma_byte_decompose(b: u8)
    by (bit_vector)
    ensures
        bit_at(b, 0) * 128 + bit_at(b, 1) * 64 + bit_at(b, 2) * 32 + bit_at(b, 3) * 16 + bit_at(
            b,
            4,
        ) * 8 + bit_at(b, 5) * 4 + bit_at(b, 6) * 2 + bit_at(b, 7) == b,
{
}

/// The weighted sum of eight bits decomposes back into those bits.
proof fn lemma_bits_compose8(b0: u8, b1: u8, b2: u8, b3: u8, b4: u8, b5: u8, b6: u8, b7: u8)
    by (bit_vector)
    requires
        b0 <= 1,
        b1 <= 1,
        b2 <= 1,
        b3 <= 1,
        b4 <= 1,
        b5 <= 1,
        b6 <= 1,
        b7 <= 1,
    ensures
        b0 * 128 + b1 * 64 + b2 * 32 + b3 * 16 + b4 * 8 + b5 * 4 + b6 * 2 + b7 < 256,
        bit_at((b0 * 128 + b1 * 64 + b2 * 32 + b3 * 16 + b4 * 8 + b5 * 4 + b6 * 2 + b7) as u8, 0)
            == b0,
        bit_at((b0 * 128 + b1 * 64 + b2 * 32 + b3 * 16 + b4 * 8 + b5 * 4 + b6 * 2 + b7) as u8, 1)
            == b1,
        bit_at((b0 * 128 + b1 * 64 + b2 * 32 + b3 * 16 + b4 * 8 + b5 * 4 + b6 * 2 + b7) as u8, 2)
            == b2,
        bit_at((b0 * 128 + b1 * 64 + b2 * 32 + b3 * 16 + b4 * 8 + b5 * 4 + b6 * 2 + b7) as u8, 3)
            == b3,
        bit_at((b0 * 128 + b1 * 64 + b2 * 32 + b3 * 16 + b4 * 8 + b5 * 4 + b6 * 2 + b7) as u8, 4)
            == b4,
        bit_at((b0 * 128 + b1 * 64 + b2 * 32 + b3 * 16 + b4 * 8 + b5 * 4 + b6 * 2 + b7) as u8, 5)
            == b5,
        bit_at((b0 * 128 + b1 * 64 + b2 * 32 + b3 * 16 + b4 * 8 + b5 * 4 + b6 * 2 + b7) as u8, 6)
            == b6,
        bit_at((b0 * 128 + b1 * 64 + b2 * 32 + b3 * 16 + b4 * 8 + b5 * 4 + b6 * 2 + b7) as u8, 7)
            == b7,
{
}

/// Packing the bits of bytes and unpacking them again is the identity.
pub proof fn lemma_bytes_of_bits_of_bytes(s: Seq<u8>)
    ensures
        bytes_of_bits(bits_of_bytes(s)) =~= s,
{
    let bits = bits_of_bytes(s);
    assert forall|i: int| 0 <= i < s.len() implies bytes_of_bits(bits)[i] == s[i] by {
        let g = bits.subrange(8 * i, 8 * i + 8);
        assert forall|k: int| 0 <= k < 8 implies g[k] == bit_at(s[i], k) by {
            assert(bits[8 * i + k] == bit_at(s[(8 * i + k) / 8], (8 * i + k) % 8));
            assert((8 * i + k) / 8 == i && (8 * i + k) % 8 == k);
        }
        lemma_byte_decompose(s[i]);
        assert(byte_of_bits(g) == s[i]);
    }
}

/// Unpacking packed bits is the identity on well-formed bit sequences.
pub proof fn lemma_bits_of_bytes_of_bits(s: Seq<u8>)
    requires
        is_bits(s),
        s.len() % 8 == 0,
    ensures
        bits_of_bytes(bytes_of_bits(s)) =~= s,
{
    let bytes = bytes_of_bits(s);
    assert(bytes.len() * 8 == s.len());
    assert forall|k: int| 0 <= k < s.len() implies bits_of_bytes(bytes)[k] == s[k] by {
        let i = k / 8;
        let j = k % 8;
        assert(0 <= i < bytes.len() && 0 <= j < 8 && k == 8 * i + j);
        let g = s.subrange(8 * i, 8 * i + 8);
        lemma_bits_compose8(g[0], g[1], g[2], g[3], g[4], g[5], g[6], g[7]);
        assert(bit_at(byte_of_bits(g), j) == g[j]);
        assert(g[j] == s[k]);
    }
}

/// An 11-bit group of 0/1 values encodes a value below 2048.
pub proof fn lemma_group_val_bound(g: Seq<u8>)
    requires
        g.len() == 11,
        is_bits(g),
    ensures
        group_val(g) < 2048,
        group_val(g) == g[0] * 1024 + g[1] * 512 + g[2] * 256 + g[3] * 128 + g[4] * 64 + g[5] * 32
            + g[6] * 16 + g[7] * 8 + g[8] * 4 + g[9] * 2 + g[10],
{
}

/// The weighted sum of eleven bits decomposes back into those bits.
proof fn lemma_bits_compose11(
    b0: u16,
    b1: u16,
    b2: u16,
    b3: u16,
    b4: u16,
    b5: u16,
    b6: u16,
    b7: u16,
    b8: u16,
    b9: u16,
    b10: u16,
)
    by (bit_vector)
    requires
        b0 <= 1,
        b1 <= 1,
        b2 <= 1,
        b3 <= 1,
        b4 <= 1,
        b5 <= 1,
        b6 <= 1,
        b7 <= 1,
        b8 <= 1,
        b9 <= 1,
        b10 <= 1,
    ensures
        idx_bit(
            (b0 * 1024 + b1 * 512 + b2 * 256 + b3 * 128 + b4 * 64 + b5 * 32 + b6 * 16 + b7 * 8
                + b8 * 4 + b9 * 2 + b10) as u16,
            0,
        ) == b0,
        idx_bit(
            (b0 * 1024 + b1 * 512 + b2 * 256 + b3 * 128 + b4 * 64 + b5 * 32 + b6 * 16 + b7 * 8
                + b8 * 4 + b9 * 2 + b10) as u16,
            1,
        ) == b1,
        idx_bit(
            (b0 * 1024 + b1 * 512 + b2 * 256 + b3 * 128 + b4 * 64 + b5 * 32 + b6 * 16 + b7 * 8
                + b8 * 4 + b9 * 2 + b10) as u16,
            2,
        ) == b2,
        idx_bit(
            (b0 * 1024 + b1 * 512 + b2 * 256 + b3 * 128 + b4 * 64 + b5 * 32 + b6 * 16 + b7 * 8
                + b8 * 4 + b9 * 2 + b10) as u16,
            3,
        ) == b3,
        idx_bit(
            (b0 * 1024 + b1 * 512 + b2 * 256 + b3 * 128 + b4 * 64 + b5 * 32 + b6 * 16 + b7 * 8
                + b8 * 4 + b9 * 2 + b10) as u16,
            4,
        ) == b4,
        idx_bit(
            (b0 * 1024 + b1 * 512 + b2 * 256 + b3 * 128 + b4 * 64 + b5 * 32 + b6 * 16 + b7 * 8
                + b8 * 4 + b9 * 2 + b10) as u16,
            5,
        ) == b5,
        idx_bit(
            (b0 * 1024 + b1 * 512 + b2 * 256 + b3 * 128 + b4 * 64 + b5 * 32 + b6 * 16 + b7 * 8
                + b8 * 4 + b9 * 2 + b10) as u16,
            6,
        ) == b6,
        idx_bit(
            (b0 * 1024 + b1 * 512 + b2 * 256 + b3 * 128 + b4 * 64 + b5 * 32 + b6 * 16 + b7 * 8
                + b8 * 4 + b9 * 2 + b10) as u16,
            7,
        ) == b7,
        idx_bit(
            (b0 * 1024 + b1 * 512 + b2 * 256 + b3 * 128 + b4 * 64 + b5 * 32 + b6 * 16 + b7 * 8
                + b8 * 4 + b9 * 2 + b10) as u16,
            8,
        ) == b8,
        idx_bit(
            (b0 * 1024 + b1 * 512 + b2 * 256 + b3 * 128 + b4 * 64 + b5 * 32 + b6 * 16 + b7 * 8
                + b8 * 4 + b9 * 2 + b10) as u16,
            9,
        ) == b9,
        idx_bit(
            (b0 * 1024 + b1 * 512 + b2 * 256 + b3 * 128 + b4 * 64 + b5 * 32 + b6 * 16 + b7 * 8
                + b8 * 4 + b9 * 2 + b10) as u16,
            10,
        ) == b10,
{
}

/// Spreading an 11-bit group's value back into bits is the identity.
pub proof fn lemma_group_roundtrip(g: Seq<u8>)
    requires
        g.len() == 11,
        is_bits(g),
    ensures
        bits_of_index(group_val(g)) =~= g,
{
    lemma_bits_compose11(
        g[0] as u16,
        g[1] as u16,
        g[2] as u16,
        g[3] as u16,
        g[4] as u16,
        g[5] as u16,
        g[6] as u16,
        g[7] as u16,
        g[8] as u16,
        g[9] as u16,
        g[10] as u16,
    );
    let v = group_val(g);
    assert forall|k: int| 0 <= k < 11 implies bits_of_index(v)[k] == g[k] by {
        assert(idx_bit(v, 0) == g[0] as u16 as u8);
        assert(idx_bit(v, 1) == g[1] as u16 as u8);
        assert(idx_bit(v, 2) == g[2] as u16 as u8);
        assert(idx_bit(v, 3) == g[3] as u16 as u8);
        assert(idx_bit(v, 4) == g[4] as u16 as u8);
        assert(idx_bit(v, 5) == g[5] as u16 as u8);
        assert(idx_bit(v, 6) == g[6] as u16 as u8);
        assert(idx_bit(v, 7) == g[7] as u16 as u8);
        assert(idx_bit(v, 8) == g[8] as u16 as u8);
        assert(idx_bit(v, 9) == g[9] as u16 as u8);
        assert(idx_bit(v, 10) == g[10] as u16 as u8);
    }
}

/// Spreads bytes into one 0/1 element per bit, most significant first.
pub fn bytes_to_bits(bytes: &[u8]) -> (r: Vec<u8>)
    ensures
        r@ == bits_of_bytes(bytes@),
{
    let mut r: Vec<u8> = Vec::new();
    let mut i: usize = 0;
    while i < bytes.len()
        invariant
            i <= bytes@.len(),
            r@.len() == 8 * i,
            forall|k: int| 0 <= k < r@.len() ==> r@[k] == bit_at(bytes@[k / 8], k % 8),
        decreases bytes@.len() - i,
    {
        let b = bytes[i];
        let mut j: usize = 0;
        while j < 8
            invariant
                j <= 8,
                i < bytes@.len(),
                b == bytes@[i as int],
                r@.len() == 8 * i + j,
                forall|k: int| 0 <= k < r@.len() ==> r@[k] == bit_at(bytes@[k / 8], k % 8),
            decreases 8 - j,
        {
            let sh: u8 = (7 - j) as u8;
            let bit: u8 = if (b >> sh) & 1 == 1 {
                1
            } else {
                0
            };
            proof {
                assert(bit == bit_at(b, j as int));
                assert((8 * i + j) / 8 == i as int && (8 * i + j) % 8 == j as int);
            }
            r.push(bit);
            j += 1;
        }
        i += 1;
    }
    proof {
        assert(r@ =~= bits_of_bytes(bytes@));
    }
    r
}

/// Packs a sequence of 0/1 elements back into bytes, eight at a time.
pub fn bits_to_bytes(bits: &[u8]) -> (r: Vec<u8>)
    requires
        bits@.len() % 8 == 0,
        is_bits(bits@),
    ensures
        r@ == bytes_of_bits(bits@),
{
    let n = bits.len() / 8;
    let mut r: Vec<u8> = Vec::new();
    let mut i: usize = 0;
    while i < n
        invariant
            bits@.len() <= usize::MAX,
            bits@.len() % 8 == 0,
            is_bits(bits@),
            n == bits@.len() / 8,
            i <= n,
            r@.len() == i,
            forall|t: int| 0 <= t < i ==> r@[t] == byte_of_bits(
                bits@.subrange(8 * t, 8 * t + 8),
            ),
        decreases n - i,
    {
        proof {
            assert(bits@.len() == 8 * (bits@.len() / 8));
            assert(8 * i + 8 <= bits@.len());
        }
        let base = 8 * i;
        let byte: u8 = bits[base] * 128 + bits[base + 1] * 64 + bits[base + 2] * 32 + bits[base
            + 3] * 16 + bits[base + 4] * 8 + bits[base + 5] * 4 + bits[base + 6] * 2 + bits[base
            + 7];
        proof {
            let g = bits@.subrange(8 * (i as int), 8 * (i as int) + 8);
            assert(byte == byte_of_bits(g));
        }
        r.push(byte);
        i += 1;
    }
    proof {
        assert(r@ =~= bytes_of_bits(bits@));
    }
    r
}

} // verus!
