//! The public-input convention: a 32-byte hash read as 256 bits, bit `i`
//! being bit `i mod 8` of byte `31 - i / 8` (bytes in reverse, each least
//! significant bit first).
use vstd::prelude::*;

verus! {

pub const HASH_LEN: usize = 32;

pub const HASH_BITS: usize = 256;

/// Bit `i` of the hash `h`.
pub open spec fn hash_bit(h: Seq<u8>, i: int) -> bool {
    (h[31 - i / 8] >> ((i % 8) as u8)) & 1u8 == 1u8
}

/// All 256 bits of `h`, in public-input order.
pub open spec fn hash_bits_spec(h: Seq<u8>) -> Seq<bool> {
    Seq::new(256, |i: int| hash_bit(h, i))
}

pub open spec fn bit_u8(b: bool) -> u8 {
    if b {
        1u8
    } else {
        0u8
    }
}

/// The byte whose bits, least significant first, are `bits[base..base + 8]`.
pub open spec fn pack_byte(bits: Seq<bool>, base: int) -> u8 {
    bit_u8(bits[base]) | (bit_u8(bits[base + 1]) << 1u8) | (bit_u8(bits[base + 2]) << 2u8) | (
    bit_u8(bits[base + 3]) << 3u8) | (bit_u8(bits[base + 4]) << 4u8) | (bit_u8(bits[base + 5])
        << 5u8) | (bit_u8(bits[base + 6]) << 6u8) | (bit_u8(bits[base + 7]) << 7u8)
}

/// The 32 bytes whose bits, in public-input order, are `bits`.
pub open spec fn pack_bits_spec(bits: Seq<bool>) -> Seq<u8> {
    Seq::new(32, |j: int| pack_byte(bits, 8 * (31 - j)))
}

fn bit_to_u8(b: bool) -> (r: u8)
    ensures
        r == bit_u8(b),
{
    if b {
        1
    } else {
        0
    }
}

/// The 256 public-input bits of a hash.
pub fn hash_to_bits(hash: &[u8; 32]) -> (r: Vec<bool>)
    ensures
        r@ == hash_bits_spec(hash@),
{
    let mut out: Vec<bool> = Vec::new();
    let mut i: usize = 0;
    while i < HASH_BITS
        invariant
            i <= 256,
            out@.len() == i,
            forall|k: int| 0 <= k < i ==> #[trigger] out@[k] == hash_bit(hash@, k),
        decreases 256 - i,
    {
        let byte = hash[HASH_LEN - 1 - i / 8];
        let shift = (i % 8) as u8;
        out.push((byte >> shift) & 1u8 == 1u8);
        i = i + 1;
    }
    assert(out@ =~= hash_bits_spec(hash@));
    out
}

/// The 32-byte hash whose public-input bits are `bits`.
pub fn bits_to_hash(bits: &Vec<bool>) -> (r: [u8; 32])
    requires
        bits@.len() == 256,
    ensures
        r@ == pack_bits_spec(bits@),
{
    let mut out = [0u8; 32];
    let mut j: usize = 0;
    while j < HASH_LEN
        invariant
            j <= 32,
            bits@.len() == 256,
            out@.len() == 32,
            forall|k: int| 0 <= k < j ==> #[trigger] out@[k] == pack_byte(bits@, 8 * (31 - k)),
        decreases 32 - j,
    {
        let base = 8 * (HASH_LEN - 1 - j);
        let byte = bit_to_u8(bits[base]) | (bit_to_u8(bits[base + 1]) << 1u8) | (bit_to_u8(
            bits[base + 2],
        ) << 2u8) | (bit_to_u8(bits[base + 3]) << 3u8) | (bit_to_u8(bits[base + 4]) << 4u8) | (
        bit_to_u8(bits[base + 5]) << 5u8) | (bit_to_u8(bits[base + 6]) << 6u8) | (bit_to_u8(
            bits[base + 7],
        ) << 7u8);
        out.set(j, byte);
        j = j + 1;
    }
    assert(out@ =~= pack_bits_spec(bits@));
    out
}

proof fn lemma_byte_from_own_bits(x: u8)
    ensures
        (if (x >> 0u8) & 1u8 == 1u8 { 1u8 } else { 0u8 }) | ((if (x >> 1u8) & 1u8 == 1u8 {
            1u8
        } else {
            0u8
        }) << 1u8) | ((if (x >> 2u8) & 1u8 == 1u8 { 1u8 } else { 0u8 }) << 2u8) | ((if (x >> 3u8)
            & 1u8 == 1u8 { 1u8 } else { 0u8 }) << 3u8) | ((if (x >> 4u8) & 1u8 == 1u8 {
            1u8
        } else {
            0u8
        }) << 4u8) | ((if (x >> 5u8) & 1u8 == 1u8 { 1u8 } else { 0u8 }) << 5u8) | ((if (x >> 6u8)
            & 1u8 == 1u8 { 1u8 } else { 0u8 }) << 6u8) | ((if (x >> 7u8) & 1u8 == 1u8 {
            1u8
        } else {
            0u8
        }) << 7u8) == x,
{
    assert((if (x >> 0u8) & 1u8 == 1u8 { 1u8 } else { 0u8 }) | ((if (x >> 1u8) & 1u8 == 1u8 {
        1u8
    } else {
        0u8
    }) << 1u8) | ((if (x >> 2u8) & 1u8 == 1u8 { 1u8 } else { 0u8 }) << 2u8) | ((if (x >> 3u8)
        & 1u8 == 1u8 { 1u8 } else { 0u8 }) << 3u8) | ((if (x >> 4u8) & 1u8 == 1u8 {
        1u8
    } else {
        0u8
    }) << 4u8) | ((if (x >> 5u8) & 1u8 == 1u8 { 1u8 } else { 0u8 }) << 5u8) | ((if (x >> 6u8)
        & 1u8 == 1u8 { 1u8 } else { 0u8 }) << 6u8) | ((if (x >> 7u8) & 1u8 == 1u8 {
        1u8
    } else {
        0u8
    }) << 7u8) == x) by (bit_vector);
}

proof fn lemma_bit_of_packed(
    b0: bool,
    b1: bool,
    b2: bool,
    b3: bool,
    b4: bool,
    b5: bool,
    b6: bool,
    b7: bool,
    k: u8,
)
    requires
        k < 8,
    ensures
        (((if b0 { 1u8 } else { 0u8 }) | ((if b1 { 1u8 } else { 0u8 }) << 1u8) | ((if b2 {
            1u8
        } else {
            0u8
        }) << 2u8) | ((if b3 { 1u8 } else { 0u8 }) << 3u8) | ((if b4 { 1u8 } else { 0u8 })
            << 4u8) | ((if b5 { 1u8 } else { 0u8 }) << 5u8) | ((if b6 { 1u8 } else { 0u8 })
            << 6u8) | ((if b7 { 1u8 } else { 0u8 }) << 7u8)) >> k) & 1u8 == 1u8 <==> (if k == 0 {
            b0
        } else if k == 1 {
            b1
        } else if k == 2 {
            b2
        } else if k == 3 {
            b3
        } else if k == 4 {
            b4
        } else if k == 5 {
            b5
        } else if k == 6 {
            b6
        } else {
            b7
        }),
{
    assert((((if b0 { 1u8 } else { 0u8 }) | ((if b1 { 1u8 } else { 0u8 }) << 1u8) | ((if b2 {
        1u8
    } else {
        0u8
    }) << 2u8) | ((if b3 { 1u8 } else { 0u8 }) << 3u8) | ((if b4 { 1u8 } else { 0u8 })
        << 4u8) | ((if b5 { 1u8 } else { 0u8 }) << 5u8) | ((if b6 { 1u8 } else { 0u8 })
        << 6u8) | ((if b7 { 1u8 } else { 0u8 }) << 7u8)) >> k) & 1u8 == 1u8 <==> (if k == 0 {
        b0
    } else if k == 1 {
        b1
    } else if k == 2 {
        b2
    } else if k == 3 {
        b3
    } else if k == 4 {
        b4
    } else if k == 5 {
        b5
    } else if k == 6 {
        b6
    } else {
        b7
    })) by (bit_vector)
        requires
            k < 8,
    ;
}

/// Extracting the 256 bits of a hash and packing them again gives back the
/// same 32 bytes.
pub proof fn lemma_pack_unpack(h: Seq<u8>)
    requires
        h.len() == 32,
    ensures
        pack_bits_spec(hash_bits_spec(h)) == h,
{
    let bits = hash_bits_spec(h);
    assert forall|j: int| 0 <= j < 32 implies #[trigger] pack_bits_spec(bits)[j] == h[j] by {
        let base = 8 * (31 - j);
        assert forall|b: int| 0 <= b < 8 implies #[trigger] bits[base + b] == ((h[j] >> (b as u8))
            & 1u8 == 1u8) by {
            assert((base + b) / 8 == 31 - j);
            assert((base + b) % 8 == b);
        }
        lemma_byte_from_own_bits(h[j]);
        assert(bits[base + 0] == ((h[j] >> 0u8) & 1u8 == 1u8));
    }
    assert(pack_bits_spec(bits) =~= h);
}

/// Packing 256 bits into a hash and extracting them again gives back the same
/// bits: distinct bit vectors give distinct hashes.
pub proof fn lemma_unpack_pack(bits: Seq<bool>)
    requires
        bits.len() == 256,
    ensures
        hash_bits_spec(pack_bits_spec(bits)) == bits,
{
    let h = pack_bits_spec(bits);
    assert forall|i: int| 0 <= i < 256 implies #[trigger] hash_bits_spec(h)[i] == bits[i] by {
        let j = 31 - i / 8;
        let base = 8 * (i / 8);
        assert(8 * (31 - j) == base);
        assert(base + i % 8 == i);
        lemma_bit_of_packed(
            bits[base],
            bits[base + 1],
            bits[base + 2],
            bits[base + 3],
            bits[base + 4],
            bits[base + 5],
            bits[base + 6],
            bits[base + 7],
            (i % 8) as u8,
        );
    }
    assert(hash_bits_spec(h) =~= bits);
}

} // verus!
