//! Bit extraction: pure bit-range arithmetic over a payload byte buffer,
//! for both byte orders.
//!
//! The DBC convention numbers little-endian (Intel) signals by the index
//! of their least significant bit, counting bits from the least
//! significant bit of each byte. Big-endian (Motorola) signals are
//! numbered from the most significant bit within each byte, and their
//! bits are read in order of decreasing weight.

use vstd::arithmetic::power2::{lemma2_to64, lemma2_to64_rest, lemma_pow2_adds, lemma_pow2_pos, pow2};
use vstd::prelude::*;

verus! {

/// Bit `i` of the payload in little-endian numbering: byte `i/8`, bit
/// `i%8` counted from the least significant bit.
pub open spec fn le_bit(data: Seq<u8>, i: int) -> u64
    recommends
        0 <= i < data.len() * 8,
{
    ((data[i / 8] as u64) >> ((i % 8) as u64)) & 1
}

/// Bit `i` of the payload in big-endian numbering: byte `i/8`, bit
/// `i%8` counted from the most significant bit.
pub open spec fn be_bit(data: Seq<u8>, i: int) -> u64
    recommends
        0 <= i < data.len() * 8,
{
    ((data[i / 8] as u64) >> ((7 - i % 8) as u64)) & 1
}

/// Unsigned value of the `width` bits starting at `start` in
/// little-endian numbering: the bit at `start + k` has weight `2^k`.
pub open spec fn le_value(data: Seq<u8>, start: int, width: int) -> int
    decreases width,
{
    if width <= 0 {
        0
    } else {
        le_bit(data, start) + 2 * le_value(data, start + 1, width - 1)
    }
}

/// Unsigned value of the `width` bits starting at `start` in big-endian
/// numbering: bits are taken in order of decreasing weight.
pub open spec fn be_value(data: Seq<u8>, start: int, width: int) -> int
    decreases width,
{
    if width <= 0 {
        0
    } else {
        be_value(data, start, width - 1) * 2 + be_bit(data, start + width - 1)
    }
}

/// Two's-complement reading of a `width`-bit unsigned value.
pub open spec fn sign_extend(u: int, width: int) -> int {
    if width <= 0 {
        0
    } else if u >= pow2((width - 1) as nat) {
        u - pow2(width as nat)
    } else {
        u
    }
}

pub proof fn lemma_le_value_bound(data: Seq<u8>, start: int, width: int)
    requires
        width >= 0,
    ensures
        0 <= le_value(data, start, width) < pow2(width as nat),
    decreases width,
{
    lemma_pow2_pos(width as nat);
    if width > 0 {
        lemma_le_value_bound(data, start + 1, width - 1);
        lemma_pow2_adds(1, (width - 1) as nat);
        lemma2_to64();
        let b = data[start / 8] as u64;
        let sh = (start % 8) as u64;
        assert((b >> sh) & 1 <= 1) by (bit_vector);
    }
}

pub proof fn lemma_be_value_bound(data: Seq<u8>, start: int, width: int)
    requires
        width >= 0,
    ensures
        0 <= be_value(data, start, width) < pow2(width as nat),
    decreases width,
{
    lemma_pow2_pos(width as nat);
    if width > 0 {
        lemma_be_value_bound(data, start, width - 1);
        lemma_pow2_adds((width - 1) as nat, 1);
        lemma2_to64();
        let b = data[(start + width - 1) / 8] as u64;
        let sh = (7 - (start + width - 1) % 8) as u64;
        assert((b >> sh) & 1 <= 1) by (bit_vector);
    }
}

/// Reads the `width` bits starting at `start` in little-endian
/// numbering as an unsigned integer.
pub fn extract_le(data: &[u8], start: usize, width: usize) -> (r: u64)
    requires
        start + width <= data.len() * 8,
        data.len() * 8 <= usize::MAX,
        width <= 64,
    ensures
        r as int == le_value(data@, start as int, width as int),
{
    let mut acc: u64 = 0;
    let mut k = width;
    proof {
        lemma2_to64();
    }
    while k > 0
        invariant
            k <= width <= 64,
            start + width <= data.len() * 8,
            data.len() * 8 <= usize::MAX,
            acc as int == le_value(data@, start + k, (width - k) as int),
            acc < pow2((width - k) as nat),
        decreases k,
    {
        k = k - 1;
        let i = start + k;
        let byte: u64 = data[i / 8] as u64;
        let sh: u64 = (i % 8) as u64;
        let bit: u64 = (byte >> sh) & 1;
        proof {
            assert((byte >> sh) & 1 <= 1) by (bit_vector);
            lemma_pow2_adds(1, (width - k - 1) as nat);
            lemma2_to64();
            if width - k < 64 {
                vstd::arithmetic::power2::lemma_pow2_strictly_increases((width - k) as nat, 64);
            }
            assert(pow2((width - k) as nat) == 2 * pow2((width - k - 1) as nat));
            assert(pow2((width - k) as nat) <= pow2(64));
        }
        acc = acc * 2 + bit;
    }
    acc
}

/// Reads the `width` bits starting at `start` in big-endian numbering
/// as an unsigned integer.
pub fn extract_be(data: &[u8], start: usize, width: usize) -> (r: u64)
    requires
        start + width <= data.len() * 8,
        data.len() * 8 <= usize::MAX,
        width <= 64,
    ensures
        r as int == be_value(data@, start as int, width as int),
{
    let mut acc: u64 = 0;
    let mut k: usize = 0;
    proof {
        lemma2_to64();
    }
    while k < width
        invariant
            k <= width <= 64,
            start + width <= data.len() * 8,
            data.len() * 8 <= usize::MAX,
            acc as int == be_value(data@, start as int, k as int),
            acc < pow2(k as nat),
        decreases width - k,
    {
        let i = start + k;
        let byte: u64 = data[i / 8] as u64;
        let sh: u64 = 7 - (i % 8) as u64;
        let bit: u64 = (byte >> sh) & 1;
        proof {
            assert((byte >> sh) & 1 <= 1) by (bit_vector);
            lemma_pow2_adds(k as nat, 1);
            lemma2_to64();
            if k + 1 < 64 {
                vstd::arithmetic::power2::lemma_pow2_strictly_increases((k + 1) as nat, 64);
            }
            assert(pow2((k + 1) as nat) == 2 * pow2(k as nat));
            assert(pow2((k + 1) as nat) <= pow2(64));
        }
        acc = acc * 2 + bit;
        k = k + 1;
    }
    acc
}

/// Reinterprets a `width`-bit unsigned value as a two's-complement
/// signed integer, extending the sign bit.
pub fn to_signed(u: u64, width: usize) -> (r: i64)
    requires
        1 <= width <= 64,
        u < pow2(width as nat),
    ensures
        r as int == sign_extend(u as int, width as int),
{
    proof {
        lemma2_to64();
        lemma2_to64_rest();
    }
    if width == 64 {
        proof {
            assert(u >= 0x8000000000000000 ==> (u as i64) as int == u - 0x10000000000000000)
                by (bit_vector);
            assert(u < 0x8000000000000000 ==> (u as i64) as int == u as int) by (bit_vector);
        }
        u as i64
    } else {
        proof {
            vstd::arithmetic::power2::lemma_pow2_strictly_increases((width - 1) as nat, 64);
            vstd::arithmetic::power2::lemma_pow2_strictly_increases(width as nat, 64);
            vstd::bits::lemma_u64_shl_is_mul(1u64, (width - 1) as u64);
            vstd::bits::lemma_u64_shl_is_mul(1u64, width as u64);
        }
        let half: u64 = 1u64 << ((width - 1) as u64);
        proof {
            vstd::arithmetic::power2::lemma_pow2_strictly_increases((width - 1) as nat, 63);
        }
        if u >= half {
            let full: u64 = 1u64 << (width as u64);
            proof {
                vstd::arithmetic::power2::lemma_pow2_strictly_increases(
                    (width - 1) as nat,
                    width as nat,
                );
                lemma_pow2_adds((width - 1) as nat, 1);
            }
            let diff = full - u;
            -(diff as i64)
        } else {
            u as i64
        }
    }
}

} // verus!
