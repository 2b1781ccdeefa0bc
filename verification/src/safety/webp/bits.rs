//! Reading the bits of a lossless WebP image.
use crate::safety::Ending;
use vstd::arithmetic::power2::{lemma2_to64, lemma_pow2_strictly_increases, lemma_pow2_unfold, pow2};
use vstd::prelude::*;

verus! {

/// The number of bytes up to which the bits of a chunk can be counted; no chunk holds more.
pub const MAX_CHUNK: usize = 0xffff_ffff;

/// One bit; within a byte the lowest comes first.
pub open spec fn bit_at(data: Seq<u8>, pos: int) -> u8 {
    (data[pos / 8] >> ((pos % 8) as u8)) & 1u8
}

/// The number that some bits stand for, the lowest first.
pub open spec fn number(data: Seq<u8>, pos: int, n: nat) -> nat
    decreases n,
{
    if n == 0 {
        0
    } else {
        bit_at(data, pos) as nat + 2 * number(data, pos + 1, (n - 1) as nat)
    }
}

/// Reads some bits, and tells where the next one is.
pub open spec fn read(data: Seq<u8>, pos: u64, n: u8) -> Result<(u32, u64), Ending> {
    if pos + n > 8 * data.len() {
        Err(Ending::Fails)
    } else {
        Ok((number(data, pos as int, n as nat) as u32, (pos + n) as u64))
    }
}

/// Reads up to 28 bits.
pub fn read_bits(data: &[u8], pos: u64, n: u8) -> (bits: Result<(u32, u64), Ending>)
    requires
        data@.len() <= MAX_CHUNK,
        pos <= 8 * data@.len(),
        n <= 28,
    ensures
        bits == read(data@, pos, n),
        bits matches Ok((value, next)) ==> next <= 8 * data@.len() && value < pow2(n as nat),
{
    if pos + n as u64 > 8 * data.len() as u64 {
        return Err(Ending::Fails);
    }
    let mut k: u8 = n;
    let mut value: u32 = 0;
    proof {
        lemma2_to64();
    }
    while k > 0
        invariant
            data@.len() <= MAX_CHUNK,
            k <= n <= 28,
            pos + n <= 8 * data@.len(),
            value == number(data@, pos + k, (n - k) as nat),
            value < pow2((n - k) as nat),
        decreases k,
    {
        k = k - 1;
        let at: u64 = pos + k as u64;
        let byte: u8 = data[(at / 8) as usize];
        let shift: u8 = (at % 8) as u8;
        let bit: u8 = (byte >> shift) & 1u8;
        proof {
            assert((byte >> shift) & 1u8 <= 1u8) by (bit_vector);
            lemma2_to64();
            lemma_pow2_unfold((n - k) as nat);
            if n - k - 1 < 27 {
                lemma_pow2_strictly_increases((n - k - 1) as nat, 27);
            }
        }
        value = bit as u32 + 2 * value;
    }
    Ok((value, pos + n as u64))
}

/// Bits that follow other bits count for as many times two as these are many, and the eight bits of a
/// byte, read together, are that byte.
pub proof fn law_bits_in_parts(data: Seq<u8>, pos: int, n: nat, more: nat, at: int)
    requires
        0 <= at,
    ensures
        number(data, pos, n + more) == number(data, pos, n) + pow2(n) * number(data, pos + n, more),
        number(data, 8 * at, 8) == data[at],
    decreases n,
{
    let byte: u8 = data[at];
    assert(byte as nat == (byte & 1) as nat + 2 * (((byte >> 1) & 1) as nat + 2 * (((byte >> 2) & 1)
        as nat + 2 * (((byte >> 3) & 1) as nat + 2 * (((byte >> 4) & 1) as nat + 2 * (((byte >> 5)
        & 1) as nat + 2 * (((byte >> 6) & 1) as nat + 2 * ((byte >> 7) & 1) as nat))))))) by {
        assert(byte == (byte & 1) + 2 * ((byte >> 1) & 1) + 4 * ((byte >> 2) & 1) + 8 * ((byte >> 3)
            & 1) + 16 * ((byte >> 4) & 1) + 32 * ((byte >> 5) & 1) + 64 * ((byte >> 6) & 1) + 128
            * ((byte >> 7) & 1)) by (bit_vector);
    }
    assert(byte >> 0u8 == byte) by (bit_vector);
    reveal_with_fuel(number, 9);
    assert(number(data, 8 * at, 8) == data[at]);
    lemma2_to64();
    if n > 0 {
        let rest = (n - 1) as nat;
        law_bits_in_parts(data, pos + 1, rest, more, at);
        lemma_pow2_unfold(n);
        assert((n + more - 1) as nat == rest + more);
        let tail = number(data, pos + n, more);
        let half = pow2(rest);
        assert(2 * (half * tail) == (2 * half) * tail) by (nonlinear_arith);
        assert(number(data, pos, n + more) == bit_at(data, pos) as nat + 2 * number(
            data,
            pos + 1,
            (n + more - 1) as nat,
        ));
    }
}

} // verus!
