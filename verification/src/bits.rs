//! Bit-level reading of byte buffers (through `bitreader`) and the
//! big-endian arithmetic that describes what such reads return.

use vstd::prelude::*;
use vstd::arithmetic::power2::*;
use vstd::arithmetic::div_mod::*;
use vstd::arithmetic::mul::*;
use bitreader::BitReader;

verus! {

/// The bit at position `i` of `bytes`, counting from the most significant bit
/// of the first byte.
pub open spec fn bit_at(bytes: Seq<u8>, i: int) -> nat {
    ((bytes[i / 8] as nat) / pow2((7 - i % 8) as nat)) % 2
}

/// The unsigned number formed by the `count` bits of `bytes` that start at bit
/// `pos`, most significant bit first.
pub open spec fn bits_value(bytes: Seq<u8>, pos: int, count: nat) -> nat
    decreases count,
{
    if count == 0 {
        0
    } else {
        2 * bits_value(bytes, pos, (count - 1) as nat) + bit_at(bytes, pos + count - 1)
    }
}


/// The big-endian value of two bytes.
pub open spec fn be16(a: u8, b: u8) -> nat {
    (a as nat) * 256 + (b as nat)
}

/// The big-endian value of three bytes.
pub open spec fn be24(a: u8, b: u8, c: u8) -> nat {
    (a as nat) * 65536 + (b as nat) * 256 + (c as nat)
}

/// The big-endian value of four bytes.
pub open spec fn be32(a: u8, b: u8, c: u8, d: u8) -> nat {
    (a as nat) * 16777216 + (b as nat) * 65536 + (c as nat) * 256 + (d as nat)
}

/// Reading `m + n` bits is reading `m` bits, then `n` more.
pub proof fn lemma_bits_split(bytes: Seq<u8>, pos: int, m: nat, n: nat)
    ensures
        bits_value(bytes, pos, m + n) == bits_value(bytes, pos, m) * pow2(n) + bits_value(
            bytes,
            pos + m,
            n,
        ),
    decreases n,
{
    if n == 0 {
        lemma2_to64();
    } else {
        lemma_bits_split(bytes, pos, m, (n - 1) as nat);
        lemma_pow2_unfold(n);
        let a = bits_value(bytes, pos, m);
        let p = pow2((n - 1) as nat);
        assert(2 * (a * p) == a * (2 * p)) by (nonlinear_arith);
        assert((pos + m) + n - 1 == pos + (m + n) - 1);
    }
}

/// A bit is 0 or 1, so `count` bits make a number below `2^count`.
pub proof fn lemma_bits_bound(bytes: Seq<u8>, pos: int, count: nat)
    ensures
        bits_value(bytes, pos, count) < pow2(count),
    decreases count,
{
    if count == 0 {
        lemma2_to64();
    } else {
        lemma_bits_bound(bytes, pos, (count - 1) as nat);
        lemma_pow2_unfold(count);
    }
}

/// The first `j` bits of byte `k` are that byte shifted right by `8 - j`.
proof fn lemma_byte_prefix(bytes: Seq<u8>, k: int, j: nat)
    requires
        0 <= k < bytes.len(),
        j <= 8,
    ensures
        bits_value(bytes, 8 * k, j) == (bytes[k] as nat) / pow2((8 - j) as nat),
    decreases j,
{
    let x = bytes[k] as nat;
    if j == 0 {
        lemma2_to64();
        lemma_small_div_converse(x as int, 256);
        assert(x / 256 == 0) by {
            lemma_fundamental_div_mod_converse(x as int, 256, 0, x as int);
        }
    } else {
        lemma_byte_prefix(bytes, k, (j - 1) as nat);
        let i = 8 * k + j - 1;
        lemma_fundamental_div_mod_converse(i, 8, k, j - 1);
        let e = (8 - j) as nat;
        let q = x / pow2(e);
        lemma_pow2_pos(e);
        lemma_pow2_unfold(e + 1);
        assert(((e + 1) as nat) == (8 - (j - 1)) as nat);
        lemma_div_denominator(x as int, pow2(e) as int, 2);
        lemma_fundamental_div_mod(q as int, 2);
        assert(bit_at(bytes, i) == q % 2);
    }
}

/// Eight bits read at a byte boundary are that byte.
pub proof fn lemma_byte_bits(bytes: Seq<u8>, k: int)
    requires
        0 <= k < bytes.len(),
    ensures
        bits_value(bytes, 8 * k, 8) == bytes[k] as nat,
{
    lemma_byte_prefix(bytes, k, 8);
    lemma2_to64();
}


/// Sixteen bits at a byte boundary are the big-endian value of two bytes.
pub proof fn lemma_be16_bits(bytes: Seq<u8>, k: int)
    requires
        0 <= k,
        k + 2 <= bytes.len(),
    ensures
        bits_value(bytes, 8 * k, 16) == be16(bytes[k], bytes[k + 1]),
{
    lemma_bits_split(bytes, 8 * k, 8, 8);
    lemma_byte_bits(bytes, k);
    lemma_byte_bits(bytes, k + 1);
    assert(8 * k + 8 == 8 * (k + 1));
    lemma2_to64();
}

/// Twenty-four bits at a byte boundary are the big-endian value of three bytes.
pub proof fn lemma_be24_bits(bytes: Seq<u8>, k: int)
    requires
        0 <= k,
        k + 3 <= bytes.len(),
    ensures
        bits_value(bytes, 8 * k, 24) == be24(bytes[k], bytes[k + 1], bytes[k + 2]),
{
    lemma_bits_split(bytes, 8 * k, 16, 8);
    lemma_be16_bits(bytes, k);
    lemma_byte_bits(bytes, k + 2);
    assert(8 * k + 16 == 8 * (k + 2));
    lemma2_to64();
}

/// Thirty-two bits at a byte boundary are the big-endian value of four bytes.
pub proof fn lemma_be32_bits(bytes: Seq<u8>, k: int)
    requires
        0 <= k,
        k + 4 <= bytes.len(),
    ensures
        bits_value(bytes, 8 * k, 32) == be32(bytes[k], bytes[k + 1], bytes[k + 2], bytes[k + 3]),
{
    lemma_bits_split(bytes, 8 * k, 24, 8);
    lemma_be24_bits(bytes, k);
    lemma_byte_bits(bytes, k + 3);
    assert(8 * k + 24 == 8 * (k + 3));
    lemma2_to64();
}

/// The 31 bits that follow the first bit of a byte boundary are the four bytes
/// there, big-endian, without their first bit.
pub proof fn lemma_low31_bits(bytes: Seq<u8>, k: int)
    requires
        0 <= k,
        k + 4 <= bytes.len(),
    ensures
        bits_value(bytes, 8 * k + 1, 31) == be32(bytes[k], bytes[k + 1], bytes[k + 2], bytes[k + 3])
            % 0x8000_0000,
{
    lemma_bits_split(bytes, 8 * k, 1, 31);
    lemma_be32_bits(bytes, k);
    lemma_bits_bound(bytes, 8 * k + 1, 31);
    lemma2_to64();
    let v = bits_value(bytes, 8 * k, 1);
    let w = bits_value(bytes, 8 * k + 1, 31);
    lemma_fundamental_div_mod_converse(
        (v * 0x8000_0000 + w) as int,
        0x8000_0000,
        v as int,
        w as int,
    );
}

/// Whether the length of `bytes` in bits, and the end of any read inside
/// them, fit in a `u64`, where bitreader's readers count positions.
pub open spec fn fits_bit_reader(bytes: Seq<u8>) -> bool {
    8 * bytes.len() + 256 <= u64::MAX
}

/// Whether a read of `count` bits at bit `pos` succeeds for a reader whose
/// values hold at most `width` bits.
pub open spec fn read_fits(bytes: Seq<u8>, pos: int, count: nat, width: nat) -> bool {
    &&& 0 <= pos
    &&& pos + count <= 8 * bytes.len()
    &&& count <= width
}

/// Reads `count` bits at bit `offset` of `bytes` with `BitReader::read_u8`.
///
/// The reader is made by `BitReader::new` and moved to `offset` by
/// `BitReader::skip`, which gives it the position that the reads before it
/// would have given it. The contract states what bitreader's source does:
/// the read succeeds exactly when the skip stays inside the buffer, the bits
/// fit in it and at most 8 of them are asked for, and then it returns those
/// bits as a number, most significant bit first.
#[verifier::external_body]
pub(crate) fn read_u8_at(bytes: &[u8], offset: u64, count: u8) -> (r: Option<u8>)
    requires
        fits_bit_reader(bytes@),
    ensures
        r is Some <==> read_fits(bytes@, offset as int, count as nat, 8),
        r matches Some(v) ==> v == bits_value(bytes@, offset as int, count as nat),
{
    let mut reader = BitReader::new(bytes);
    reader.skip(offset).ok()?;
    reader.read_u8(count).ok()
}

/// Reads `count` bits at bit `offset` of `bytes` with `BitReader::read_u16`;
/// the contract is that of [`read_u8_at`] for values of at most 16 bits.
#[verifier::external_body]
pub(crate) fn read_u16_at(bytes: &[u8], offset: u64, count: u8) -> (r: Option<u16>)
    requires
        fits_bit_reader(bytes@),
    ensures
        r is Some <==> read_fits(bytes@, offset as int, count as nat, 16),
        r matches Some(v) ==> v == bits_value(bytes@, offset as int, count as nat),
{
    let mut reader = BitReader::new(bytes);
    reader.skip(offset).ok()?;
    reader.read_u16(count).ok()
}

/// Reads `count` bits at bit `offset` of `bytes` with `BitReader::read_u32`;
/// the contract is that of [`read_u8_at`] for values of at most 32 bits.
#[verifier::external_body]
pub(crate) fn read_u32_at(bytes: &[u8], offset: u64, count: u8) -> (r: Option<u32>)
    requires
        fits_bit_reader(bytes@),
    ensures
        r is Some <==> read_fits(bytes@, offset as int, count as nat, 32),
        r matches Some(v) ==> v == bits_value(bytes@, offset as int, count as nat),
{
    let mut reader = BitReader::new(bytes);
    reader.skip(offset).ok()?;
    reader.read_u32(count).ok()
}

} // verus!
