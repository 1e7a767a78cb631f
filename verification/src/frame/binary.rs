//! Binary digit strings, as `format!("{:b}")` writes them, and how padding
//! them to fixed widths and reading them back as bytes gives big-endian
//! fields.

use vstd::prelude::*;
use vstd::arithmetic::power2::{pow2, lemma_pow2_unfold, lemma_pow2_adds, lemma_pow2_pos, lemma2_to64};
use vstd::arithmetic::div_mod::{lemma_breakdown, lemma_div_denominator, lemma_small_mod, lemma_fundamental_div_mod_converse};
use vstd::utf8::{is_ascii_chars, is_ascii_chars_encode_utf8};
use crate::proto::util::{zeros, padded, byte_len, binary_value};

verus! {

/// The binary digit of the parity of `n`.
pub open spec fn digit_char(n: nat) -> char {
    if n % 2 == 1 {
        '1'
    } else {
        '0'
    }
}

/// The binary digits of `n`, most significant first, without leading zeros
/// (`0` is written `"0"`).
pub open spec fn binary_digits(n: nat) -> Seq<char>
    decreases n,
{
    if n < 2 {
        seq![digit_char(n)]
    } else {
        binary_digits(n / 2).push(digit_char(n))
    }
}

/// The `w` lowest binary digits of `n`, most significant first.
pub open spec fn fixed_digits(n: nat, w: nat) -> Seq<char>
    decreases w,
{
    if w == 0 {
        Seq::empty()
    } else {
        fixed_digits(n / 2, (w - 1) as nat).push(digit_char(n))
    }
}

/// Whether every character of `s` is a binary digit.
pub open spec fn is_binary(s: Seq<char>) -> bool {
    forall|i: int| 0 <= i < s.len() ==> s[i] == '0' || s[i] == '1'
}

/// Binary digits are ASCII, one byte each.
pub proof fn lemma_binary_ascii(s: Seq<char>)
    requires
        is_binary(s),
    ensures
        is_ascii_chars(s),
        byte_len(s) == s.len(),
{
    assert(is_ascii_chars(s));
    is_ascii_chars_encode_utf8(s);
}

/// What `binary_digits` writes is binary, and has at most `w` digits when
/// `n < 2^w`.
pub proof fn lemma_binary_digits(n: nat, w: nat)
    ensures
        is_binary(binary_digits(n)),
        binary_digits(n).len() >= 1,
        w >= 1 && n < pow2(w) ==> binary_digits(n).len() <= w,
    decreases n,
{
    if n >= 2 {
        lemma_binary_digits(n / 2, (w - 1) as nat);
        if w >= 1 && n < pow2(w) {
            lemma_pow2_unfold(w);
            if w == 1 {
                lemma2_to64();
            }
        }
        assert(is_binary(binary_digits(n)));
    }
}

/// What `fixed_digits` writes is binary and `w` long.
pub proof fn lemma_fixed_binary(n: nat, w: nat)
    ensures
        is_binary(fixed_digits(n, w)),
        fixed_digits(n, w).len() == w,
    decreases w,
{
    if w > 0 {
        lemma_fixed_binary(n / 2, (w - 1) as nat);
        assert(is_binary(fixed_digits(n, w)));
    }
}

/// The digits of zero are zeros.
proof fn lemma_fixed_zero(w: nat)
    ensures
        fixed_digits(0, w) == zeros(w),
    decreases w,
{
    if w > 0 {
        lemma_fixed_zero((w - 1) as nat);
        assert(fixed_digits(0, w) =~= zeros(w));
    }
}

/// Padding the binary digits of `n < 2^w` to `w` characters gives its `w`
/// lowest digits.
pub proof fn lemma_pad_binary(n: nat, w: nat)
    requires
        w >= 1,
        n < pow2(w),
    ensures
        padded(binary_digits(n), w) == fixed_digits(n, w),
    decreases n,
{
    lemma_binary_digits(n, w);
    lemma_binary_ascii(binary_digits(n));
    if n < 2 {
        lemma_fixed_zero((w - 1) as nat);
        assert(fixed_digits(n, w) == fixed_digits(0, (w - 1) as nat).push(digit_char(n)));
        assert(padded(binary_digits(n), w) =~= fixed_digits(n, w));
    } else {
        lemma_pow2_unfold(w);
        if w == 1 {
            lemma2_to64();
        }
        let w1 = (w - 1) as nat;
        lemma_pad_binary(n / 2, w1);
        lemma_binary_digits(n / 2, w1);
        lemma_binary_ascii(binary_digits(n / 2));
        assert(padded(binary_digits(n), w) =~= padded(binary_digits(n / 2), w1).push(digit_char(n)));
    }
}

/// The value of the `w` lowest digits of `n` is `n` modulo `2^w`.
pub proof fn lemma_fixed_value(n: nat, w: nat)
    ensures
        binary_value(fixed_digits(n, w)) == n % pow2(w),
    decreases w,
{
    if w == 0 {
        lemma2_to64();
    } else {
        let w1 = (w - 1) as nat;
        lemma_fixed_value(n / 2, w1);
        lemma_pow2_unfold(w);
        lemma_pow2_pos(w1);
        lemma_breakdown(n as int, 2, pow2(w1) as int);
        assert(fixed_digits(n, w).drop_last() =~= fixed_digits(n / 2, w1));
    }
}

/// The `a + b` lowest digits of `n` are the `a` lowest digits of `n / 2^b`,
/// then the `b` lowest digits of `n`.
pub proof fn lemma_fixed_split(n: nat, a: nat, b: nat)
    ensures
        fixed_digits(n, a + b) == fixed_digits(n / pow2(b), a) + fixed_digits(n, b),
    decreases b,
{
    if b == 0 {
        lemma2_to64();
        assert(fixed_digits(n, a + b) =~= fixed_digits(n / pow2(b), a) + fixed_digits(n, b));
    } else {
        let b1 = (b - 1) as nat;
        lemma_fixed_split(n / 2, a, b1);
        lemma_pow2_unfold(b);
        lemma_pow2_pos(b1);
        lemma_div_denominator(n as int, 2, pow2(b1) as int);
        assert(((a + b) - 1) as nat == a + b1);
        assert(fixed_digits(n, a + b) =~= fixed_digits(n / pow2(b), a) + fixed_digits(n, b));
    }
}

/// Below `2^31`, the 32 lowest digits are a zero and the 31 lowest digits.
pub proof fn lemma_fixed_top_zero(n: nat)
    requires
        n < 0x8000_0000,
    ensures
        fixed_digits(n, 32) == seq!['0'] + fixed_digits(n, 31),
{
    lemma_fixed_split(n, 1, 31);
    lemma2_to64();
    lemma_fundamental_div_mod_converse(n as int, 0x8000_0000, 0, n as int);
    assert(fixed_digits(0, 1) =~= seq!['0']) by {
        reveal_with_fuel(fixed_digits, 2);
    }
}

} // verus!

verus! {

/// The binary digits of `n`, as `format!("{:b}", n)` writes them.
pub fn binary_string(n: u32) -> (r: String)
    ensures
        r@ == binary_digits(n as nat),
    decreases n,
{
    let one = "1";
    let zero = "0";
    proof {
        reveal_strlit("1");
        reveal_strlit("0");
    }
    if n < 2 {
        if n == 1 {
            String::from_str(one)
        } else {
            String::from_str(zero)
        }
    } else {
        let mut s = binary_string(n / 2);
        if n % 2 == 1 {
            s.append(one);
        } else {
            s.append(zero);
        }
        s
    }
}

/// Padding keeps a string binary.
pub proof fn lemma_padded_binary(s: Seq<char>, w: nat)
    requires
        is_binary(s),
    ensures
        is_binary(padded(s, w)),
{
    assert(is_binary(padded(s, w)));
}

} // verus!

verus! {

/// A byte written in binary, padded to eight digits and read back as bytes,
/// is that byte.
pub proof fn lemma_byte_roundtrip(n: u8)
    ensures
        crate::proto::util::binary_bytes(padded(binary_digits(n as nat), 8)) == seq![n],
{
    lemma2_to64();
    lemma_pad_binary(n as nat, 8);
    lemma_fixed_binary(n as nat, 8);
    lemma_fixed_value(n as nat, 8);
    lemma_small_mod(n as nat, 256);
    let d = fixed_digits(n as nat, 8);
    assert(d.subrange(0, 8) =~= d);
    assert(crate::proto::util::binary_bytes(d) =~= seq![n]);
}

} // verus!
