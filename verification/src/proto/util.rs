//! Small helpers: powers, zero padding, binary strings to bytes, frame type
//! names, and the header block helpers of the string-keyed header fields.

use vstd::prelude::*;
use crate::fields::TextFields;
use crate::proto::frame::{DATA, HEADERS, PRIORITY, RST_STREAM, SETTINGS, PING, GOAWAY, WINDOW_UPDATE, CONTINUATION};

verus! {

/// `n` to the power `t`.
pub open spec fn power(n: nat, t: nat) -> nat
    decreases t,
{
    if t == 0 {
        1
    } else {
        n * power(n, (t - 1) as nat)
    }
}

/// For `n >= 1` the powers of `n` do not decrease.
proof fn lemma_power_increases(n: nat, a: nat, b: nat)
    requires
        n >= 1,
        a <= b,
    ensures
        power(n, a) <= power(n, b),
    decreases b - a,
{
    if a < b {
        lemma_power_increases(n, a, (b - 1) as nat);
        let p = power(n, (b - 1) as nat);
        assert(p <= n * p) by (nonlinear_arith)
            requires
                n >= 1,
        ;
    }
}

/// `n` to the power `t`, for results that fit in a `u32`.
pub fn pow(n: u32, t: u32) -> (r: u32)
    requires
        power(n as nat, t as nat) <= u32::MAX,
    ensures
        r == power(n as nat, t as nat),
{
    if t == 0 {
        1
    } else {
        let mut g = n;
        let mut k: u32 = 0;
        assert(power(n as nat, 1) == n) by {
            reveal_with_fuel(power, 2);
        }
        while k < t - 1
            invariant
                t >= 1,
                k <= t - 1,
                g == power(n as nat, (k + 1) as nat),
                power(n as nat, t as nat) <= u32::MAX,
            decreases t - 1 - k,
        {
            proof {
                if n >= 1 {
                    lemma_power_increases(n as nat, (k + 2) as nat, t as nat);
                }
                assert(power(n as nat, (k + 2) as nat) == n * power(n as nat, (k + 1) as nat));
                assert(g * n == n * g) by (nonlinear_arith);
                if n == 0 {
                    assert(g * n == 0) by (nonlinear_arith)
                        requires
                            n == 0,
                    ;
                }
            }
            g = g * n;
            k = k + 1;
        }
        g
    }
}

/// `k` zero characters.
pub open spec fn zeros(k: nat) -> Seq<char> {
    Seq::new(k, |i: int| '0')
}

/// The number of bytes of the UTF-8 encoding of `s`.
pub open spec fn byte_len(s: Seq<char>) -> nat {
    vstd::utf8::encode_utf8(s).len()
}

/// `s` with zeros put in front until it is `len` bytes long; a string that is
/// long enough is left as it is.
pub open spec fn padded(s: Seq<char>, len: nat) -> Seq<char> {
    if byte_len(s) < len {
        zeros((len - byte_len(s)) as nat) + s
    } else {
        s
    }
}

/// Puts zeros in front of `s` until it is `len` bytes long.
pub fn pad(s: String, len: usize) -> (r: String)
    ensures
        r@ == padded(s@, len as nat),
{
    let n = s.as_str().as_bytes().len();
    if n < len {
        let i = len - n;
        let mut t = String::new();
        let zero = "0";
        proof {
            reveal_strlit("0");
        }
        let mut k: usize = 0;
        while k < i
            invariant
                k <= i,
                zero@ == seq!['0'],
                t@ == zeros(k as nat),
            decreases i - k,
        {
            t.append(zero);
            assert(t@ =~= zeros((k + 1) as nat));
            k = k + 1;
        }
        t.append(s.as_str());
        t
    } else {
        s
    }
}

/// The number whose binary digits are `digits`, most significant first; a
/// digit is `1` when it is the character `'1'`.
pub open spec fn binary_value(digits: Seq<char>) -> nat
    decreases digits.len(),
{
    if digits.len() == 0 {
        0
    } else {
        2 * binary_value(digits.drop_last()) + (if digits.last() == '1' { 1nat } else { 0nat })
    }
}

/// The bytes that the binary string `s` spells, eight characters to a byte.
pub open spec fn binary_bytes(s: Seq<char>) -> Seq<u8> {
    Seq::new(s.len() / 8, |k: int| binary_value(s.subrange(8 * k, 8 * k + 8)) as u8)
}

/// `binary_value` of `count` digits is below `2^count`.
proof fn lemma_binary_value_bound(digits: Seq<char>)
    ensures
        binary_value(digits) < vstd::arithmetic::power2::pow2(digits.len()),
    decreases digits.len(),
{
    if digits.len() > 0 {
        lemma_binary_value_bound(digits.drop_last());
        vstd::arithmetic::power2::lemma_pow2_unfold(digits.len());
        assert(digits.drop_last().len() == (digits.len() - 1) as nat);
    } else {
        vstd::arithmetic::power2::lemma2_to64();
    }
}

/// Turns a binary string of ASCII characters, eight to a byte, into bytes.
pub fn bin_to_vec(s: String) -> (r: Vec<u8>)
    requires
        s.is_ascii(),
        byte_len(s@) % 8 == 0,
    ensures
        r@ == binary_bytes(s@),
        forall|k: int| 0 <= k < r@.len() ==> r@[k] == binary_value(s@.subrange(8 * k, 8 * k + 8)),
{
    let st = s.as_str();
    proof {
        vstd::string::is_ascii_spec_bytes(st);
    }
    let len = st.as_bytes().len() / 8;
    let mut v: Vec<u8> = Vec::new();
    let mut c: usize = 0;
    while c < len
        invariant
            len == s@.len() / 8,
            st@ == s@,
            s@.len() <= usize::MAX,
            c <= len,
            v@.len() == c,
            forall|k: int| 0 <= k < c ==> v@[k] == binary_value(s@.subrange(8 * k, 8 * k + 8)),
        decreases len - c,
    {
        let mut i: u8 = 0;
        let mut y: usize = 0;
        while y < 8
            invariant
                c < len,
                len == s@.len() / 8,
                st@ == s@,
                y <= 8,
                s@.len() <= usize::MAX,
                i == binary_value(s@.subrange(8 * c, 8 * c + y)),
            decreases 8 - y,
        {
            proof {
                let d = s@.subrange(8 * c, 8 * c + y);
                lemma_binary_value_bound(d);
                vstd::arithmetic::power2::lemma2_to64();
                vstd::arithmetic::power2::lemma_pow2_strictly_increases(y as nat, 8);
                assert(8 * c + 8 <= s@.len()) by (nonlinear_arith)
                    requires
                        c < len,
                        len == s@.len() / 8,
                ;
                assert(s@.subrange(8 * c, 8 * c + y + 1).drop_last() =~= d);
            }
            let ch = st.get_char(8 * c + y);
            if ch == '1' {
                i = i * 2 + 1;
            } else {
                i = i * 2;
            }
            y = y + 1;
        }
        v.push(i);
        c = c + 1;
    }
    assert(v@ =~= binary_bytes(s@));
    v
}

/// The name of frame type `i`.
pub open spec fn frame_type_label(i: u8) -> Seq<char> {
    if i == DATA {
        "DATA"@
    } else if i == HEADERS {
        "HEADERS"@
    } else if i == PRIORITY {
        "PRIORITY"@
    } else if i == RST_STREAM {
        "RST_STREAM"@
    } else if i == SETTINGS {
        "SETTINGS"@
    } else if i == PING {
        "PING"@
    } else if i == GOAWAY {
        "GOAWAY"@
    } else if i == WINDOW_UPDATE {
        "WINDOW_UPDATE"@
    } else if i == CONTINUATION {
        "CONTINUATION"@
    } else {
        "UNKNOWN"@
    }
}

/// The name of frame type `i`.
pub fn get_type(i: u8) -> (r: String)
    ensures
        r@ == frame_type_label(i),
{
    let r = if i == DATA {
        "DATA"
    } else if i == HEADERS {
        "HEADERS"
    } else if i == PRIORITY {
        "PRIORITY"
    } else if i == RST_STREAM {
        "RST_STREAM"
    } else if i == SETTINGS {
        "SETTINGS"
    } else if i == PING {
        "PING"
    } else if i == GOAWAY {
        "GOAWAY"
    } else if i == WINDOW_UPDATE {
        "WINDOW_UPDATE"
    } else if i == CONTINUATION {
        "CONTINUATION"
    } else {
        "UNKNOWN"
    };
    String::from_str(r)
}

/// The string-keyed fields of a header block: none, whatever the block.
pub fn parse_header_block_fragment(buf: &[u8]) -> (r: TextFields)
    ensures
        r@ == Map::<Seq<char>, Seq<char>>::empty(),
{
    TextFields::new()
}

/// The header block sent for a response: the field `:status: 200`, whatever
/// the fields given.
pub fn create_header_block_fragment(headers: TextFields) -> (r: Vec<u8>)
    ensures
        r@ == seq![0x88u8],
{
    crate::proto::frame::headers::encode_status_200_block()
}

} // verus!
