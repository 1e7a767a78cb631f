//! Where the HPACK decoder stands while it reads a header block, and which
//! blocks it reads to their end.
//!
//! The decoder reads a block as a run of representations. At the start, the
//! octets with bit `0x20` set begin dynamic table size updates (integers with
//! a 5-bit prefix, at most 4096 here). Then each call of `decode_field` reads
//! one field: an indexed field (a first octet from `0x80`, an integer with a
//! 7-bit prefix) or a literal field (a name, given by an index or as a string,
//! then a value string). A string is its length (an integer with a 7-bit
//! prefix) and that many octets. A call that fails leaves the reader where the
//! failure was found: at the end of the block where it ran out of octets, just
//! after a string's length where the string's octets run past the end, and
//! after the whole field where the field's index or Huffman code is wrong. A
//! first octet from `0x20` to `0x3F` among the fields is refused without
//! moving the reader, so reading on from there never ends.
//!
//! An integer whose prefix is full goes on in continuation octets of seven
//! bits each. The decoder holds integers in 16 bits: it adds each continuation
//! octet, shifted into place, with a check for overflow (a failed read); of a
//! third one it keeps the two lowest bits (the rest is shifted out of 16
//! bits), and a fourth one it cannot shift at all: it panics. A block with an
//! integer that goes on to a fourth continuation octet is not accepted.
//!
//! A decoded field may hold at most 65503 octets of name and value, or the
//! decoder panics. A literal field is accepted only where the most that its
//! name and value can decode to stays within that: a plain string decodes to
//! its own length, a Huffman string of `n` octets to at most `8 * n / 5`
//! (Huffman codes are at least five bits long), and an indexed name to at
//! most 4064 octets (a dynamic table entry holds at most 4096 octets,
//! 32 of them counted for the entry itself).

use vstd::prelude::*;

verus! {

/// How a read of one element of a block ends.
pub enum Read {
    /// The element's value and the position after it.
    Done(usize, usize),
    /// The read fails, leaving the reader at this position.
    Failed(usize),
    /// The read fails without moving the reader.
    Stuck,
    /// A read on which the decoder may panic: an integer that goes on to a
    /// fourth continuation octet, or a field that may decode too long.
    Long,
}

/// The integer whose first octet is at `p`, its prefix given by `mask`
/// (`0x0F`, `0x1F`, `0x3F` or `0x7F`).
pub open spec fn int_read(b: Seq<u8>, p: int, mask: u8) -> Read {
    if p < 0 || p >= b.len() {
        Read::Failed(b.len() as usize)
    } else if (b[p] & mask) < mask {
        Read::Done((b[p] & mask) as usize, (p + 1) as usize)
    } else if p + 1 >= b.len() {
        Read::Failed(b.len() as usize)
    } else if b[p + 1] < 128 {
        Read::Done((mask + (b[p + 1] & 127u8)) as usize, (p + 2) as usize)
    } else if p + 2 >= b.len() {
        Read::Failed(b.len() as usize)
    } else if b[p + 2] < 128 {
        Read::Done((mask + (b[p + 1] & 127u8) + (b[p + 2] & 127u8) * 128) as usize, (p + 3) as usize)
    } else if p + 3 >= b.len() {
        Read::Failed(b.len() as usize)
    } else if mask + (b[p + 1] & 127u8) + (b[p + 2] & 127u8) * 128 + (b[p + 3] & 3u8) * 16384
        > 0xFFFF {
        Read::Failed((p + 4) as usize)
    } else if b[p + 3] < 128 {
        Read::Done(
            (mask + (b[p + 1] & 127u8) + (b[p + 2] & 127u8) * 128 + (b[p + 3] & 3u8) * 16384) as usize,
            (p + 4) as usize,
        )
    } else if p + 4 >= b.len() {
        Read::Failed(b.len() as usize)
    } else {
        Read::Long
    }
}

/// The most octets that a string of `len` octets decodes to, `first` being
/// the first octet of its length (whose top bit marks Huffman coding).
pub open spec fn decoded_bound(first: u8, len: usize) -> int {
    if first >= 128 {
        len * 8 / 5
    } else {
        len as int
    }
}

/// The string whose length starts at `p`: its length and the position after
/// its octets.
pub open spec fn string_read(b: Seq<u8>, p: int) -> Read {
    match int_read(b, p, 127) {
        Read::Done(len, e) => if e + len <= b.len() {
            Read::Done(len, (e + len) as usize)
        } else {
            Read::Failed(e)
        },
        other => other,
    }
}

/// One call of `decode_field` on the field whose first octet is at `p`
/// (inside the block): where it leaves the reader.
pub open spec fn field_read(b: Seq<u8>, p: int) -> Read {
    let x = b[p];
    if x >= 128 {
        int_read(b, p, 127)
    } else if x >= 32 && x < 64 {
        Read::Stuck
    } else {
        let name = if x >= 64 {
            if x & 63u8 == 0 {
                string_read(b, p + 1)
            } else {
                int_read(b, p, 63)
            }
        } else if x & 15u8 == 0 {
            string_read(b, p + 1)
        } else {
            int_read(b, p, 15)
        };
        let name_is_string = if x >= 64 {
            x & 63u8 == 0
        } else {
            x & 15u8 == 0
        };
        match name {
            Read::Done(n, e) => match string_read(b, e as int) {
                Read::Done(v, e2) => {
                    let name_bound = if name_is_string {
                        decoded_bound(b[p + 1], n)
                    } else {
                        4064
                    };
                    if name_bound + decoded_bound(b[e as int], v) + 32 <= 0xFFFF {
                        Read::Done(0, e2)
                    } else {
                        Read::Long
                    }
                },
                other => other,
            },
            other => other,
        }
    }
}

/// Whether the calls of `decode_field` from position `p` on come to the end
/// of the block, every integer on the way short enough.
pub open spec fn fields_accepted(b: Seq<u8>, p: int) -> bool
    decreases b.len() - p,
{
    if p < 0 || p >= b.len() {
        true
    } else {
        match field_read(b, p) {
            Read::Done(_, e) => e > p && fields_accepted(b, e as int),
            Read::Failed(e) => e > p && fields_accepted(b, e as int),
            Read::Stuck => false,
            Read::Long => false,
        }
    }
}

/// Whether `enter_header_block` takes the size updates from position `p` on
/// (each at most 4096, the block going on after them) and the fields after
/// them are accepted.
pub open spec fn updates_accepted(b: Seq<u8>, p: int) -> bool
    decreases b.len() - p,
{
    if p < 0 || p >= b.len() {
        false
    } else if b[p] & 32u8 != 0 {
        match int_read(b, p, 31) {
            Read::Done(v, e) => v <= 4096 && e > p && updates_accepted(b, e as int),
            _ => false,
        }
    } else {
        fields_accepted(b, p)
    }
}

/// Whether the decoder enters `block` and reads it to its end, every call of
/// `decode_field` moving on and every integer short enough. An empty block
/// is not entered.
pub open spec fn block_accepted(block: Seq<u8>) -> bool {
    updates_accepted(block, 0)
}

/// Reads the integer at `p` whose prefix is given by `mask`.
fn read_int(b: &[u8], p: usize, mask: u8) -> (r: Read)
    ensures
        r == int_read(b@, p as int, mask),
{
    if p >= b.len() {
        return Read::Failed(b.len());
    }
    let first = b[p] & mask;
    if first < mask {
        return Read::Done(first as usize, p + 1);
    }
    if p + 1 >= b.len() {
        return Read::Failed(b.len());
    }
    let c1 = b[p + 1];
    if c1 < 128 {
        return Read::Done(mask as usize + (c1 & 127) as usize, p + 2);
    }
    if p + 2 >= b.len() {
        return Read::Failed(b.len());
    }
    let c2 = b[p + 2];
    let v2: usize = mask as usize + (c1 & 127) as usize + (c2 & 127) as usize * 128;
    if c2 < 128 {
        return Read::Done(v2, p + 3);
    }
    if p + 3 >= b.len() {
        return Read::Failed(b.len());
    }
    let c3 = b[p + 3];
    let v3: usize = v2 + (c3 & 3) as usize * 16384;
    if v3 > 0xFFFF {
        Read::Failed(p + 4)
    } else if c3 < 128 {
        Read::Done(v3, p + 4)
    } else if p + 4 >= b.len() {
        Read::Failed(b.len())
    } else {
        Read::Long
    }
}

/// The most octets that a string of `len` octets decodes to.
fn bound_of(first: u8, len: usize) -> (r: usize)
    requires
        len <= 0xFFFF,
    ensures
        r == decoded_bound(first, len),
{
    if first >= 128 {
        len * 8 / 5
    } else {
        len
    }
}

/// Reads the string whose length starts at `p`.
fn read_string(b: &[u8], p: usize) -> (r: Read)
    ensures
        r == string_read(b@, p as int),
{
    match read_int(b, p, 127) {
        Read::Done(len, e) => {
            if len <= b.len() - e {
                Read::Done(len, e + len)
            } else {
                Read::Failed(e)
            }
        },
        other => other,
    }
}

/// Reads the field whose first octet is at `p`.
fn read_field(b: &[u8], p: usize) -> (r: Read)
    requires
        p < b@.len(),
    ensures
        r == field_read(b@, p as int),
{
    let x = b[p];
    if x >= 128 {
        return read_int(b, p, 127);
    }
    if x >= 32 && x < 64 {
        return Read::Stuck;
    }
    let name = if x >= 64 {
        if x & 63 == 0 {
            read_string(b, p + 1)
        } else {
            read_int(b, p, 63)
        }
    } else if x & 15 == 0 {
        read_string(b, p + 1)
    } else {
        read_int(b, p, 15)
    };
    let name_is_string = if x >= 64 {
        x & 63 == 0
    } else {
        x & 15 == 0
    };
    match name {
        Read::Done(n, e) => match read_string(b, e) {
            Read::Done(v, e2) => {
                let name_bound = if name_is_string {
                    bound_of(b[p + 1], n)
                } else {
                    4064
                };
                if name_bound + bound_of(b[e], v) + 32 <= 0xFFFF {
                    Read::Done(0, e2)
                } else {
                    Read::Long
                }
            },
            other => other,
        },
        other => other,
    }
}

/// Whether the decoder reads `block` to its end (see [`block_accepted`]).
pub fn block_is_accepted(block: &[u8]) -> (r: bool)
    ensures
        r == block_accepted(block@),
{
    let mut p: usize = 0;
    loop
        invariant
            p <= block@.len(),
            block_accepted(block@) == updates_accepted(block@, p as int),
        ensures
            p < block@.len(),
            block@[p as int] & 32u8 == 0,
            block_accepted(block@) == updates_accepted(block@, p as int),
        decreases block@.len() - p,
    {
        if p >= block.len() {
            return false;
        }
        if block[p] & 32 == 0 {
            break;
        }
        match read_int(block, p, 31) {
            Read::Done(v, e) => {
                if v > 4096 || e <= p {
                    return false;
                }
                p = e;
            },
            _ => {
                return false;
            },
        }
    }
    assert(block_accepted(block@) == fields_accepted(block@, p as int));
    loop
        invariant
            p <= block@.len(),
            block_accepted(block@) == fields_accepted(block@, p as int),
        decreases block@.len() - p,
    {
        if p >= block.len() {
            return true;
        }
        match read_field(block, p) {
            Read::Done(_, e) => {
                if e <= p {
                    return false;
                }
                p = e;
            },
            Read::Failed(e) => {
                if e <= p {
                    return false;
                }
                p = e;
            },
            _ => {
                return false;
            },
        }
    }
}

/// A field representation whose integers fit in their prefixes and whose
/// strings are plain and shorter than 127 octets.
pub enum ShortField {
    /// An indexed field, `index` from 1 to 126.
    Indexed { index: u8 },
    /// A literal field: `form` 0 with incremental indexing, 1 without
    /// indexing, 2 never indexed; its name given by `index` (below 63 for
    /// form 0, below 15 for the others) or, where `index` is 0, by `name`.
    Literal { form: u8, index: u8, name: Seq<u8>, value: Seq<u8> },
}

/// Whether `f` is such a representation.
pub open spec fn short_field_ok(f: ShortField) -> bool {
    match f {
        ShortField::Indexed { index } => 1 <= index < 127,
        ShortField::Literal { form, index, name, value } => {
            &&& form < 3
            &&& index < (if form == 0 { 63u8 } else { 15u8 })
            &&& (index == 0 ==> name.len() < 127)
            &&& value.len() < 127
        },
    }
}

/// A plain string: its length, then its octets.
pub open spec fn short_string_bytes(s: Seq<u8>) -> Seq<u8> {
    seq![s.len() as u8] + s
}

/// The octets of a field representation.
pub open spec fn short_field_bytes(f: ShortField) -> Seq<u8> {
    match f {
        ShortField::Indexed { index } => seq![(128 + index) as u8],
        ShortField::Literal { form, index, name, value } => {
            let base: int = if form == 0 { 64 } else if form == 1 { 0 } else { 16 };
            if index == 0 {
                seq![base as u8] + short_string_bytes(name) + short_string_bytes(value)
            } else {
                seq![(base + index) as u8] + short_string_bytes(value)
            }
        },
    }
}

/// The octets of a run of field representations, one after another.
pub open spec fn short_fields_bytes(fs: Seq<ShortField>) -> Seq<u8>
    decreases fs.len(),
{
    if fs.len() == 0 {
        Seq::empty()
    } else {
        short_field_bytes(fs[0]) + short_fields_bytes(fs.drop_first())
    }
}

/// A plain string shorter than 127 octets is read whole.
proof fn lemma_short_string_read(b: Seq<u8>, q: int, s: Seq<u8>)
    requires
        s.len() < 127,
        0 <= q,
        q + 1 + s.len() <= b.len(),
        b.len() <= usize::MAX,
        b.subrange(q, q + 1 + s.len()) == short_string_bytes(s),
    ensures
        b[q] == s.len(),
        string_read(b, q) == Read::Done(s.len() as usize, (q + 1 + s.len()) as usize),
{
    assert(b[q] == b.subrange(q, q + 1 + s.len())[0]);
    let x = b[q];
    assert(x < 127 ==> x & 127u8 == x) by (bit_vector);
}

/// A short field representation is read whole by one call of `decode_field`.
proof fn lemma_short_field_read(b: Seq<u8>, p: int, f: ShortField)
    requires
        short_field_ok(f),
        0 <= p,
        p + short_field_bytes(f).len() <= b.len(),
        b.len() <= usize::MAX,
        b.subrange(p, p + short_field_bytes(f).len()) == short_field_bytes(f),
    ensures
        field_read(b, p) matches Read::Done(_, e) && e == p + short_field_bytes(f).len(),
{
    let fb = short_field_bytes(f);
    let x = b[p];
    assert(x == b.subrange(p, p + fb.len())[0]);
    match f {
        ShortField::Indexed { index } => {
            assert(x == (128 + index) as u8);
            assert(128 <= x ==> x & 127u8 == x - 128) by (bit_vector);
        },
        ShortField::Literal { form, index, name, value } => {
            assert(64 <= x < 128 ==> x & 63u8 == x - 64) by (bit_vector);
            assert(x < 16 ==> x & 15u8 == x) by (bit_vector);
            assert(16 <= x < 32 ==> x & 15u8 == x - 16) by (bit_vector);
            if index == 0 {
                let ns = short_string_bytes(name);
                let vs = short_string_bytes(value);
                assert(fb == seq![fb[0]] + ns + vs);
                assert(b.subrange(p + 1, p + 1 + ns.len()) =~= ns) by {
                    assert(b.subrange(p + 1, p + 1 + ns.len()) =~= b.subrange(p, p + fb.len()).subrange(1, 1 + ns.len() as int));
                    assert(fb.subrange(1, 1 + ns.len() as int) =~= ns);
                }
                lemma_short_string_read(b, p + 1, name);
                let e = p + 1 + ns.len();
                assert(b.subrange(e, e + vs.len()) =~= vs) by {
                    assert(b.subrange(e, e + vs.len()) =~= b.subrange(p, p + fb.len()).subrange(1 + ns.len() as int, fb.len() as int));
                    assert(fb.subrange(1 + ns.len() as int, fb.len() as int) =~= vs);
                }
                lemma_short_string_read(b, e, value);
            } else {
                let vs = short_string_bytes(value);
                assert(fb == seq![fb[0]] + vs);
                assert(b.subrange(p + 1, p + 1 + vs.len()) =~= vs) by {
                    assert(b.subrange(p + 1, p + 1 + vs.len()) =~= b.subrange(p, p + fb.len()).subrange(1, fb.len() as int));
                    assert(fb.subrange(1, fb.len() as int) =~= vs);
                }
                lemma_short_string_read(b, p + 1, value);
            }
        },
    }
}

/// The calls of `decode_field` on a run of short field representations come
/// to its end.
proof fn lemma_short_fields_accepted(b: Seq<u8>, p: int, fs: Seq<ShortField>)
    requires
        forall|i: int| 0 <= i < fs.len() ==> short_field_ok(#[trigger] fs[i]),
        0 <= p <= b.len(),
        b.len() <= usize::MAX,
        b.subrange(p, b.len() as int) == short_fields_bytes(fs),
    ensures
        fields_accepted(b, p),
    decreases fs.len(),
{
    if fs.len() > 0 {
        let f = fs[0];
        let fb = short_field_bytes(f);
        let rest = fs.drop_first();
        assert(short_field_ok(fs[0]));
        assert(b.subrange(p, b.len() as int) == fb + short_fields_bytes(rest));
        assert(b.subrange(p, p + fb.len()) =~= fb) by {
            assert(b.subrange(p, p + fb.len()) =~= b.subrange(p, b.len() as int).subrange(0, fb.len() as int));
        }
        lemma_short_field_read(b, p, f);
        let e = p + fb.len();
        assert(b.subrange(e, b.len() as int) =~= short_fields_bytes(rest)) by {
            assert(b.subrange(e, b.len() as int) =~= b.subrange(p, b.len() as int).subrange(fb.len() as int, b.len() - p));
        }
        assert forall|i: int| 0 <= i < rest.len() implies short_field_ok(#[trigger] rest[i]) by {
            assert(rest[i] == fs[i + 1]);
        }
        lemma_short_fields_accepted(b, e, rest);
    } else {
        assert(b.subrange(p, b.len() as int).len() == 0);
    }
}

/// A block made of indexed fields and literal fields of any of the three
/// forms, with indexed or literal names, whose indexes fit in their prefixes
/// and whose names and values are plain and shorter than 127 octets, is read
/// by the decoder to its end, provided its first octet does not have bit
/// `0x20` set (such an octet starts a size update) and its length fits in a
/// `usize`.
pub proof fn lemma_short_block_accepted(fs: Seq<ShortField>)
    requires
        forall|i: int| 0 <= i < fs.len() ==> short_field_ok(#[trigger] fs[i]),
        fs.len() > 0,
        short_fields_bytes(fs).len() <= usize::MAX,
        short_fields_bytes(fs)[0] & 32u8 == 0,
    ensures
        block_accepted(short_fields_bytes(fs)),
{
    let b = short_fields_bytes(fs);
    assert(short_field_ok(fs[0]));
    assert(b.len() > 0) by {
        assert(b == short_field_bytes(fs[0]) + short_fields_bytes(fs.drop_first()));
    }
    assert(b.subrange(0, b.len() as int) =~= b);
    lemma_short_fields_accepted(b, 0, fs);
}

} // verus!
