//! SETTINGS frames.

use vstd::prelude::*;
use crate::bits::{be16, be32, fits_bit_reader, read_u16_at, read_u32_at, lemma_be16_bits, lemma_be32_bits};
use crate::frame::{SETTINGS, Size};
use crate::frame::head::Head;

verus! {

/// The default header table size.
pub const DEFAULT_SETTINGS_HEADER_TABLE_SIZE: Size = 4_096;
/// The default initial window size.
pub const DEFAULT_INITIAL_WINDOW_SIZE: Size = 65_535;
/// The default maximum frame size.
pub const DEFAULT_MAX_FRAME_SIZE: Size = 16_384;
/// The largest initial window size.
pub const MAX_INITIAL_WINDOW_SIZE: Size = 2_147_483_647;
/// The largest maximum frame size.
pub const MAX_MAX_FRAME_SIZE: Size = 16_777_215;

/// One setting: its identifier and its value.
#[derive(Debug)]
pub struct Setting {
    id: u16,
    value: u32,
}

impl Setting {
    /// The identifier and value of this setting.
    pub closed spec fn pair(&self) -> (u16, u32) {
        (self.id, self.value)
    }
}

/// The pairs of a list of settings.
pub open spec fn setting_pairs(v: Seq<Setting>) -> Seq<(u16, u32)> {
    Seq::new(v.len(), |i: int| v[i].pair())
}

/// How many settings a payload of `len` bytes holds: one for every six bytes
/// when `len` is a multiple of 6, and none otherwise (such a payload is
/// malformed and is not read).
pub open spec fn settings_count(len: nat) -> nat {
    if len % 6 == 0 {
        len / 6
    } else {
        0
    }
}

/// The settings read from `buf`: setting `i` is the big-endian pair of a
/// 16-bit identifier and a 32-bit value at byte `6 * i`.
pub open spec fn settings_list(buf: Seq<u8>) -> Seq<(u16, u32)> {
    Seq::new(
        settings_count(buf.len()),
        |i: int|
            (
                be16(buf[6 * i], buf[6 * i + 1]) as u16,
                be32(buf[6 * i + 2], buf[6 * i + 3], buf[6 * i + 4], buf[6 * i + 5]) as u32,
            ),
    )
}

/// Reads the settings of a SETTINGS payload with bitreader, six bytes each.
pub fn read_settings(buf: &[u8]) -> (r: Vec<Setting>)
    requires
        fits_bit_reader(buf@),
    ensures
        setting_pairs(r@) == settings_list(buf@),
{
    let mut settings: Vec<Setting> = Vec::new();
    if buf.len() % 6 == 0 {
        let count = buf.len() / 6;
        let mut i: usize = 0;
        while i < count
            invariant
                count == buf@.len() / 6,
                buf@.len() % 6 == 0,
                fits_bit_reader(buf@),
                i <= count,
                settings@.len() == i,
                setting_pairs(settings@) =~= settings_list(buf@).take(i as int),
            decreases count - i,
        {
            let position: u64 = 48 * (i as u64);
            assert(6 * i + 6 <= buf@.len());
            let id = read_u16_at(buf, position, 16).unwrap();
            let value = read_u32_at(buf, position + 16, 32).unwrap();
            proof {
                lemma_be16_bits(buf@, 6 * i);
                lemma_be32_bits(buf@, 6 * i + 2);
                assert(8 * (6 * i + 2) == position + 16);
            }
            settings.push(Setting { id: id, value: value });
            i = i + 1;
            proof {
                assert(setting_pairs(settings@) =~= settings_list(buf@).take(i as int));
            }
        }
        proof {
            assert(settings_list(buf@).take(i as int) =~= settings_list(buf@));
        }
    } else {
        assert(setting_pairs(settings@) =~= settings_list(buf@));
    }
    settings
}

/// The six bytes of a setting: its identifier, then its value, big-endian.
pub open spec fn setting_bytes(s: (u16, u32)) -> Seq<u8> {
    seq![
        (s.0 >> 8u16) as u8,
        s.0 as u8,
        (s.1 >> 24u32) as u8,
        (s.1 >> 16u32) as u8,
        (s.1 >> 8u32) as u8,
        s.1 as u8,
    ]
}

/// The payload of a SETTINGS frame that carries `pairs`, in order.
pub open spec fn settings_payload(pairs: Seq<(u16, u32)>) -> Seq<u8>
    decreases pairs.len(),
{
    if pairs.len() == 0 {
        Seq::empty()
    } else {
        settings_payload(pairs.drop_last()) + setting_bytes(pairs.last())
    }
}

/// A SETTINGS payload holds six bytes for each setting.
proof fn lemma_settings_payload_len(pairs: Seq<(u16, u32)>)
    ensures
        settings_payload(pairs).len() == 6 * pairs.len(),
    decreases pairs.len(),
{
    if pairs.len() > 0 {
        lemma_settings_payload_len(pairs.drop_last());
    }
}

/// Reading a SETTINGS payload gives back the settings it was written from,
/// whole: each identifier is its 16 bits and each value its 32 bits.
pub proof fn lemma_settings_roundtrip(pairs: Seq<(u16, u32)>)
    ensures
        settings_list(settings_payload(pairs)) == pairs,
    decreases pairs.len(),
{
    let b = settings_payload(pairs);
    let n = pairs.len();
    lemma_settings_payload_len(pairs);
    assert((6 * n) % 6 == 0 && (6 * n) / 6 == n) by (nonlinear_arith);
    if n == 0 {
        assert(settings_list(b) =~= pairs);
    } else {
        let q = pairs.drop_last();
        let b0 = settings_payload(q);
        lemma_settings_roundtrip(q);
        lemma_settings_payload_len(q);
        assert((6 * (n - 1)) % 6 == 0 && (6 * (n - 1)) / 6 == n - 1) by (nonlinear_arith)
            requires
                n >= 1,
        ;
        let last = pairs.last();
        let sb = setting_bytes(last);
        assert(b == b0 + sb);
        assert forall|i: int| 0 <= i < n implies #[trigger] settings_list(b)[i] == pairs[i] by {
            if i < n - 1 {
                assert(b[6 * i] == b0[6 * i]);
                assert(b[6 * i + 1] == b0[6 * i + 1]);
                assert(b[6 * i + 2] == b0[6 * i + 2]);
                assert(b[6 * i + 3] == b0[6 * i + 3]);
                assert(b[6 * i + 4] == b0[6 * i + 4]);
                assert(b[6 * i + 5] == b0[6 * i + 5]);
                assert(settings_list(b0)[i] == q[i]);
            } else {
                let id = last.0;
                let v = last.1;
                assert(b[6 * i] == sb[0]);
                assert(b[6 * i + 1] == sb[1]);
                assert(b[6 * i + 2] == sb[2]);
                assert(b[6 * i + 3] == sb[3]);
                assert(b[6 * i + 4] == sb[4]);
                assert(b[6 * i + 5] == sb[5]);
                assert(((id >> 8u16) as u8) as u32 * 256 + (id as u8) as u32 == id as u32)
                    by (bit_vector);
                assert(((v >> 24u32) as u8) as u64 * 16777216 + ((v >> 16u32) as u8) as u64 * 65536
                    + ((v >> 8u32) as u8) as u64 * 256 + (v as u8) as u64 == v as u64) by (bit_vector);
            }
        }
        assert(settings_list(b) =~= pairs);
    }
}

/// The settings this library sends: header table size, initial window size
/// and maximum frame size, at their defaults.
pub open spec fn default_settings() -> Seq<(u16, u32)> {
    seq![
        (1u16, DEFAULT_SETTINGS_HEADER_TABLE_SIZE),
        (4u16, DEFAULT_INITIAL_WINDOW_SIZE),
        (5u16, DEFAULT_MAX_FRAME_SIZE),
    ]
}

/// The three default settings.
pub fn default_setting_list() -> (r: Vec<Setting>)
    ensures
        setting_pairs(r@) == default_settings(),
        r@.len() == 3,
{
    let mut settings = Vec::new();
    settings.push(Setting { id: 1, value: DEFAULT_SETTINGS_HEADER_TABLE_SIZE });
    settings.push(Setting { id: 4, value: DEFAULT_INITIAL_WINDOW_SIZE });
    settings.push(Setting { id: 5, value: DEFAULT_MAX_FRAME_SIZE });
    assert(setting_pairs(settings@) =~= default_settings());
    settings
}

/// A SETTINGS frame: its head and its settings.
#[derive(Debug)]
pub struct Settings {
    head: Head,
    inner: Vec<Setting>,
}

impl Settings {
    /// The head of this frame.
    pub closed spec fn head_of(&self) -> Head {
        self.head
    }

    /// The settings of this frame.
    pub closed spec fn settings_of(&self) -> Seq<(u16, u32)> {
        setting_pairs(self.inner@)
    }

    /// Reads a SETTINGS frame from its head and payload.
    pub fn from(head: Head, buf: Vec<u8>) -> (r: Settings)
        requires
            fits_bit_reader(buf@),
        ensures
            r.head_of() == head,
            r.settings_of() == settings_list(buf@),
    {
        let settings = read_settings(buf.as_slice());
        Settings { head: head, inner: settings }
    }

    /// A SETTINGS frame on stream `stream_id` with the three default settings,
    /// its length six bytes for each.
    pub fn new(stream_id: u32) -> (r: Settings)
        ensures
            r.head_of() == (Head { length: 18, kind: SETTINGS, flags: 0, stream_id: stream_id }),
            r.settings_of() == default_settings(),
    {
        let settings = default_setting_list();
        Settings {
            head: Head { length: settings.len() as u32 * 6, kind: SETTINGS, flags: 0, stream_id: stream_id },
            inner: settings,
        }
    }
}

} // verus!
