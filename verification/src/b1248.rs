//! The newer, indexed firmware family's wire protocol.
//!
//! A greeting frame, one configuration frame (per-slot effect bytes and an
//! offset table), eleven row frames holding all slots' rasters interleaved
//! by row, and a terminator frame; every frame is 65 bytes.

use crate::badge::Badge;
use crate::badge::BadgeMessage;
use crate::effect::effect_code;
use crate::s1144::wsub1;
use vstd::prelude::*;

verus! {

/// The byte-column count of slot `i`.
pub open spec fn cols_of(badge: Badge, i: int) -> int {
    badge.messages@[i].data@.len() as int / 11
}

/// The byte-column count of all slots before slot `n`, summed: the offset
/// at which slot `n`'s columns start.
pub open spec fn offset_of(badge: Badge, n: int) -> int
    decreases n,
{
    if n <= 0 {
        0
    } else {
        offset_of(badge, n - 1) + cols_of(badge, n - 1)
    }
}

/// The byte-column count of all eight slots together.
pub open spec fn total_cols(badge: Badge) -> int {
    offset_of(badge, 8)
}

/// Offsets are sums of nonnegative counts.
proof fn lemma_offset_nonneg(badge: Badge, n: int)
    requires
        0 <= n,
    ensures
        offset_of(badge, n) >= 0,
    decreases n,
{
    if n > 0 {
        lemma_offset_nonneg(badge, n - 1);
    }
}

/// Every slot's offset, and its end, stay within the total.
proof fn lemma_offset_le_total(badge: Badge, n: int)
    requires
        0 <= n <= 8,
    ensures
        0 <= offset_of(badge, n) <= total_cols(badge),
    decreases 8 - n,
{
    lemma_offset_nonneg(badge, n);
    if n < 8 {
        lemma_offset_le_total(badge, n + 1);
    }
}

/// The per-slot effect byte of the configuration frame: frame flag, speed
/// code, blink flag and 3-bit effect code.
pub open spec fn b1248_effect_byte(m: BadgeMessage) -> u8 {
    (if m.frame {
        0x80u8
    } else {
        0u8
    }) | ((wsub1(m.speed) & 0b111) << 4u8) | (if m.blink {
        0x08u8
    } else {
        0u8
    }) | (effect_code(m.effect) & 0b111)
}

/// Message offset/length information in the configuration frame.
#[derive(Debug, Copy, Clone)]
pub struct BadgeMessageOffsetLength {
    /// Fixed marker `0x08` indicating the coding.
    pub header: u8,
    /// Byte-column offset at which this slot's data starts.
    pub offset: u8,
    /// Reserved, always zero.
    pub reserved: u8,
    /// Byte-column count of this slot.
    pub length: u8,
}

impl Default for BadgeMessageOffsetLength {
    /// An empty entry: the fixed marker, offset and length zero.
    fn default() -> (r: Self)
        ensures
            r.header == 0x08 && r.offset == 0 && r.reserved == 0 && r.length == 0,
    {
        BadgeMessageOffsetLength { header: 0x08, offset: 0, reserved: 0x00, length: 0 }
    }
}

/// Badge protocol configuration (the second report sent to the device).
#[derive(Debug)]
pub struct BadgeMessageConfiguration {
    /// Frame/speed/blink/effect byte for each slot.
    pub effect: Vec<u8>,
    /// Offset/length entry for each slot.
    pub offset_length: Vec<BadgeMessageOffsetLength>,
}

impl BadgeMessageConfiguration {
    /// A well-formed configuration has both arrays at their fixed sizes.
    pub open spec fn wf(self) -> bool {
        self.effect@.len() == 8 && self.offset_length@.len() == 8
    }

    /// Fill the configuration from the badge state.
    ///
    /// The offsets are cumulative byte-column counts; they fit the one-byte
    /// wire fields only while the total stays under 256, which the caller
    /// must ensure.
    pub fn load(&mut self, badge: &Badge)
        requires
            old(self).wf(),
            badge.wf(),
            total_cols(*badge) <= 255,
        ensures
            final(self).wf(),
            forall|i: int|
                0 <= i < 8 ==> (#[trigger] final(self).effect@[i]) == b1248_effect_byte(
                    badge.messages@[i],
                ),
            forall|i: int|
                0 <= i < 8 ==> (#[trigger] final(self).offset_length@[i]).header == 0x08
                    && final(self).offset_length@[i].reserved == 0
                    && final(self).offset_length@[i].offset as int == offset_of(*badge, i)
                    && final(self).offset_length@[i].length as int == cols_of(*badge, i),
    {
        let mut off: u8 = 0;
        let mut i: usize = 0;
        while i < 8
            invariant
                self.wf(),
                badge.wf(),
                total_cols(*badge) <= 255,
                i <= 8,
                off as int == offset_of(*badge, i as int),
                forall|j: int|
                    0 <= j < i ==> (#[trigger] self.effect@[j]) == b1248_effect_byte(
                        badge.messages@[j],
                    ),
                forall|j: int|
                    0 <= j < i ==> (#[trigger] self.offset_length@[j]).header == 0x08
                        && self.offset_length@[j].reserved == 0
                        && self.offset_length@[j].offset as int == offset_of(*badge, j)
                        && self.offset_length@[j].length as int == cols_of(*badge, j),
            decreases 8 - i,
        {
            let message = &badge.messages[i];
            let sm1: u8 = if message.speed >= 1 {
                message.speed - 1
            } else {
                255
            };
            let b = (if message.frame {
                0x80u8
            } else {
                0u8
            }) | ((sm1 & 0b111) << 4u8) | (if message.blink {
                0x08u8
            } else {
                0u8
            }) | (message.effect.code() & 0b111);
            self.effect[i] = b;
            proof {
                lemma_offset_le_total(*badge, i as int + 1);
            }
            let cols = message.data.len() / 11;
            self.offset_length[i] = BadgeMessageOffsetLength {
                header: 0x08,
                offset: off,
                reserved: 0x00,
                length: cols as u8,
            };
            off = off + (cols as u8);
            i = i + 1;
        }
    }
}

/// Byte `j` of the serialized 42-byte configuration body: a zero, the
/// eight effect bytes, a zero, then the eight 4-byte offset/length entries.
pub open spec fn config_byte_at(c: BadgeMessageConfiguration, j: int) -> u8 {
    if j == 0 {
        0u8
    } else if j < 9 {
        c.effect@[j - 1]
    } else if j == 9 {
        0u8
    } else {
        let e = (j - 10) / 4;
        let f = (j - 10) % 4;
        if f == 0 {
            c.offset_length@[e].header
        } else if f == 1 {
            c.offset_length@[e].offset
        } else if f == 2 {
            c.offset_length@[e].reserved
        } else {
            c.offset_length@[e].length
        }
    }
}

impl BadgeMessageConfiguration {
    /// Serialize the configuration into its 42-byte wire body.
    pub fn as_vec(&self) -> (r: Vec<u8>)
        requires
            self.wf(),
        ensures
            r@.len() == 42,
            forall|j: int| 0 <= j < 42 ==> r@[j] == config_byte_at(*self, j),
    {
        let mut r: Vec<u8> = Vec::new();
        r.push(0x00);
        r.extend_from_slice(self.effect.as_slice());
        r.push(0x00);
        proof {
            assert(forall|j: int| 0 <= j < 10 ==> r@[j] == config_byte_at(*self, j));
        }
        let mut i: usize = 0;
        while i < 8
            invariant
                self.wf(),
                i <= 8,
                r@.len() == 10 + 4 * i,
                forall|j: int| 0 <= j < r@.len() ==> r@[j] == config_byte_at(*self, j),
            decreases 8 - i,
        {
            let entry = &self.offset_length[i];
            r.push(entry.header);
            r.push(entry.offset);
            r.push(entry.reserved);
            r.push(entry.length);
            i = i + 1;
        }
        r
    }
}

impl Default for BadgeMessageConfiguration {
    /// Zero effect bytes and empty offset/length entries.
    fn default() -> (r: Self)
        ensures
            r.wf(),
            forall|i: int| 0 <= i < 8 ==> (#[trigger] r.effect@[i]) == 0,
            forall|i: int|
                0 <= i < 8 ==> (#[trigger] r.offset_length@[i]).header == 0x08
                    && r.offset_length@[i].offset == 0 && r.offset_length@[i].reserved == 0
                    && r.offset_length@[i].length == 0,
    {
        let effect: Vec<u8> = vec![0, 0, 0, 0, 0, 0, 0, 0];
        let mut offset_length: Vec<BadgeMessageOffsetLength> = Vec::new();
        let mut i: usize = 0;
        while i < 8
            invariant
                i <= 8,
                offset_length@.len() == i,
                forall|j: int|
                    0 <= j < i ==> (#[trigger] offset_length@[j]).header == 0x08
                        && offset_length@[j].offset == 0 && offset_length@[j].reserved == 0
                        && offset_length@[j].length == 0,
            decreases 8 - i,
        {
            offset_length.push(BadgeMessageOffsetLength::default());
            i = i + 1;
        }
        proof {
            assert(forall|i: int| 0 <= i < 8 ==> (#[trigger] effect@[i]) == 0);
        }
        BadgeMessageConfiguration { effect, offset_length }
    }
}

/// Offsets grow with the slot index.
proof fn lemma_offset_mono(badge: Badge, a: int, b: int)
    requires
        0 <= a <= b,
    ensures
        offset_of(badge, a) <= offset_of(badge, b),
    decreases b - a,
{
    if a < b {
        lemma_offset_mono(badge, a, b - 1);
    }
}

/// The greeting frame: a zero report id and the `"Hello"` magic bytes.
pub open spec fn b1248_greeting_ok(f: Seq<u8>) -> bool {
    &&& f.len() == 65
    &&& f[0] == 0 && f[1] == 0x48 && f[2] == 0x65 && f[3] == 0x6c && f[4] == 0x6c && f[5] == 0x6f
    &&& forall|k: int| 6 <= k < 65 ==> f[k] == 0
}

/// The configuration frame: two zero bytes, the eight effect bytes, a
/// zero, then for each slot the marker `0x08`, its cumulative offset, a
/// zero, and its byte-column count.
pub open spec fn b1248_config_frame_ok(badge: Badge, f: Seq<u8>) -> bool {
    &&& f.len() == 65
    &&& f[0] == 0 && f[1] == 0 && f[10] == 0
    &&& forall|i: int| 0 <= i < 8 ==> f[2 + i] == b1248_effect_byte(#[trigger] badge.messages@[i])
    &&& forall|i: int| 0 <= i < 8 ==> (#[trigger] f[11 + 4 * i]) == 0x08
    &&& forall|i: int| 0 <= i < 8 ==> (#[trigger] f[12 + 4 * i]) as int == offset_of(badge, i)
    &&& forall|i: int| 0 <= i < 8 ==> (#[trigger] f[13 + 4 * i]) == 0
    &&& forall|i: int| 0 <= i < 8 ==> (#[trigger] f[14 + 4 * i]) as int == cols_of(badge, i)
    &&& forall|k: int| 43 <= k < 65 ==> f[k] == 0
}

/// A row frame: a zero report id, then, for every slot, that slot's bytes
/// of row `r` at its cumulative offset; positions past the total stay zero.
pub open spec fn b1248_row_frame_ok(badge: Badge, r: int, f: Seq<u8>) -> bool {
    &&& f.len() == 65
    &&& f[0] == 0
    &&& forall|i: int, col: int|
        0 <= i < 8 && 0 <= col < cols_of(badge, i) ==> #[trigger] f[offset_of(badge, i) + 1 + col]
            == badge.messages@[i].data@[col * 11 + r]
    &&& forall|k: int| total_cols(badge) + 1 <= k < 65 ==> f[k] == 0
}

/// The terminator frame: 65 zero bytes.
pub open spec fn b1248_terminator_ok(f: Seq<u8>) -> bool {
    f.len() == 65 && forall|k: int| 0 <= k < 65 ==> f[k] == 0
}

/// An all-zero 65-byte frame.
fn zero_frame() -> (f: Vec<u8>)
    ensures
        f@.len() == 65,
        forall|k: int| 0 <= k < 65 ==> f@[k] == 0,
{
    let mut f: Vec<u8> = Vec::new();
    let mut p: usize = 0;
    while p < 65
        invariant
            p <= 65,
            f@.len() == p,
            forall|k: int| 0 <= k < p ==> f@[k] == 0,
        decreases 65 - p,
    {
        f.push(0);
        p = p + 1;
    }
    f
}

/// Build the greeting frame.
fn b1248_greeting_frame() -> (f: Vec<u8>)
    ensures
        b1248_greeting_ok(f@),
{
    let mut f: Vec<u8> = Vec::new();
    f.push(0x00);
    f.push(0x48);
    f.push(0x65);
    f.push(0x6c);
    f.push(0x6c);
    f.push(0x6f);
    let mut p: usize = 6;
    while p < 65
        invariant
            6 <= p <= 65,
            f@.len() == p,
            f@[0] == 0 && f@[1] == 0x48 && f@[2] == 0x65 && f@[3] == 0x6c && f@[4] == 0x6c && f@[5]
                == 0x6f,
            forall|k: int| 6 <= k < p ==> f@[k] == 0,
        decreases 65 - p,
    {
        f.push(0);
        p = p + 1;
    }
    f
}

/// Build the configuration frame from the badge state.
fn b1248_config_frame(badge: &Badge) -> (f: Vec<u8>)
    requires
        badge.wf(),
        total_cols(*badge) <= 255,
    ensures
        b1248_config_frame_ok(*badge, f@),
{
    let mut conf = BadgeMessageConfiguration::default();
    conf.load(badge);
    let body = conf.as_vec();
    let mut f: Vec<u8> = Vec::new();
    f.push(0x00);
    f.extend_from_slice(body.as_slice());
    let mut p: usize = 43;
    while p < 65
        invariant
            43 <= p <= 65,
            f@.len() == p,
            forall|j: int| 0 <= j < 42 ==> f@[1 + j] == config_byte_at(conf, j),
            f@[0] == 0,
            forall|k: int| 43 <= k < p ==> f@[k] == 0,
        decreases 65 - p,
    {
        f.push(0);
        p = p + 1;
    }
    proof {
        assert forall|i: int| 0 <= i < 8 implies f@[2 + i] == b1248_effect_byte(
            #[trigger] badge.messages@[i],
        ) by {
            assert(f@[1 + (1 + i)] == config_byte_at(conf, 1 + i));
        }
        assert forall|i: int| 0 <= i < 8 implies (#[trigger] f@[11 + 4 * i]) == 0x08 by {
            assert(f@[11 + 4 * i] == config_byte_at(conf, 10 + 4 * i));
            assert((4 * i) / 4 == i && (4 * i) % 4 == 0) by (nonlinear_arith);
        }
        assert forall|i: int|
            0 <= i < 8 implies (#[trigger] f@[12 + 4 * i]) as int == offset_of(*badge, i) by {
            assert(f@[12 + 4 * i] == config_byte_at(conf, 11 + 4 * i));
            assert((4 * i + 1) / 4 == i && (4 * i + 1) % 4 == 1) by (nonlinear_arith);
        }
        assert forall|i: int| 0 <= i < 8 implies (#[trigger] f@[13 + 4 * i]) == 0 by {
            assert(f@[13 + 4 * i] == config_byte_at(conf, 12 + 4 * i));
            assert((4 * i + 2) / 4 == i && (4 * i + 2) % 4 == 2) by (nonlinear_arith);
        }
        assert forall|i: int|
            0 <= i < 8 implies (#[trigger] f@[14 + 4 * i]) as int == cols_of(*badge, i) by {
            assert(f@[14 + 4 * i] == config_byte_at(conf, 13 + 4 * i));
            assert((4 * i + 3) / 4 == i && (4 * i + 3) % 4 == 3) by (nonlinear_arith);
        }
        assert(f@[1int + 0] == config_byte_at(conf, 0));
        assert(f@[1int + 9] == config_byte_at(conf, 9));
    }
    f
}

/// Build row frame `r` from the badge state.
fn b1248_row_frame(badge: &Badge, r: usize) -> (f: Vec<u8>)
    requires
        badge.wf(),
        r < 11,
        total_cols(*badge) <= 64,
    ensures
        b1248_row_frame_ok(*badge, r as int, f@),
{
    let mut f = zero_frame();
    let mut off: usize = 0;
    let mut i: usize = 0;
    while i < 8
        invariant
            badge.wf(),
            r < 11,
            total_cols(*badge) <= 64,
            i <= 8,
            off as int == offset_of(*badge, i as int),
            f@.len() == 65,
            f@[0] == 0,
            forall|t: int, col: int|
                0 <= t < i && 0 <= col < cols_of(*badge, t) ==> #[trigger] f@[offset_of(*badge, t)
                    + 1 + col] == badge.messages@[t].data@[col * 11 + r],
            forall|k: int| off + 1 <= k < 65 ==> f@[k] == 0,
        decreases 8 - i,
    {
        proof {
            lemma_offset_le_total(*badge, i as int + 1);
            lemma_offset_le_total(*badge, i as int);
        }
        let message = &badge.messages[i];
        let cols = message.data.len() / 11;
        let n = message.data.len();
        let mut col: usize = 0;
        while col < cols
            invariant
                badge.wf(),
                r < 11,
                total_cols(*badge) <= 64,
                i < 8,
                col <= cols,
                message.data@ == badge.messages@[i as int].data@,
                n == badge.messages@[i as int].data@.len(),
                cols == cols_of(*badge, i as int),
                off as int == offset_of(*badge, i as int),
                off + cols <= 64,
                f@.len() == 65,
                f@[0] == 0,
                forall|t: int, c: int|
                    0 <= t < i && 0 <= c < cols_of(*badge, t) ==> #[trigger] f@[offset_of(*badge,
                        t) + 1 + c] == badge.messages@[t].data@[c * 11 + r],
                forall|c: int|
                    0 <= c < col ==> #[trigger] f@[off + 1 + c] == badge.messages@[i as int].data@[
                        c * 11 + r],
                forall|k: int| off + 1 + col <= k < 65 ==> f@[k] == 0,
            decreases cols - col,
        {
            proof {
                assert(col * 11 + r < n) by (nonlinear_arith)
                    requires
                        0 <= col < cols,
                        cols == n as int / 11,
                        r < 11,
                ;
            }
            let ghost f_before = f@;
            f[off + 1 + col] = message.data[col * 11 + r];
            proof {
                assert forall|t: int, c: int|
                    0 <= t < i && 0 <= c < cols_of(*badge, t) implies #[trigger] f@[offset_of(
                    *badge, t) + 1 + c] == badge.messages@[t].data@[c * 11 + r] by {
                    lemma_offset_nonneg(*badge, t);
                    lemma_offset_mono(*badge, t + 1, i as int);
                    assert(offset_of(*badge, t + 1) == offset_of(*badge, t) + cols_of(*badge, t));
                    assert(offset_of(*badge, t) + 1 + c < off + 1 + col);
                    assert(f@[offset_of(*badge, t) + 1 + c] == f_before[offset_of(*badge, t) + 1
                        + c]);
                }
            }
            col = col + 1;
        }
        off = off + cols;
        i = i + 1;
    }
    f
}

/// Encode the badge state into the indexed protocol's report frames: the
/// greeting, the configuration frame, the eleven row frames, and the
/// terminator, in that order.
///
/// The total byte-column count must fit one report's payload; the device
/// itself expects it to stay below 64.
pub fn b1248_frames(badge: &Badge) -> (frames: Vec<Vec<u8>>)
    requires
        badge.wf(),
        total_cols(*badge) <= 64,
    ensures
        frames@.len() == 14,
        b1248_greeting_ok(frames@[0]@),
        b1248_config_frame_ok(*badge, frames@[1]@),
        forall|r: int| 0 <= r < 11 ==> b1248_row_frame_ok(*badge, r, (#[trigger] frames@[2 + r])@),
        b1248_terminator_ok(frames@[13]@),
{
    let mut frames: Vec<Vec<u8>> = Vec::new();
    frames.push(b1248_greeting_frame());
    frames.push(b1248_config_frame(badge));
    let mut r: usize = 0;
    while r < 11
        invariant
            badge.wf(),
            total_cols(*badge) <= 64,
            r <= 11,
            frames@.len() == 2 + r,
            b1248_greeting_ok(frames@[0]@),
            b1248_config_frame_ok(*badge, frames@[1]@),
            forall|q: int|
                0 <= q < r ==> b1248_row_frame_ok(*badge, q, (#[trigger] frames@[2 + q])@),
        decreases 11 - r,
    {
        frames.push(b1248_row_frame(badge, r));
        r = r + 1;
    }
    frames.push(zero_frame());
    frames
}

} // verus!
