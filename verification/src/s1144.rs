//! The legacy firmware family's wire protocol.
//!
//! One 32-byte header (magic, brightness, per-slot flags and line
//! configuration, big-endian byte-column counts) followed by the
//! concatenated slot rasters, all split into 65-byte report frames.

use crate::badge::Badge;
use crate::effect::effect_code;
use crate::effect::BadgeEffect;
use vstd::prelude::*;

verus! {

/// Speed wire encoding step: `spd - 1`, wrapping at zero as the device
/// expects for the unset default.
pub open spec fn wsub1(spd: u8) -> u8 {
    if spd >= 1 {
        (spd - 1) as u8
    } else {
        255u8
    }
}

/// The high nibble of a line configuration byte: the speed code.
pub open spec fn speed_field(spd: u8) -> u8 {
    (wsub1(spd) & 0x0F) << 4u8
}

/// The byte-column count of slot `i`, truncated to the 16-bit wire field.
pub open spec fn cols16(badge: Badge, i: int) -> int {
    (badge.messages@[i].data@.len() as int / 11) % 0x10000
}

/// Badge protocol header (the first report sent to the device).
#[derive(Debug)]
pub struct BadgeHeader {
    /// Magic bytes `"wang\0"`.
    pub start: Vec<u8>,
    /// Brightness, pre-shifted into the high nibble.
    pub brightness: u8,
    /// Bit `i` set: slot `i` blinks.
    pub flash: u8,
    /// Bit `i` set: slot `i` has a border.
    pub border: u8,
    /// Byte `i`: speed code in the high nibble, effect code in the low one.
    pub line_conf: Vec<u8>,
    /// Byte-column count of each slot; written big-endian on the wire.
    pub msg_len: Vec<u16>,
}

impl BadgeHeader {
    /// A well-formed header has its three arrays at their fixed sizes.
    pub open spec fn wf(self) -> bool {
        self.start@.len() == 5 && self.line_conf@.len() == 8 && self.msg_len@.len() == 8
    }

    /// Set the effect code of slot `msg_num`, keeping its speed code.
    pub fn set_effect_pattern(&mut self, msg_num: usize, pat: BadgeEffect)
        requires
            old(self).wf(),
            msg_num < 8,
        ensures
            final(self).wf(),
            final(self).line_conf@[msg_num as int] & 0x0F == effect_code(pat),
            final(self).line_conf@[msg_num as int] & 0xF0 == old(self).line_conf@[msg_num as int]
                & 0xF0,
            forall|j: int|
                0 <= j < 8 && j != msg_num ==> final(self).line_conf@[j] == old(
                    self,
                ).line_conf@[j],
            final(self).start == old(self).start,
            final(self).brightness == old(self).brightness,
            final(self).flash == old(self).flash,
            final(self).border == old(self).border,
            final(self).msg_len == old(self).msg_len,
    {
        let c = pat.code();
        let v = (self.line_conf[msg_num] & 0xF0) | c;
        proof {
            let o = self.line_conf@[msg_num as int];
            assert(((o & 0xF0) | c) & 0x0F == c && ((o & 0xF0) | c) & 0xF0 == o & 0xF0)
                by (bit_vector)
                requires
                    c < 16,
            ;
        }
        self.line_conf[msg_num] = v;
    }

    /// Set the speed code of slot `msg_num`, keeping its effect code.
    pub fn set_effect_speed(&mut self, msg_num: usize, spd: u8)
        requires
            old(self).wf(),
            msg_num < 8,
        ensures
            final(self).wf(),
            final(self).line_conf@[msg_num as int] & 0xF0 == speed_field(spd),
            final(self).line_conf@[msg_num as int] & 0x0F == old(self).line_conf@[msg_num as int]
                & 0x0F,
            forall|j: int|
                0 <= j < 8 && j != msg_num ==> final(self).line_conf@[j] == old(
                    self,
                ).line_conf@[j],
            final(self).start == old(self).start,
            final(self).brightness == old(self).brightness,
            final(self).flash == old(self).flash,
            final(self).border == old(self).border,
            final(self).msg_len == old(self).msg_len,
    {
        let sm1: u8 = if spd >= 1 {
            spd - 1
        } else {
            255
        };
        let hi = (sm1 & 0x0F) << 4u8;
        let v = hi | (self.line_conf[msg_num] & 0x0F);
        proof {
            let o = self.line_conf@[msg_num as int];
            assert((((sm1 & 0x0F) << 4u8) | (o & 0x0F)) & 0xF0 == ((sm1 & 0x0F) << 4u8) && (((sm1
                & 0x0F) << 4u8) | (o & 0x0F)) & 0x0F == o & 0x0F) by (bit_vector);
        }
        self.line_conf[msg_num] = v;
    }

    /// Set or clear the blink bit of slot `msg_num`.
    pub fn set_effect_blink(&mut self, msg_num: usize, blink: bool)
        requires
            old(self).wf(),
            msg_num < 8,
        ensures
            final(self).wf(),
            final(self).flash & (1u8 << (msg_num as u8)) == (if blink {
                1u8 << (msg_num as u8)
            } else {
                0u8
            }),
            final(self).flash & !(1u8 << (msg_num as u8)) == old(self).flash & !(1u8 << (
            msg_num as u8)),
            final(self).start == old(self).start,
            final(self).brightness == old(self).brightness,
            final(self).border == old(self).border,
            final(self).line_conf == old(self).line_conf,
            final(self).msg_len == old(self).msg_len,
    {
        let sh = msg_num as u8;
        let m = 1u8 << sh;
        let f = self.flash;
        if blink {
            self.flash = (f & !m) | m;
            proof {
                assert(((f & !(1u8 << sh)) | (1u8 << sh)) & (1u8 << sh) == (1u8 << sh) && ((f & !(
                1u8 << sh)) | (1u8 << sh)) & !(1u8 << sh) == f & !(1u8 << sh)) by (bit_vector);
            }
        } else {
            self.flash = f & !m;
            proof {
                assert((f & !(1u8 << sh)) & (1u8 << sh) == 0 && (f & !(1u8 << sh)) & !(1u8 << sh)
                    == f & !(1u8 << sh)) by (bit_vector);
            }
        }
    }

    /// Set or clear the border bit of slot `msg_num`.
    pub fn set_effect_frame(&mut self, msg_num: usize, frame: bool)
        requires
            old(self).wf(),
            msg_num < 8,
        ensures
            final(self).wf(),
            final(self).border & (1u8 << (msg_num as u8)) == (if frame {
                1u8 << (msg_num as u8)
            } else {
                0u8
            }),
            final(self).border & !(1u8 << (msg_num as u8)) == old(self).border & !(1u8 << (
            msg_num as u8)),
            final(self).start == old(self).start,
            final(self).brightness == old(self).brightness,
            final(self).flash == old(self).flash,
            final(self).line_conf == old(self).line_conf,
            final(self).msg_len == old(self).msg_len,
    {
        let sh = msg_num as u8;
        let m = 1u8 << sh;
        let f = self.border;
        if frame {
            self.border = (f & !m) | m;
            proof {
                assert(((f & !(1u8 << sh)) | (1u8 << sh)) & (1u8 << sh) == (1u8 << sh) && ((f & !(
                1u8 << sh)) | (1u8 << sh)) & !(1u8 << sh) == f & !(1u8 << sh)) by (bit_vector);
            }
        } else {
            self.border = f & !m;
            proof {
                assert((f & !(1u8 << sh)) & (1u8 << sh) == 0 && (f & !(1u8 << sh)) & !(1u8 << sh)
                    == f & !(1u8 << sh)) by (bit_vector);
            }
        }
    }

    /// Set the brightness field: the value shifted into the high nibble.
    pub fn set_brightness(&mut self, br: u8)
        requires
            old(self).wf(),
        ensures
            final(self).wf(),
            final(self).brightness == br << 4u8,
            final(self).start == old(self).start,
            final(self).flash == old(self).flash,
            final(self).border == old(self).border,
            final(self).line_conf == old(self).line_conf,
            final(self).msg_len == old(self).msg_len,
    {
        self.brightness = br << 4u8;
    }

    /// Fill every field of the header from the badge state.
    pub fn load(&mut self, badge: &Badge)
        requires
            old(self).wf(),
            badge.wf(),
        ensures
            final(self).wf(),
            final(self).start == old(self).start,
            final(self).brightness == badge.brightness << 4u8,
            final(self).flash == flash_byte(*badge),
            final(self).border == border_byte(*badge),
            forall|i: int|
                0 <= i < 8 ==> (#[trigger] final(self).line_conf@[i]) == line_conf_byte(
                    badge.messages@[i],
                ),
            forall|i: int|
                0 <= i < 8 ==> (#[trigger] final(self).msg_len@[i]) as int == cols16(*badge, i),
    {
        self.set_brightness(badge.brightness);
        let mut flash_acc: u8 = 0;
        let mut border_acc: u8 = 0;
        let mut i: usize = 0;
        while i < 8
            invariant
                self.wf(),
                badge.wf(),
                i <= 8,
                self.start == old(self).start,
                self.brightness == badge.brightness << 4u8,
                flash_acc as int == flash_sum(*badge, i as int),
                border_acc as int == border_sum(*badge, i as int),
                forall|j: int|
                    0 <= j < i ==> (#[trigger] self.line_conf@[j]) == line_conf_byte(
                        badge.messages@[j],
                    ),
                forall|j: int| 0 <= j < i ==> (#[trigger] self.msg_len@[j]) as int == cols16(*badge, j),
            decreases 8 - i,
        {
            let message = &badge.messages[i];
            proof {
                lemma_flag_sum_bound(*badge, i as int);
            }
            let bit = flag_bit_at(i);
            if message.blink {
                flash_acc = flash_acc + bit;
            }
            if message.frame {
                border_acc = border_acc + bit;
            }
            self.set_effect_speed(i, message.speed);
            self.set_effect_pattern(i, message.effect);
            proof {
                lemma_nibbles(
                    self.line_conf@[i as int],
                    speed_field(badge.messages@[i as int].speed),
                    effect_code(badge.messages@[i as int].effect),
                );
            }
            let cols = message.data.len() / 11;
            self.msg_len[i] = (cols % 0x10000) as u16;
            i = i + 1;
        }
        self.flash = flash_acc;
        self.border = border_acc;
    }
}

/// A byte is the disjunction of its two nibbles.
proof fn lemma_nibbles(b: u8, hi: u8, lo: u8)
    requires
        b & 0xF0 == hi,
        b & 0x0F == lo,
    ensures
        b == hi | lo,
{
    assert((b & 0xF0) | (b & 0x0F) == b) by (bit_vector);
}

impl Default for BadgeHeader {
    /// The constant header the device expects before any slot is set: the
    /// `"wang\0"` magic and the factory line configuration.
    fn default() -> (r: Self)
        ensures
            r.wf(),
            r.start@ == seq![0x77u8, 0x61u8, 0x6eu8, 0x67u8, 0x00u8],
            r.brightness == 0 && r.flash == 0 && r.border == 0,
            r.line_conf@ == seq![0x46u8, 0x41u8, 0x47u8, 0x48u8, 0x40u8, 0x44u8, 0x46u8, 0x47u8],
            r.msg_len@ == seq![0u16, 0u16, 0u16, 0u16, 0u16, 0u16, 0u16, 0u16],
    {
        let start: Vec<u8> = vec![0x77, 0x61, 0x6e, 0x67, 0x00];
        let line_conf: Vec<u8> = vec![0x46, 0x41, 0x47, 0x48, 0x40, 0x44, 0x46, 0x47];
        let msg_len: Vec<u16> = vec![0, 0, 0, 0, 0, 0, 0, 0];
        proof {
            assert(start@ =~= seq![0x77u8, 0x61u8, 0x6eu8, 0x67u8, 0x00u8]);
            assert(line_conf@ =~= seq![
                0x46u8,
                0x41u8,
                0x47u8,
                0x48u8,
                0x40u8,
                0x44u8,
                0x46u8,
                0x47u8,
            ]);
            assert(msg_len@ =~= seq![0u16, 0u16, 0u16, 0u16, 0u16, 0u16, 0u16, 0u16]);
        }
        BadgeHeader { start, brightness: 0, flash: 0, border: 0, line_conf, msg_len }
    }
}

/// Byte `i` of the serialized 32-byte header.
pub open spec fn header_byte_at(h: BadgeHeader, i: int) -> u8 {
    if i < 5 {
        h.start@[i]
    } else if i == 5 {
        h.brightness
    } else if i == 6 {
        h.flash
    } else if i == 7 {
        h.border
    } else if i < 16 {
        h.line_conf@[i - 8]
    } else if (i - 16) % 2 == 0 {
        (h.msg_len@[(i - 16) / 2] >> 8u16) as u8
    } else {
        (h.msg_len@[(i - 16) / 2] & 0xFF) as u8
    }
}

/// The serialized 32-byte header: magic, brightness, flags, line
/// configuration, then the byte-column counts, each big-endian.
pub open spec fn header_bytes_spec(h: BadgeHeader) -> Seq<u8> {
    Seq::new(32, |i: int| header_byte_at(h, i))
}

impl BadgeHeader {
    /// Serialize the header into its 32-byte wire form.
    pub fn to_bytes(&self) -> (r: Vec<u8>)
        requires
            self.wf(),
        ensures
            r@ == header_bytes_spec(*self),
            r@.len() == 32,
    {
        let mut out: Vec<u8> = Vec::new();
        out.extend_from_slice(self.start.as_slice());
        out.push(self.brightness);
        out.push(self.flash);
        out.push(self.border);
        out.extend_from_slice(self.line_conf.as_slice());
        proof {
            assert(forall|k: int|
                0 <= k < 16 ==> out@[k] == header_byte_at(*self, k));
        }
        let mut i: usize = 0;
        while i < 8
            invariant
                self.wf(),
                i <= 8,
                out@.len() == 16 + 2 * i,
                forall|k: int| 0 <= k < out@.len() ==> out@[k] == header_byte_at(*self, k),
            decreases 8 - i,
        {
            let v = self.msg_len[i];
            proof {
                assert(v >> 8u16 < 256 && v & 0xFF < 256) by (bit_vector);
                assert((16 + 2 * i - 16) % 2 == 0 && (16 + 2 * i - 16) / 2 == i);
                assert((16 + 2 * i + 1 - 16) % 2 == 1 && (16 + 2 * i + 1 - 16) / 2 == i);
            }
            out.push((v >> 8u16) as u8);
            out.push((v & 0xFF) as u8);
            i = i + 1;
        }
        proof {
            assert(out@ =~= header_bytes_spec(*self));
        }
        out
    }
}

/// The payload split into 65-byte report frames: each frame a zero report
/// id, then up to 64 payload bytes, then zero padding.
pub open spec fn chunk_frames_ok(payload: Seq<u8>, frames: Seq<Vec<u8>>) -> bool {
    &&& frames.len() == (payload.len() + 63) / 64
    &&& forall|f: int|
        0 <= f < frames.len() ==> (#[trigger] frames[f])@.len() == 65 && frames[f]@[0] == 0
    &&& forall|f: int, j: int|
        0 <= f < frames.len() && 1 <= j < 65 ==> (#[trigger] frames[f]@[j]) == (if f * 64 + j - 1
            < payload.len() {
            payload[f * 64 + j - 1]
        } else {
            0u8
        })
}

/// Split a payload into 65-byte report frames of up to 64 payload bytes
/// each: `ceil(len / 64)` frames, zero for an empty payload.
pub fn chunk(payload: &[u8]) -> (frames: Vec<Vec<u8>>)
    requires
        payload@.len() + 63 <= usize::MAX,
    ensures
        chunk_frames_ok(payload@, frames@),
{
    let n = payload.len();
    let count = (n + 63) / 64;
    let mut frames: Vec<Vec<u8>> = Vec::new();
    let mut f: usize = 0;
    while f < count
        invariant
            f <= count,
            n == payload@.len(),
            n + 63 <= usize::MAX,
            count == (n + 63) / 64,
            frames@.len() == f,
            forall|g: int|
                0 <= g < f ==> (#[trigger] frames@[g])@.len() == 65 && frames@[g]@[0] == 0,
            forall|g: int, j: int|
                0 <= g < f && 1 <= j < 65 ==> (#[trigger] frames@[g]@[j]) == (if g * 64 + j - 1
                    < n {
                    payload@[g * 64 + j - 1]
                } else {
                    0u8
                }),
        decreases count - f,
    {
        proof {
            assert(f * 64 <= n + 63) by (nonlinear_arith)
                requires
                    f < count,
                    count == (n + 63) / 64,
            ;
        }
        let mut frame: Vec<u8> = Vec::new();
        frame.push(0);
        let mut k: usize = 0;
        while k < 64
            invariant
                k <= 64,
                n == payload@.len(),
                n + 63 <= usize::MAX,
                f * 64 <= n + 63,
                frame@.len() == k + 1,
                frame@[0] == 0,
                forall|j: int|
                    1 <= j < k + 1 ==> (#[trigger] frame@[j]) == (if f * 64 + j - 1 < n {
                        payload@[f * 64 + j - 1]
                    } else {
                        0u8
                    }),
            decreases 64 - k,
        {
            if f * 64 + k < n {
                frame.push(payload[f * 64 + k]);
            } else {
                frame.push(0);
            }
            k = k + 1;
        }
        frames.push(frame);
        f = f + 1;
    }
    frames
}

/// The line configuration byte of one slot: speed code high, effect code low.
pub open spec fn line_conf_byte(m: crate::badge::BadgeMessage) -> u8 {
    speed_field(m.speed) | effect_code(m.effect)
}

/// `2^i`, for bit positions `0..=8`.
pub open spec fn two_to(i: int) -> int {
    if i <= 0 {
        1
    } else if i == 1 {
        2
    } else if i == 2 {
        4
    } else if i == 3 {
        8
    } else if i == 4 {
        16
    } else if i == 5 {
        32
    } else if i == 6 {
        64
    } else if i == 7 {
        128
    } else {
        256
    }
}

/// The blink bits of the first `n` slots, summed: bit `i` weighs `2^i`.
pub open spec fn flash_sum(badge: Badge, n: int) -> int
    decreases n,
{
    if n <= 0 {
        0
    } else {
        flash_sum(badge, n - 1) + (if badge.messages@[n - 1].blink {
            two_to(n - 1)
        } else {
            0
        })
    }
}

/// The flash byte: bit `i` set exactly when slot `i` blinks.
pub open spec fn flash_byte(badge: Badge) -> u8 {
    flash_sum(badge, 8) as u8
}

/// The frame bits of the first `n` slots, summed: bit `i` weighs `2^i`.
pub open spec fn border_sum(badge: Badge, n: int) -> int
    decreases n,
{
    if n <= 0 {
        0
    } else {
        border_sum(badge, n - 1) + (if badge.messages@[n - 1].frame {
            two_to(n - 1)
        } else {
            0
        })
    }
}

/// The border byte: bit `i` set exactly when slot `i` has a frame.
pub open spec fn border_byte(badge: Badge) -> u8 {
    border_sum(badge, 8) as u8
}

/// The flag sums over `n` slots stay below `2^n`.
proof fn lemma_flag_sum_bound(badge: Badge, n: int)
    requires
        0 <= n <= 8,
    ensures
        0 <= flash_sum(badge, n) < two_to(n),
        0 <= border_sum(badge, n) < two_to(n),
    decreases n,
{
    if n > 0 {
        lemma_flag_sum_bound(badge, n - 1);
    }
}

/// The single set bit of position `i`, as a byte.
fn flag_bit_at(i: usize) -> (m: u8)
    requires
        i < 8,
    ensures
        m as int == two_to(i as int),
{
    if i == 0 {
        1
    } else if i == 1 {
        2
    } else if i == 2 {
        4
    } else if i == 3 {
        8
    } else if i == 4 {
        16
    } else if i == 5 {
        32
    } else if i == 6 {
        64
    } else {
        128
    }
}

/// Byte `i` of the header frame's 32 header bytes, stated over the badge:
/// the layout of the legacy protocol's first report.
pub open spec fn s1144_header_byte(badge: Badge, i: int) -> u8 {
    if i == 0 {
        0x77u8
    } else if i == 1 {
        0x61u8
    } else if i == 2 {
        0x6eu8
    } else if i == 3 {
        0x67u8
    } else if i == 4 {
        0x00u8
    } else if i == 5 {
        badge.brightness << 4u8
    } else if i == 6 {
        flash_byte(badge)
    } else if i == 7 {
        border_byte(badge)
    } else if i < 16 {
        line_conf_byte(badge.messages@[i - 8])
    } else if (i - 16) % 2 == 0 {
        (cols16(badge, (i - 16) / 2) / 256) as u8
    } else {
        (cols16(badge, (i - 16) / 2) % 256) as u8
    }
}

/// The concatenation of the first `n` slots' rasters.
pub open spec fn concat_data_upto(badge: Badge, n: int) -> Seq<u8>
    decreases n,
{
    if n <= 0 {
        Seq::empty()
    } else {
        concat_data_upto(badge, n - 1) + badge.messages@[n - 1].data@
    }
}

/// The payload of the legacy protocol: all eight rasters, slot 0 first.
pub open spec fn concat_data(badge: Badge) -> Seq<u8> {
    concat_data_upto(badge, 8)
}

/// The header frame of the legacy protocol: a zero report id, the 32
/// header bytes, then zero padding to 65 bytes.
pub open spec fn s1144_header_frame_ok(badge: Badge, f: Seq<u8>) -> bool {
    &&& f.len() == 65
    &&& f[0] == 0
    &&& forall|k: int| 1 <= k < 33 ==> f[k] == s1144_header_byte(badge, k - 1)
    &&& forall|k: int| 33 <= k < 65 ==> f[k] == 0
}

/// Build the loaded header's 32 wire bytes from the badge state.
#[verifier::rlimit(100)]
fn s1144_header_bytes(badge: &Badge) -> (r: Vec<u8>)
    requires
        badge.wf(),
    ensures
        r@.len() == 32,
        forall|k: int| 0 <= k < 32 ==> r@[k] == s1144_header_byte(*badge, k),
{
    let mut header = BadgeHeader::default();
    header.load(badge);
    proof {
        assert forall|i: int| 0 <= i < 32 implies #[trigger] header_byte_at(header, i)
            == s1144_header_byte(*badge, i) by {
            if 16 <= i {
                let v = header.msg_len@[(i - 16) / 2];
                lemma_be_bytes(v);
                assert(v as int == cols16(*badge, (i - 16) / 2));
            }
        }
    }
    header.to_bytes()
}

/// The big-endian bytes of a 16-bit value are its quotient and remainder
/// by 256.
proof fn lemma_be_bytes(v: u16)
    ensures
        v >> 8u16 == v / 256,
        v & 0xFF == v % 256,
        v >> 8u16 < 256,
{
    assert(v >> 8u16 == v / 256 && v & 0xFF == v % 256 && v >> 8u16 < 256) by (bit_vector);
}

/// Build the legacy protocol's header frame.
fn s1144_header_frame(badge: &Badge) -> (frame0: Vec<u8>)
    requires
        badge.wf(),
    ensures
        s1144_header_frame_ok(*badge, frame0@),
{
    let header_bytes = s1144_header_bytes(badge);
    let mut frame0: Vec<u8> = Vec::new();
    frame0.push(0);
    frame0.extend_from_slice(header_bytes.as_slice());
    let mut p: usize = frame0.len();
    while p < 65
        invariant
            33 <= p <= 65,
            frame0@.len() == p,
            frame0@[0] == 0,
            forall|k: int| 1 <= k < 33 ==> frame0@[k] == s1144_header_byte(*badge, k - 1),
            forall|k: int| 33 <= k < p ==> frame0@[k] == 0,
        decreases 65 - p,
    {
        frame0.push(0);
        p = p + 1;
    }
    frame0
}

/// Encode the badge state into the legacy protocol's report frames: the
/// header frame, then the payload split into 64-byte chunks.
pub fn s1144_frames(badge: &Badge) -> (frames: Vec<Vec<u8>>)
    requires
        badge.wf(),
        concat_data(*badge).len() + 63 <= usize::MAX,
    ensures
        frames@.len() == 1 + (concat_data(*badge).len() + 63) / 64,
        s1144_header_frame_ok(*badge, frames@[0]@),
        forall|f: int|
            1 <= f < frames@.len() ==> (#[trigger] frames@[f])@.len() == 65 && frames@[f]@[0]
                == 0,
        forall|f: int, j: int|
            1 <= f < frames@.len() && 1 <= j < 65 ==> (#[trigger] frames@[f]@[j]) == (if (f - 1)
                * 64 + j - 1 < concat_data(*badge).len() {
                concat_data(*badge)[(f - 1) * 64 + j - 1]
            } else {
                0u8
            }),
{
    let frame0 = s1144_header_frame(badge);
    let mut disp_buf: Vec<u8> = Vec::new();
    let mut i: usize = 0;
    while i < 8
        invariant
            badge.wf(),
            i <= 8,
            disp_buf@ == concat_data_upto(*badge, i as int),
        decreases 8 - i,
    {
        disp_buf.extend_from_slice(badge.messages[i].data.as_slice());
        i = i + 1;
    }
    let mut frames: Vec<Vec<u8>> = Vec::new();
    frames.push(frame0);
    let mut payload_frames = chunk(disp_buf.as_slice());
    proof {
        assert(chunk_frames_ok(concat_data(*badge), payload_frames@));
    }
    frames.append(&mut payload_frames);
    frames
}


} // verus!
