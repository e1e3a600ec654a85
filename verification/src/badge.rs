//! The logical badge state: eight message slots, each holding a raster and
//! its display attributes, plus a global brightness.

use crate::bitmap::channels_of_code;
use crate::bitmap::packed_data_spec;
use crate::bitmap::png_decode_spec;
use crate::bitmap::read_png_result_matches;
use crate::bitmap::read_png_to_badge_message;
use crate::bitmap::write_badge_message_to_png;
use crate::bitmap::write_png_result_matches;
use crate::effect::BadgeEffect;
use crate::error::BadgeError;
use vstd::prelude::*;

verus! {

/// Number of message slots the badge stores.
pub const N_MESSAGES: usize = 8;

/// One message slot: a raster and its display attributes.
#[derive(Debug)]
pub struct BadgeMessage {
    /// Blink (flash) the message.
    pub blink: bool,
    /// Draw a frame (border) around the message.
    pub frame: bool,
    /// Scroll speed, `1..=8` once set; `0` until then.
    pub speed: u8,
    /// Display effect.
    pub effect: BadgeEffect,
    /// Packed raster data (see the bitmap module's layout).
    pub data: Vec<u8>,
}

impl BadgeMessage {
    /// A well-formed slot holds whole byte columns only.
    pub open spec fn wf(self) -> bool {
        self.data@.len() % 11 == 0
    }
}

impl Default for BadgeMessage {
    /// An empty slot: no raster, speed unset, effect `Left`, flags off.
    fn default() -> (r: Self)
        ensures
            r.wf(),
            !r.blink && !r.frame && r.speed == 0,
            r.effect == BadgeEffect::Left,
            r.data@ == Seq::<u8>::empty(),
    {
        BadgeMessage {
            blink: false,
            frame: false,
            speed: 0,
            effect: BadgeEffect::Left,
            data: Vec::new(),
        }
    }
}

/// Whether decoding `d` yields an image the badge can import: 8 bits per
/// sample, 11 pixels high, and a pixel buffer of the announced size.
pub open spec fn png_import_ok(d: Result<(u32, u32, u8, u8, Seq<u8>), Seq<char>>) -> bool {
    d matches Ok(t) && t.2 == 8 && t.1 == 11 && channels_of_code(t.3) >= 1 && t.4.len() == t.0 * 11
        * channels_of_code(t.3)
}

/// The raster an importable decoded image packs to.
pub open spec fn png_import_data(d: Result<(u32, u32, u8, u8, Seq<u8>), Seq<char>>) -> Seq<u8> {
    packed_data_spec(d->Ok_0.4, d->Ok_0.0 as int, 11, channels_of_code(d->Ok_0.3), 0x80)
}

/// Badge context: the slots and the global brightness.
///
/// Brightness is stored unadjusted in `0..=4` (0 darkest, 4 brightest);
/// the legacy header shifts it into its high nibble when encoding.
pub struct Badge {
    /// Badge brightness, `0..=4`.
    pub brightness: u8,
    /// The eight message slots.
    pub messages: Vec<BadgeMessage>,
}

impl Badge {
    /// A well-formed badge holds exactly eight well-formed slots and an
    /// in-range brightness.
    pub open spec fn wf(self) -> bool {
        &&& self.messages@.len() == 8
        &&& forall|i: int| 0 <= i < 8 ==> (#[trigger] self.messages@[i]).wf()
        &&& self.brightness <= 4
    }

    /// All slots other than `msg_num`, and the brightness, are unchanged.
    pub open spec fn only_slot_changed(self, old: Badge, msg_num: int) -> bool {
        &&& self.brightness == old.brightness
        &&& self.messages@.len() == old.messages@.len()
        &&& forall|j: int|
            0 <= j < old.messages@.len() && j != msg_num ==> self.messages@[j] == old.messages@[j]
    }

    /// Slot `msg_num` now holds raster `data`, its other attributes and the
    /// rest of the badge being unchanged.
    pub open spec fn slot_data_replaced(self, old: Badge, msg_num: int, data: Seq<u8>) -> bool {
        &&& self.only_slot_changed(old, msg_num)
        &&& self.messages@[msg_num].data@ == data
        &&& self.messages@[msg_num].blink == old.messages@[msg_num].blink
        &&& self.messages@[msg_num].frame == old.messages@[msg_num].frame
        &&& self.messages@[msg_num].speed == old.messages@[msg_num].speed
        &&& self.messages@[msg_num].effect == old.messages@[msg_num].effect
    }

    /// Create a badge with empty slots, at full brightness (4).
    pub fn new() -> (r: Result<Self, BadgeError>)
        ensures
            r matches Ok(b) && b.wf() && b.brightness == 4 && b.messages@.len() == 8,
            forall|i: int|
                0 <= i < 8 ==> {
                    let m = #[trigger] r->Ok_0.messages@[i];
                    !m.blink && !m.frame && m.speed == 0 && m.effect == BadgeEffect::Left
                        && m.data@ == Seq::<u8>::empty()
                },
    {
        let mut messages: Vec<BadgeMessage> = Vec::new();
        let mut i: usize = 0;
        while i < 8
            invariant
                i <= 8,
                messages@.len() == i,
                forall|j: int|
                    0 <= j < i ==> {
                        let m = #[trigger] messages@[j];
                        !m.blink && !m.frame && m.speed == 0 && m.effect == BadgeEffect::Left
                            && m.data@ == Seq::<u8>::empty() && m.wf()
                    },
            decreases 8 - i,
        {
            messages.push(BadgeMessage::default());
            i = i + 1;
        }
        Ok(Badge { brightness: 4, messages })
    }

    /// Import a PNG byte stream into slot `msg_num`.
    ///
    /// Fails with `MessageNumberOutOfRange` when `msg_num >= 8`, and with
    /// `PngReadError` when the bytes do not decode to a supported image;
    /// otherwise the slot's raster is replaced and nothing else changes.
    pub fn add_png_message(&mut self, msg_num: usize, png_data: &[u8]) -> (r: Result<
        (),
        BadgeError,
    >)
        requires
            old(self).wf(),
        ensures
            final(self).wf(),
            msg_num >= 8 ==> (r matches Err(BadgeError::MessageNumberOutOfRange(n)) && n == msg_num
                && *final(self) == *old(self)),
            msg_num < 8 ==> {
                let d = png_decode_spec(png_data@);
                match r {
                    Ok(()) => png_import_ok(d) && final(self).slot_data_replaced(
                        *old(self),
                        msg_num as int,
                        png_import_data(d),
                    ),
                    Err(err) => !png_import_ok(d) && *final(self) == *old(self) && (err matches
                        BadgeError::PngReadError(p, e) && p is None && read_png_result_matches(
                        d,
                        Err(e),
                    )),
                }
            },
    {
        if msg_num >= 8 {
            return Err(BadgeError::MessageNumberOutOfRange(msg_num));
        }
        match read_png_to_badge_message(png_data) {
            Ok(data) => {
                proof {
                    let w = png_decode_spec(png_data@)->Ok_0.0;
                    assert(data@.len() == ((w + 7) / 8) * 11);
                    assert(((w + 7) / 8) * 11 % 11 == 0) by (nonlinear_arith);
                }
                self.messages[msg_num].data = data;
                Ok(())
            },
            Err(e) => Err(BadgeError::PngReadError(None, e)),
        }
    }

    /// Set the display effect of slot `msg_num`.
    pub fn set_effect_pattern(&mut self, msg_num: usize, pat: BadgeEffect) -> (r: Result<
        (),
        BadgeError,
    >)
        requires
            old(self).wf(),
        ensures
            final(self).wf(),
            msg_num >= 8 ==> (r matches Err(BadgeError::MessageNumberOutOfRange(n)) && n == msg_num
                && *final(self) == *old(self)),
            msg_num < 8 ==> (r matches Ok(()) && final(self).only_slot_changed(
                *old(self),
                msg_num as int,
            ) && final(self).messages@[msg_num as int] == (BadgeMessage {
                effect: pat,
                ..old(self).messages@[msg_num as int]
            })),
    {
        if msg_num >= 8 {
            return Err(BadgeError::MessageNumberOutOfRange(msg_num));
        }
        self.messages[msg_num].effect = pat;
        Ok(())
    }

    /// Set the scroll speed of slot `msg_num`; the speed must lie in `1..=8`.
    pub fn set_effect_speed(&mut self, msg_num: usize, spd: u8) -> (r: Result<(), BadgeError>)
        requires
            old(self).wf(),
        ensures
            final(self).wf(),
            msg_num >= 8 ==> (r matches Err(BadgeError::MessageNumberOutOfRange(n)) && n == msg_num
                && *final(self) == *old(self)),
            msg_num < 8 && !(1 <= spd <= 8) ==> (r matches Err(BadgeError::WrongSpeed)
                && *final(self) == *old(self)),
            msg_num < 8 && 1 <= spd <= 8 ==> (r matches Ok(()) && final(self).only_slot_changed(
                *old(self),
                msg_num as int,
            ) && final(self).messages@[msg_num as int] == (BadgeMessage {
                speed: spd,
                ..old(self).messages@[msg_num as int]
            })),
    {
        if msg_num >= 8 {
            return Err(BadgeError::MessageNumberOutOfRange(msg_num));
        }
        if spd < 1 || spd > 8 {
            return Err(BadgeError::WrongSpeed);
        }
        self.messages[msg_num].speed = spd;
        Ok(())
    }

    /// Set the blink flag of slot `msg_num`.
    pub fn set_effect_blink(&mut self, msg_num: usize, blink: bool) -> (r: Result<(), BadgeError>)
        requires
            old(self).wf(),
        ensures
            final(self).wf(),
            msg_num >= 8 ==> (r matches Err(BadgeError::MessageNumberOutOfRange(n)) && n == msg_num
                && *final(self) == *old(self)),
            msg_num < 8 ==> (r matches Ok(()) && final(self).only_slot_changed(
                *old(self),
                msg_num as int,
            ) && final(self).messages@[msg_num as int] == (BadgeMessage {
                blink,
                ..old(self).messages@[msg_num as int]
            })),
    {
        if msg_num >= 8 {
            return Err(BadgeError::MessageNumberOutOfRange(msg_num));
        }
        self.messages[msg_num].blink = blink;
        Ok(())
    }

    /// Set the frame flag of slot `msg_num`.
    pub fn set_effect_frame(&mut self, msg_num: usize, frame: bool) -> (r: Result<(), BadgeError>)
        requires
            old(self).wf(),
        ensures
            final(self).wf(),
            msg_num >= 8 ==> (r matches Err(BadgeError::MessageNumberOutOfRange(n)) && n == msg_num
                && *final(self) == *old(self)),
            msg_num < 8 ==> (r matches Ok(()) && final(self).only_slot_changed(
                *old(self),
                msg_num as int,
            ) && final(self).messages@[msg_num as int] == (BadgeMessage {
                frame,
                ..old(self).messages@[msg_num as int]
            })),
    {
        if msg_num >= 8 {
            return Err(BadgeError::MessageNumberOutOfRange(msg_num));
        }
        self.messages[msg_num].frame = frame;
        Ok(())
    }

    /// Set the global brightness; the value must lie in `0..=4`.
    pub fn set_brightness(&mut self, br: u8) -> (r: Result<(), BadgeError>)
        requires
            old(self).wf(),
        ensures
            final(self).wf(),
            br > 4 ==> (r matches Err(BadgeError::WrongBrightness) && *final(self) == *old(self)),
            br <= 4 ==> (r matches Ok(()) && final(self).brightness == br && final(self).messages@
                == old(self).messages@),
    {
        if br > 4 {
            return Err(BadgeError::WrongBrightness);
        }
        self.brightness = br;
        Ok(())
    }

    /// Replace the raster of slot `msg_num` with already-packed data.
    ///
    /// This is the storing half of the text-rendering path: the caller
    /// renders glyphs to raster data first and hands the result here.
    pub fn add_message_data(&mut self, msg_num: usize, data: Vec<u8>) -> (r: Result<
        (),
        BadgeError,
    >)
        requires
            old(self).wf(),
            data@.len() % 11 == 0,
        ensures
            final(self).wf(),
            msg_num >= 8 ==> (r matches Err(BadgeError::MessageNumberOutOfRange(n)) && n == msg_num
                && *final(self) == *old(self)),
            msg_num < 8 ==> (r matches Ok(()) && final(self).only_slot_changed(
                *old(self),
                msg_num as int,
            ) && final(self).messages@[msg_num as int] == (BadgeMessage {
                data,
                ..old(self).messages@[msg_num as int]
            })),
    {
        if msg_num >= 8 {
            return Err(BadgeError::MessageNumberOutOfRange(msg_num));
        }
        self.messages[msg_num].data = data;
        Ok(())
    }

    /// Export the raster of slot `msg_num` as a grayscale PNG byte stream.
    ///
    /// Fails with `MessageNumberOutOfRange` when `msg_num >= 8` and with
    /// `NoDataToWrite` when the slot is empty.
    pub fn write_to_png(&self, msg_num: usize) -> (r: Result<Vec<u8>, BadgeError>)
        requires
            self.wf(),
            msg_num < 8 ==> self.messages@[msg_num as int].data@.len() * 8 <= usize::MAX && 8 * (
            self.messages@[msg_num as int].data@.len() / 11) <= u32::MAX,
        ensures
            msg_num >= 8 ==> (r matches Err(BadgeError::MessageNumberOutOfRange(n)) && n == msg_num),
            msg_num < 8 && self.messages@[msg_num as int].data@.len() == 0 ==> (r matches Err(
                BadgeError::NoDataToWrite
            )),
            msg_num < 8 && self.messages@[msg_num as int].data@.len() > 0 ==> {
                let data = self.messages@[msg_num as int].data@;
                match r {
                    Ok(b) => write_png_result_matches(data, Ok(b)),
                    Err(err) => err matches BadgeError::PngWriteError(p, e) && p is None
                        && write_png_result_matches(data, Err(e)),
                }
            },
    {
        if msg_num >= 8 {
            return Err(BadgeError::MessageNumberOutOfRange(msg_num));
        }
        if self.messages[msg_num].data.len() == 0 {
            return Err(BadgeError::NoDataToWrite);
        }
        match write_badge_message_to_png(self.messages[msg_num].data.as_slice()) {
            Ok(b) => Ok(b),
            Err(e) => Err(BadgeError::PngWriteError(None, e)),
        }
    }
}

} // verus!
