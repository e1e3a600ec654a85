//! The closed set of display effects a badge slot can use, together with
//! their 3-bit wire codes and their lower-case names as used by the CLI.

use vstd::prelude::*;
use vstd::string::StrSliceExecFns;
use vstd::string::StringExecFns;

verus! {

/// Message effect type.
///
/// The declaration order fixes the wire code of each variant:
/// `Left` is 0 and `Laser` is 8 (see [`effect_code`]).
#[derive(Debug, PartialEq, Eq, Structural, Copy, Clone)]
pub enum BadgeEffect {
    Left,
    Right,
    Up,
    Down,
    Freeze,
    Animation,
    Snow,
    Volume,
    Laser,
}

/// The 3-bit code that stands for `e` on the wire.
pub open spec fn effect_code(e: BadgeEffect) -> u8 {
    match e {
        BadgeEffect::Left => 0,
        BadgeEffect::Right => 1,
        BadgeEffect::Up => 2,
        BadgeEffect::Down => 3,
        BadgeEffect::Freeze => 4,
        BadgeEffect::Animation => 5,
        BadgeEffect::Snow => 6,
        BadgeEffect::Volume => 7,
        BadgeEffect::Laser => 8,
    }
}

/// The effect whose wire code is `v`, if `v` is a valid code.
pub open spec fn effect_from_code(v: u8) -> Result<BadgeEffect, ()> {
    if v == 0 {
        Ok(BadgeEffect::Left)
    } else if v == 1 {
        Ok(BadgeEffect::Right)
    } else if v == 2 {
        Ok(BadgeEffect::Up)
    } else if v == 3 {
        Ok(BadgeEffect::Down)
    } else if v == 4 {
        Ok(BadgeEffect::Freeze)
    } else if v == 5 {
        Ok(BadgeEffect::Animation)
    } else if v == 6 {
        Ok(BadgeEffect::Snow)
    } else if v == 7 {
        Ok(BadgeEffect::Volume)
    } else if v == 8 {
        Ok(BadgeEffect::Laser)
    } else {
        Err(())
    }
}

/// The lower-case name of `e`, as written on the command line.
pub open spec fn effect_name_seq(e: BadgeEffect) -> Seq<char> {
    match e {
        BadgeEffect::Left => "left"@,
        BadgeEffect::Right => "right"@,
        BadgeEffect::Up => "up"@,
        BadgeEffect::Down => "down"@,
        BadgeEffect::Freeze => "freeze"@,
        BadgeEffect::Animation => "animation"@,
        BadgeEffect::Snow => "snow"@,
        BadgeEffect::Volume => "volume"@,
        BadgeEffect::Laser => "laser"@,
    }
}

/// The effect whose lower-case name is `s`, if any.
pub open spec fn effect_from_name(s: Seq<char>) -> Result<BadgeEffect, ()> {
    if s == "left"@ {
        Ok(BadgeEffect::Left)
    } else if s == "right"@ {
        Ok(BadgeEffect::Right)
    } else if s == "up"@ {
        Ok(BadgeEffect::Up)
    } else if s == "down"@ {
        Ok(BadgeEffect::Down)
    } else if s == "freeze"@ {
        Ok(BadgeEffect::Freeze)
    } else if s == "snow"@ {
        Ok(BadgeEffect::Snow)
    } else if s == "animation"@ {
        Ok(BadgeEffect::Animation)
    } else if s == "volume"@ {
        Ok(BadgeEffect::Volume)
    } else if s == "laser"@ {
        Ok(BadgeEffect::Laser)
    } else {
        Err(())
    }
}

/// String equality by contents.
fn str_eq(a: &str, b: &str) -> (r: bool)
    ensures
        r == (a@ == b@),
{
    a.to_owned() == b.to_owned()
}

impl BadgeEffect {
    /// All effects, in wire-code order.
    pub fn values() -> (v: Vec<BadgeEffect>)
        ensures
            v@.len() == 9,
            forall|i: int| 0 <= i < 9 ==> effect_code(#[trigger] v@[i]) == i,
    {
        let mut v: Vec<BadgeEffect> = Vec::new();
        v.push(BadgeEffect::Left);
        v.push(BadgeEffect::Right);
        v.push(BadgeEffect::Up);
        v.push(BadgeEffect::Down);
        v.push(BadgeEffect::Freeze);
        v.push(BadgeEffect::Animation);
        v.push(BadgeEffect::Snow);
        v.push(BadgeEffect::Volume);
        v.push(BadgeEffect::Laser);
        v
    }

    /// The 3-bit wire code of this effect.
    pub fn code(self) -> (c: u8)
        ensures
            c == effect_code(self),
    {
        match self {
            BadgeEffect::Left => 0,
            BadgeEffect::Right => 1,
            BadgeEffect::Up => 2,
            BadgeEffect::Down => 3,
            BadgeEffect::Freeze => 4,
            BadgeEffect::Animation => 5,
            BadgeEffect::Snow => 6,
            BadgeEffect::Volume => 7,
            BadgeEffect::Laser => 8,
        }
    }

    /// The effect with wire code `value`; `Err(())` when `value > 8`.
    pub fn try_from(value: u8) -> (r: Result<BadgeEffect, ()>)
        ensures
            r == effect_from_code(value),
    {
        if value == 0 {
            Ok(BadgeEffect::Left)
        } else if value == 1 {
            Ok(BadgeEffect::Right)
        } else if value == 2 {
            Ok(BadgeEffect::Up)
        } else if value == 3 {
            Ok(BadgeEffect::Down)
        } else if value == 4 {
            Ok(BadgeEffect::Freeze)
        } else if value == 5 {
            Ok(BadgeEffect::Animation)
        } else if value == 6 {
            Ok(BadgeEffect::Snow)
        } else if value == 7 {
            Ok(BadgeEffect::Volume)
        } else if value == 8 {
            Ok(BadgeEffect::Laser)
        } else {
            Err(())
        }
    }

    /// The lower-case name of this effect.
    pub fn name(&self) -> (r: String)
        ensures
            r@ == effect_name_seq(*self),
    {
        match self {
            BadgeEffect::Left => String::from_str("left"),
            BadgeEffect::Right => String::from_str("right"),
            BadgeEffect::Up => String::from_str("up"),
            BadgeEffect::Down => String::from_str("down"),
            BadgeEffect::Freeze => String::from_str("freeze"),
            BadgeEffect::Animation => String::from_str("animation"),
            BadgeEffect::Snow => String::from_str("snow"),
            BadgeEffect::Volume => String::from_str("volume"),
            BadgeEffect::Laser => String::from_str("laser"),
        }
    }

    /// The effect named `value`; `Err(())` when no effect has that name.
    pub fn from_str(value: &str) -> (r: Result<BadgeEffect, ()>)
        ensures
            r == effect_from_name(value@),
    {
        if str_eq(value, "left") {
            Ok(BadgeEffect::Left)
        } else if str_eq(value, "right") {
            Ok(BadgeEffect::Right)
        } else if str_eq(value, "up") {
            Ok(BadgeEffect::Up)
        } else if str_eq(value, "down") {
            Ok(BadgeEffect::Down)
        } else if str_eq(value, "freeze") {
            Ok(BadgeEffect::Freeze)
        } else if str_eq(value, "snow") {
            Ok(BadgeEffect::Snow)
        } else if str_eq(value, "animation") {
            Ok(BadgeEffect::Animation)
        } else if str_eq(value, "volume") {
            Ok(BadgeEffect::Volume)
        } else if str_eq(value, "laser") {
            Ok(BadgeEffect::Laser)
        } else {
            Err(())
        }
    }
}

/// Effect codes and names round-trip: for every effect, looking its name up
/// again yields the same effect, and so does looking its wire code up again.
pub proof fn lemma_effect_roundtrip(e: BadgeEffect)
    ensures
        effect_from_name(effect_name_seq(e)) == Ok::<BadgeEffect, ()>(e),
        effect_from_code(effect_code(e)) == Ok::<BadgeEffect, ()>(e),
{
    reveal_strlit("left");
    reveal_strlit("right");
    reveal_strlit("up");
    reveal_strlit("down");
    reveal_strlit("freeze");
    reveal_strlit("animation");
    reveal_strlit("snow");
    reveal_strlit("volume");
    reveal_strlit("laser");
    // The names have pairwise distinct contents: most differ in length, and
    // the same-length pairs differ in their first character.
    assert("left"@.len() == 4 && "right"@.len() == 5 && "up"@.len() == 2);
    assert("down"@.len() == 4 && "freeze"@.len() == 6 && "snow"@.len() == 4);
    assert("animation"@.len() == 9 && "volume"@.len() == 6 && "laser"@.len() == 5);
    assert("left"@[0] == 'l' && "down"@[0] == 'd' && "snow"@[0] == 's');
    assert("right"@[0] == 'r' && "laser"@[0] == 'l');
    assert("freeze"@[0] == 'f' && "volume"@[0] == 'v');
}

} // verus!
