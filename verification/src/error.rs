//! Error types for the badge library.
//!
//! The variants carry plain values only; user-facing message formatting is
//! left to the caller.

use vstd::prelude::*;
use vstd::string::StringExecFns;

verus! {

/// Describes an error of the font-matching step.
#[derive(Debug, Clone)]
pub enum FontSelectorError {
    /// Caused by a font-configuration internal error.
    FontConfigError,
    /// No font matched; carries the requested family names, joined.
    FontNotFound(String),
}

/// Describes an error of the font-lookup step.
#[derive(Debug, Clone)]
pub enum FontFinderError {
    /// Caused by a font-configuration internal error; carries the failing step.
    FontConfigError(String),
    /// No font matched; carries the requested family names, joined.
    FontNotFound(String),
}

/// Describes an error met while encoding a raster to a PNG byte stream.
#[derive(Debug)]
pub enum BadgeImageWriteError {
    /// The PNG encoder refused the image; carries its message.
    PngEncodeError(String),
}

/// Describes an error met while decoding a PNG byte stream to a raster.
#[derive(Debug)]
pub enum BadgeImageReadError {
    /// The PNG decoder refused the byte stream; carries its message.
    PngDecodeError(String),
    /// The PNG was well-formed but of a shape the badge cannot hold.
    UnsupportedPngError(String),
}

/// Describes an error related to a LED badge operation.
#[derive(Debug)]
pub enum BadgeError {
    /// No badge is connected.
    BadgeNotFound,
    /// More than one badge is connected.
    MultipleBadgeFound,
    /// The device could not be opened; carries the transport's message.
    CouldNotOpenDevice(String),
    /// The message slot index is out of range; carries the index.
    MessageNumberOutOfRange(usize),
    /// The speed value is outside `[1, 8]`.
    WrongSpeed,
    /// The brightness value is outside `[0, 4]`.
    WrongBrightness,
    /// The transport failed mid-write; carries its message.
    HidIo(String),
    /// No font matched the requested families.
    FontNotFound(FontSelectorError),
    /// The font file could not be loaded; carries the rasterizer's message.
    FontLoading(String),
    /// A file could not be read or written; carries an optional path and the
    /// underlying message.
    FileIo(Option<String>, String),
    /// A PNG byte stream could not be read; carries an optional source path.
    PngReadError(Option<String>, BadgeImageReadError),
    /// A PNG byte stream could not be written; carries an optional target path.
    PngWriteError(Option<String>, BadgeImageWriteError),
    /// The slot holds no raster, so there is nothing to export.
    NoDataToWrite,
}

/// The character for decimal digit `d`.
pub open spec fn digit_char(d: int) -> char {
    if d == 0 {
        '0'
    } else if d == 1 {
        '1'
    } else if d == 2 {
        '2'
    } else if d == 3 {
        '3'
    } else if d == 4 {
        '4'
    } else if d == 5 {
        '5'
    } else if d == 6 {
        '6'
    } else if d == 7 {
        '7'
    } else if d == 8 {
        '8'
    } else {
        '9'
    }
}

/// The decimal representation of `n`, without sign or padding.
pub open spec fn dec_seq(n: nat) -> Seq<char>
    decreases n,
{
    if n < 10 {
        seq![digit_char(n as int)]
    } else {
        dec_seq(n / 10) + seq![digit_char((n % 10) as int)]
    }
}

/// The digits of `ds`, least significant first, read back as characters in
/// display order (most significant first).
pub open spec fn rev_digits(ds: Seq<u8>) -> Seq<char> {
    Seq::new(ds.len(), |i: int| digit_char(ds[ds.len() - 1 - i] as int))
}

/// Append the character for decimal digit `d` to `s`.
fn append_digit(s: &mut String, d: u8)
    requires
        d < 10,
    ensures
        final(s)@ == old(s)@ + seq![digit_char(d as int)],
{
    proof {
        reveal_strlit("0");
        reveal_strlit("1");
        reveal_strlit("2");
        reveal_strlit("3");
        reveal_strlit("4");
        reveal_strlit("5");
        reveal_strlit("6");
        reveal_strlit("7");
        reveal_strlit("8");
        reveal_strlit("9");
        assert("0"@ =~= seq!['0'] && "1"@ =~= seq!['1'] && "2"@ =~= seq!['2'] && "3"@
            =~= seq!['3'] && "4"@ =~= seq!['4'] && "5"@ =~= seq!['5'] && "6"@ =~= seq!['6'] && "7"@
            =~= seq!['7'] && "8"@ =~= seq!['8'] && "9"@ =~= seq!['9']);
    }
    if d == 0 {
        s.append("0");
    } else if d == 1 {
        s.append("1");
    } else if d == 2 {
        s.append("2");
    } else if d == 3 {
        s.append("3");
    } else if d == 4 {
        s.append("4");
    } else if d == 5 {
        s.append("5");
    } else if d == 6 {
        s.append("6");
    } else if d == 7 {
        s.append("7");
    } else if d == 8 {
        s.append("8");
    } else {
        s.append("9");
    }
}

/// Render `n` in decimal.
pub fn u32_to_string(n: u32) -> (r: String)
    ensures
        r@ == dec_seq(n as nat),
{
    let mut ds: Vec<u8> = Vec::new();
    ds.push((n % 10) as u8);
    let mut m: u32 = n / 10;
    while m > 0
        invariant
            1 <= ds@.len(),
            forall|i: int| 0 <= i < ds@.len() ==> ds@[i] < 10,
            dec_seq(n as nat) =~= (if m > 0 {
                dec_seq(m as nat)
            } else {
                Seq::<char>::empty()
            }) + rev_digits(ds@),
        decreases m,
    {
        let ghost old_ds = ds@;
        let d = (m % 10) as u8;
        ds.push(d);
        m = m / 10;
        proof {
            assert(rev_digits(ds@) =~= seq![digit_char(d as int)] + rev_digits(old_ds));
        }
    }
    let mut s = String::new();
    let mut i: usize = ds.len();
    while i > 0
        invariant
            i <= ds@.len(),
            forall|j: int| 0 <= j < ds@.len() ==> ds@[j] < 10,
            s@ =~= rev_digits(ds@).subrange(0, ds@.len() - i),
        decreases i,
    {
        i = i - 1;
        append_digit(&mut s, ds[i]);
        proof {
            assert(s@ =~= rev_digits(ds@).subrange(0, ds@.len() - i));
        }
    }
    proof {
        assert(s@ =~= dec_seq(n as nat));
    }
    s
}

/// The text that introduces an optional source path in an error message:
/// `" : <path>"` when a path is known, empty otherwise.
pub open spec fn io_error_path_seq(path: Option<Seq<char>>) -> Seq<char> {
    match path {
        Some(p) => " : "@ + p,
        None => Seq::<char>::empty(),
    }
}

/// Render the optional path suffix of a file error message.
pub fn format_io_error_path(path: &Option<String>) -> (r: String)
    ensures
        r@ == io_error_path_seq(match path {
            Some(p) => Some(p@),
            None => None,
        }),
{
    match path {
        Some(p) => {
            let mut s = String::from_str(" : ");
            s.append(p.as_str());
            s
        },
        None => String::new(),
    }
}

} // verus!
