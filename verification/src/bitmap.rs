//! The one-bit raster format shared by text rendering, PNG import/export and
//! wire encoding.
//!
//! A raster ("badge message data") is a byte sequence whose length is a
//! multiple of the fixed raster height.  Byte `col * H + row` holds eight
//! horizontal pixels of row `row`; the most significant bit is the leftmost
//! pixel of the group, so bit `k` (mask `0x80 >> k`) is the pixel at
//! `x = col * 8 + k`.  Pixels beyond the real width inside the last byte
//! column are zero.

use crate::error::dec_seq;
use crate::error::u32_to_string;
use crate::error::BadgeImageReadError;
use crate::error::BadgeImageWriteError;
use vstd::prelude::*;
use vstd::string::StringExecFns;

verus! {

/// Height in pixels of every badge raster.
pub const BADGE_MSG_FONT_HEIGHT: usize = 11;

/// Whether the source pixel at `(x, row)` of a pixel buffer counts as lit.
///
/// The buffer holds `width` samples per row, each `stride` bytes wide, and a
/// sample is lit when its first byte is at least `thresh`.  Positions at or
/// beyond `width` are unlit.
pub open spec fn src_lit(
    buf: Seq<u8>,
    width: int,
    stride: int,
    thresh: u8,
    x: int,
    row: int,
) -> bool {
    x < width && buf[(row * width + x) * stride] >= thresh
}

/// The packed byte holding pixels `col * 8 .. col * 8 + 8` of row `row`.
pub open spec fn packed_byte_at(
    buf: Seq<u8>,
    width: int,
    stride: int,
    thresh: u8,
    col: int,
    row: int,
) -> u8 {
    ((if src_lit(buf, width, stride, thresh, 8 * col + 0, row) {
        128int
    } else {
        0int
    }) + (if src_lit(buf, width, stride, thresh, 8 * col + 1, row) {
        64int
    } else {
        0int
    }) + (if src_lit(buf, width, stride, thresh, 8 * col + 2, row) {
        32int
    } else {
        0int
    }) + (if src_lit(buf, width, stride, thresh, 8 * col + 3, row) {
        16int
    } else {
        0int
    }) + (if src_lit(buf, width, stride, thresh, 8 * col + 4, row) {
        8int
    } else {
        0int
    }) + (if src_lit(buf, width, stride, thresh, 8 * col + 5, row) {
        4int
    } else {
        0int
    }) + (if src_lit(buf, width, stride, thresh, 8 * col + 6, row) {
        2int
    } else {
        0int
    }) + (if src_lit(buf, width, stride, thresh, 8 * col + 7, row) {
        1int
    } else {
        0int
    })) as u8
}

/// The whole packed raster of a pixel buffer: `ceil(width / 8)` byte columns
/// of `height` rows each, in column-major order.
pub open spec fn packed_data_spec(
    buf: Seq<u8>,
    width: int,
    height: int,
    stride: int,
    thresh: u8,
) -> Seq<u8> {
    Seq::new(
        (((width + 7) / 8) * height) as nat,
        |i: int| packed_byte_at(buf, width, stride, thresh, i / height, i % height),
    )
}

/// Test whether the source pixel at `(x, row)` is lit.
fn sample_lit(buf: &Vec<u8>, width: usize, stride: usize, thresh: u8, x: usize, row: usize) -> (r:
    bool)
    requires
        1 <= stride,
        (row + 1) * width * stride <= buf@.len(),
    ensures
        r == src_lit(buf@, width as int, stride as int, thresh, x as int, row as int),
{
    if x < width {
        let n = buf.len();
        proof {
            assert(row * width + x <= (row * width + x) * stride && (row * width + x) * stride
                < n) by (nonlinear_arith)
                requires
                    1 <= stride,
                    0 <= x < width,
                    0 <= row,
                    (row + 1) * width * stride <= n,
            ;
        }
        buf[(row * width + x) * stride] >= thresh
    } else {
        false
    }
}

/// Pack the eight pixels `col * 8 .. col * 8 + 8` of row `row` into one byte.
fn pack_byte(
    buf: &Vec<u8>,
    width: usize,
    stride: usize,
    thresh: u8,
    col: usize,
    row: usize,
) -> (b: u8)
    requires
        1 <= stride,
        8 * col + 8 <= usize::MAX,
        (row + 1) * width * stride <= buf@.len(),
    ensures
        b == packed_byte_at(buf@, width as int, stride as int, thresh, col as int, row as int),
{
    let mut b: u8 = 0;
    if sample_lit(buf, width, stride, thresh, 8 * col, row) {
        b = b + 128;
    }
    if sample_lit(buf, width, stride, thresh, 8 * col + 1, row) {
        b = b + 64;
    }
    if sample_lit(buf, width, stride, thresh, 8 * col + 2, row) {
        b = b + 32;
    }
    if sample_lit(buf, width, stride, thresh, 8 * col + 3, row) {
        b = b + 16;
    }
    if sample_lit(buf, width, stride, thresh, 8 * col + 4, row) {
        b = b + 8;
    }
    if sample_lit(buf, width, stride, thresh, 8 * col + 5, row) {
        b = b + 4;
    }
    if sample_lit(buf, width, stride, thresh, 8 * col + 6, row) {
        b = b + 2;
    }
    if sample_lit(buf, width, stride, thresh, 8 * col + 7, row) {
        b = b + 1;
    }
    b
}

/// Pack a whole pixel buffer into the badge raster format.
fn pack_data(buf: &Vec<u8>, width: usize, height: usize, stride: usize, thresh: u8) -> (data: Vec<
    u8,
>)
    requires
        1 <= stride,
        buf@.len() == width * height * stride,
        width + 8 <= usize::MAX,
    ensures
        data@ == packed_data_spec(buf@, width as int, height as int, stride as int, thresh),
{
    let n = buf.len();
    let data_width = (width + 7) / 8;
    proof {
        assert(data_width * height <= width * height * stride) by (nonlinear_arith)
            requires
                1 <= stride,
                data_width <= width || width == 0,
                data_width == (width + 7) / 8,
        ;
        assert(data_width * height <= n);
    }
    let mut data: Vec<u8> = Vec::new();
    let mut col: usize = 0;
    while col < data_width
        invariant
            col <= data_width,
            data_width == (width + 7) / 8,
            1 <= stride,
            buf@.len() == width * height * stride,
            width + 8 <= usize::MAX,
            data_width * height <= usize::MAX,
            data@.len() == col * height,
            forall|i: int|
                0 <= i < data@.len() ==> data@[i] == packed_byte_at(
                    buf@,
                    width as int,
                    stride as int,
                    thresh,
                    i / height as int,
                    i % height as int,
                ),
        decreases data_width - col,
    {
        let mut row: usize = 0;
        proof {
            assert(col * height + height <= data_width * height) by (nonlinear_arith)
                requires
                    col < data_width,
            ;
        }
        while row < height
            invariant
                col < data_width,
                row <= height,
                data_width == (width + 7) / 8,
                1 <= stride,
                buf@.len() == width * height * stride,
                width + 8 <= usize::MAX,
                col * height + height <= usize::MAX,
                data@.len() == col * height + row,
                forall|i: int|
                    0 <= i < data@.len() ==> data@[i] == packed_byte_at(
                        buf@,
                        width as int,
                        stride as int,
                        thresh,
                        i / height as int,
                        i % height as int,
                    ),
            decreases height - row,
        {
            proof {
                assert((row + 1) * width * stride <= buf@.len()) by (nonlinear_arith)
                    requires
                        row < height,
                        buf@.len() == width * height * stride,
                ;
                assert(8 * col + 8 <= width + 8) by (nonlinear_arith)
                    requires
                        col < data_width,
                        data_width == (width + 7) / 8,
                ;
                let i = col * height + row;
                assert(i / height as int == col && i % height as int == row) by (nonlinear_arith)
                    requires
                        i == col * height + row,
                        0 <= row < height,
                        0 <= col,
                ;
            }
            let b = pack_byte(buf, width, stride, thresh, col, row);
            data.push(b);
            row = row + 1;
        }
        proof {
            assert((col + 1) * height == col * height + height) by (nonlinear_arith);
        }
        col = col + 1;
    }
    proof {
        assert(data@ =~= packed_data_spec(
            buf@,
            width as int,
            height as int,
            stride as int,
            thresh,
        ));
    }
    data
}

/// The bit mask of pixel `k` inside a packed byte, most significant first.
pub open spec fn mask_of(k: int) -> u8 {
    if k == 0 {
        128
    } else if k == 1 {
        64
    } else if k == 2 {
        32
    } else if k == 3 {
        16
    } else if k == 4 {
        8
    } else if k == 5 {
        4
    } else if k == 6 {
        2
    } else {
        1
    }
}

/// The bit mask of pixel `k` inside a packed byte, most significant first.
pub fn mask_at(k: usize) -> (m: u8)
    requires
        k < 8,
    ensures
        m == mask_of(k as int),
{
    if k == 0 {
        128
    } else if k == 1 {
        64
    } else if k == 2 {
        32
    } else if k == 3 {
        16
    } else if k == 4 {
        8
    } else if k == 5 {
        4
    } else if k == 6 {
        2
    } else {
        1
    }
}

/// The grayscale sample at flat position `i` of the image exported from a
/// raster: `0xFF` for a lit pixel, `0x00` otherwise.
pub open spec fn message_pixel_at(data: Seq<u8>, width: int, i: int) -> u8 {
    let x = i % width;
    let y = i / width;
    if data[(x / 8) * 11 + y] & mask_of(x % 8) != 0 {
        255u8
    } else {
        0u8
    }
}

/// The grayscale image exported from a raster: width `8 * (len / 11)` (every
/// byte column contributes its full eight pixels), height 11, row-major.
pub open spec fn message_pixels_spec(data: Seq<u8>) -> Seq<u8> {
    let width = 8 * (data.len() as int / 11);
    Seq::new((width * 11) as nat, |i: int| message_pixel_at(data, width, i))
}

/// Expand a raster into the grayscale pixels of its exported image.
pub fn message_to_pixels(data: &[u8]) -> (pixels: Vec<u8>)
    requires
        data@.len() % 11 == 0,
        data@.len() * 8 <= usize::MAX,
    ensures
        pixels@ == message_pixels_spec(data@),
{
    let len = data.len();
    let wb = len / 11;
    let width = 8 * wb;
    let mut pixels: Vec<u8> = Vec::new();
    let mut y: usize = 0;
    while y < 11
        invariant
            y <= 11,
            len == data@.len(),
            len % 11 == 0,
            len * 8 <= usize::MAX,
            wb == len / 11,
            width == 8 * wb,
            pixels@.len() == y * width,
            forall|i: int|
                0 <= i < pixels@.len() ==> pixels@[i] == message_pixel_at(
                    data@,
                    width as int,
                    i,
                ),
        decreases 11 - y,
    {
        let mut x: usize = 0;
        while x < width
            invariant
                y < 11,
                x <= width,
                len == data@.len(),
                len % 11 == 0,
                len * 8 <= usize::MAX,
                wb == len / 11,
                width == 8 * wb,
                pixels@.len() == y * width + x,
                forall|i: int|
                    0 <= i < pixels@.len() ==> pixels@[i] == message_pixel_at(
                        data@,
                        width as int,
                        i,
                    ),
            decreases width - x,
        {
            let col = x / 8;
            let k = x % 8;
            proof {
                assert(col * 11 + y < len && col * 11 <= x * 2 && x < width) by (nonlinear_arith)
                    requires
                        0 <= x < width,
                        width == 8 * wb,
                        len == 11 * wb,
                        0 <= y < 11,
                        col == x / 8,
                ;
                let i = y * width + x;
                assert(i % width as int == x && i / width as int == y) by (nonlinear_arith)
                    requires
                        0 <= x < width,
                        0 <= y,
                        i == y * width + x,
                ;
            }
            let b = data[col * 11 + y];
            let m = mask_at(k);
            if b & m != 0 {
                pixels.push(255);
            } else {
                pixels.push(0);
            }
            x = x + 1;
        }
        proof {
            assert((y + 1) * width == y * width + width) by (nonlinear_arith);
        }
        y = y + 1;
    }
    proof {
        assert(pixels@ =~= message_pixels_spec(data@));
    }
    pixels
}

/// A byte is the sum of its set bits, masks taken most significant first.
proof fn lemma_byte_of_bits(b: u8)
    ensures
        ((if b & 128 != 0 {
            128int
        } else {
            0int
        }) + (if b & 64 != 0 {
            64int
        } else {
            0int
        }) + (if b & 32 != 0 {
            32int
        } else {
            0int
        }) + (if b & 16 != 0 {
            16int
        } else {
            0int
        }) + (if b & 8 != 0 {
            8int
        } else {
            0int
        }) + (if b & 4 != 0 {
            4int
        } else {
            0int
        }) + (if b & 2 != 0 {
            2int
        } else {
            0int
        }) + (if b & 1 != 0 {
            1int
        } else {
            0int
        })) == b as int,
{
    assert(b == (b & 128) + (b & 64) + (b & 32) + (b & 16) + (b & 8) + (b & 4) + (b & 2) + (b
        & 1)) by (bit_vector);
    assert((b & 128 == 0 || b & 128 == 128) && (b & 64 == 0 || b & 64 == 64) && (b & 32 == 0 || b
        & 32 == 32) && (b & 16 == 0 || b & 16 == 16) && (b & 8 == 0 || b & 8 == 8) && (b & 4 == 0
        || b & 4 == 4) && (b & 2 == 0 || b & 2 == 2) && (b & 1 == 0 || b & 1 == 1)) by (bit_vector);
}

/// One exported sample, read back: the sample standing for pixel `k` of byte
/// column `col`, row `row` is lit exactly when that bit is set in the raster.
proof fn lemma_roundtrip_sample(data: Seq<u8>, wb: int, col: int, row: int, k: int)
    requires
        data.len() == 11 * wb,
        0 <= col < wb,
        0 <= row < 11,
        0 <= k < 8,
    ensures
        src_lit(message_pixels_spec(data), 8 * wb, 1, 0x80, 8 * col + k, row) == (data[col * 11
            + row] & mask_of(k) != 0),
{
    let width = 8 * wb;
    let x = 8 * col + k;
    let i = row * width + x;
    assert(x < width) by (nonlinear_arith)
        requires
            col < wb,
            0 <= k < 8,
            x == 8 * col + k,
            width == 8 * wb,
    ;
    assert(i % width == x && i / width == row) by (nonlinear_arith)
        requires
            0 <= x < width,
            0 <= row,
            i == row * width + x,
    ;
    assert(x / 8 == col && x % 8 == k) by (nonlinear_arith)
        requires
            x == 8 * col + k,
            0 <= k < 8,
            0 <= col,
    ;
    assert(0 <= i < width * 11) by (nonlinear_arith)
        requires
            0 <= x < width,
            0 <= row < 11,
            i == row * width + x,
    ;
    assert(message_pixels_spec(data)[i * 1] == message_pixel_at(data, width, i));
}

/// Export-then-import identity: reading the grayscale image exported from a
/// raster back through the packing step recovers the raster exactly.
pub proof fn lemma_pixels_roundtrip(data: Seq<u8>)
    requires
        data.len() % 11 == 0,
    ensures
        packed_data_spec(
            message_pixels_spec(data),
            8 * (data.len() as int / 11),
            11,
            1,
            0x80,
        ) == data,
{
    let wb = data.len() as int / 11;
    let width = 8 * wb;
    let pix = message_pixels_spec(data);
    let out = packed_data_spec(pix, width, 11, 1, 0x80);
    assert(data.len() == 11 * wb);
    assert((width + 7) / 8 == wb);
    assert(out.len() == data.len());
    assert forall|j: int| 0 <= j < data.len() implies out[j] == data[j] by {
        let col = j / 11;
        let row = j % 11;
        assert(0 <= col < wb && 0 <= row < 11 && col * 11 + row == j) by (nonlinear_arith)
            requires
                0 <= j < 11 * wb,
                col == j / 11,
                row == j % 11,
        ;
        lemma_roundtrip_sample(data, wb, col, row, 0);
        lemma_roundtrip_sample(data, wb, col, row, 1);
        lemma_roundtrip_sample(data, wb, col, row, 2);
        lemma_roundtrip_sample(data, wb, col, row, 3);
        lemma_roundtrip_sample(data, wb, col, row, 4);
        lemma_roundtrip_sample(data, wb, col, row, 5);
        lemma_roundtrip_sample(data, wb, col, row, 6);
        lemma_roundtrip_sample(data, wb, col, row, 7);
        lemma_byte_of_bits(data[j]);
        assert(out[j] == packed_byte_at(pix, width, 1, 0x80, col, row));
    }
    assert(out =~= data);
}

/// An intermediate pixel canvas: one byte per pixel, row-major, nonzero
/// meaning lit.
#[derive(Debug)]
pub struct Canvas {
    pub width: usize,
    pub height: usize,
    pub pixels: Vec<u8>,
}

impl Canvas {
    /// A well-formed canvas holds exactly one byte per pixel.
    pub open spec fn wf(self) -> bool {
        self.pixels@.len() == self.width * self.height
    }

    /// Create an all-unlit canvas.
    pub fn new(width: usize, height: usize) -> (r: Self)
        requires
            width * height <= usize::MAX,
        ensures
            r.wf(),
            r.width == width,
            r.height == height,
            r.pixels@ == Seq::new((width * height) as nat, |i: int| 0u8),
    {
        proof {
            assert(width * height >= 0) by (nonlinear_arith);
        }
        let pixels = vec![0u8; width * height];
        Self { width, height, pixels }
    }
}

/// Convert a canvas into badge raster data.
pub fn canvas2vec(canvas: &Canvas) -> (data: Vec<u8>)
    requires
        canvas.wf(),
        canvas.width + 8 <= usize::MAX,
    ensures
        data@ == packed_data_spec(
            canvas.pixels@,
            canvas.width as int,
            canvas.height as int,
            1,
            1,
        ),
{
    pack_data(&canvas.pixels, canvas.width, canvas.height, 1, 1)
}

/// How many bytes stand for one pixel of a PNG color type code, in the
/// 8-bit palette-expanded buffer the decoder hands back; zero for a code
/// that is no color type.
pub open spec fn channels_of_code(cc: u8) -> int {
    if cc == 0 {
        1
    } else if cc == 2 {
        3
    } else if cc == 3 {
        3
    } else if cc == 4 {
        2
    } else if cc == 6 {
        4
    } else {
        0
    }
}

/// How many bytes stand for one pixel of PNG color type code `cc`.
pub fn channels_of(cc: u8) -> (n: u8)
    ensures
        n as int == channels_of_code(cc),
{
    if cc == 0 {
        1
    } else if cc == 2 {
        3
    } else if cc == 3 {
        3
    } else if cc == 4 {
        2
    } else if cc == 6 {
        4
    } else {
        0
    }
}

/// A decoded PNG image: its header fields and its 8-bit-per-sample pixel
/// buffer, palette already expanded.
#[derive(Debug)]
pub struct PngImage {
    pub width: u32,
    pub height: u32,
    pub bit_depth: u8,
    pub color_code: u8,
    pub pixels: Vec<u8>,
}

/// What decoding a PNG byte stream yields: on success the image's width
/// and height, the bit depth and color type code of the decoder's output
/// (palette already expanded), and the pixel buffer; on failure the
/// decoder's message.
pub uninterp spec fn png_decode_spec(bytes: Seq<u8>) -> Result<
    (u32, u32, u8, u8, Seq<u8>),
    Seq<char>,
>;

/// Relies on png::Decoder / png::Reader (with palette expansion turned on):
/// parses a PNG byte stream into its header fields and its 8-bit-per-sample
/// pixel buffer.  The result depends on the bytes alone.
#[verifier::external_body]
fn png_decode(bytes: &[u8]) -> (r: Result<PngImage, String>)
    ensures
        match r {
            Ok(img) => png_decode_spec(bytes@) == Ok::<(u32, u32, u8, u8, Seq<u8>), Seq<char>>(
                (img.width, img.height, img.bit_depth, img.color_code, img.pixels@),
            ),
            Err(e) => png_decode_spec(bytes@) matches Err(m) && m == e@,
        },
{
    let mut d = png::Decoder::new(std::io::Cursor::new(bytes));
    d.set_transformations(png::Transformations::EXPAND);
    let mut reader = match d.read_info() { Ok(r) => r, Err(e) => return Err(e.to_string()) };
    let (width, height) = (reader.info().width, reader.info().height);
    let (color, depth) = reader.output_color_type();
    let mut pixels = vec![0u8; reader.output_buffer_size().unwrap_or(0)];
    if let Err(e) = reader.next_frame(&mut pixels) { return Err(e.to_string()); }
    Ok(PngImage { width, height, bit_depth: depth as u8, color_code: color as u8, pixels })
}

/// What encoding a grayscale 8-bit pixel buffer of the given size as a PNG
/// byte stream yields; on failure the encoder's message.
pub uninterp spec fn png_encode_spec(pixels: Seq<u8>, width: u32, height: u32) -> Result<
    Seq<u8>,
    Seq<char>,
>;

/// Relies on png::Encoder: writes a grayscale 8-bit pixel buffer as a PNG
/// byte stream.  The result depends on the arguments alone.
#[verifier::external_body]
fn png_encode(pixels: &[u8], width: u32, height: u32) -> (r: Result<Vec<u8>, String>)
    ensures
        match r {
            Ok(b) => png_encode_spec(pixels@, width, height) == Ok::<Seq<u8>, Seq<char>>(b@),
            Err(e) => png_encode_spec(pixels@, width, height) matches Err(m) && m == e@,
        },
{
    let mut out: Vec<u8> = Vec::new();
    let mut enc = png::Encoder::new(&mut out, width, height);
    enc.set_color(png::ColorType::Grayscale);
    enc.set_depth(png::BitDepth::Eight);
    let mut writer = match enc.write_header() {
        Ok(w) => w,
        Err(e) => return Err(e.to_string()),
    };
    if let Err(e) = writer.write_image_data(pixels) {
        return Err(e.to_string());
    }
    if let Err(e) = writer.finish() {
        return Err(e.to_string());
    }
    Ok(out)
}

/// The message of the error returned for a PNG whose bit depth is not 8.
pub open spec fn depth_error_seq() -> Seq<char> {
    "only 8bpp PNG supported"@
}

/// The message of the error returned for a PNG whose height is not 11,
/// stating the required and the actual height.
pub open spec fn height_error_seq(h: u32) -> Seq<char> {
    "height must be 11px, but height is "@ + dec_seq(h as nat)
}

/// The message of the error returned when the decoder's pixel buffer does
/// not hold one sample group per pixel.
pub open spec fn size_error_seq() -> Seq<char> {
    "pixel buffer size mismatch"@
}

/// What reading a PNG byte stream into a badge raster yields, stated over
/// the decoded image: the raster for a supported image, otherwise which
/// error and with which message.
pub open spec fn read_png_result_matches(
    d: Result<(u32, u32, u8, u8, Seq<u8>), Seq<char>>,
    r: Result<Vec<u8>, BadgeImageReadError>,
) -> bool {
    match d {
        Err(m) => r matches Err(BadgeImageReadError::PngDecodeError(s)) && s@ == m,
        Ok((w, h, depth, cc, px)) => {
            if depth != 8 {
                r matches Err(BadgeImageReadError::UnsupportedPngError(s)) && s@
                    == depth_error_seq()
            } else if h != 11 {
                r matches Err(BadgeImageReadError::UnsupportedPngError(s)) && s@
                    == height_error_seq(h)
            } else if channels_of_code(cc) >= 1 && px.len() == w * 11 * channels_of_code(cc) {
                r matches Ok(data) && data@ == packed_data_spec(
                    px,
                    w as int,
                    11,
                    channels_of_code(cc),
                    0x80,
                )
            } else {
                r matches Err(BadgeImageReadError::UnsupportedPngError(s)) && s@
                    == size_error_seq()
            }
        },
    }
}

/// Read a PNG byte stream into badge raster data.
///
/// The PNG must be 8 bits per sample and exactly 11 pixels high; of each
/// pixel only the first sample is read, and a pixel is lit when that sample
/// is at least `0x80`.
pub fn read_png_to_badge_message(png_data: &[u8]) -> (r: Result<Vec<u8>, BadgeImageReadError>)
    ensures
        read_png_result_matches(png_decode_spec(png_data@), r),
{
    let img = match png_decode(png_data) {
        Ok(img) => img,
        Err(e) => {
            return Err(BadgeImageReadError::PngDecodeError(e));
        },
    };
    if img.bit_depth != 8 {
        return Err(BadgeImageReadError::UnsupportedPngError(String::from_str(
            "only 8bpp PNG supported",
        )));
    }
    if img.height != 11 {
        let mut s = String::from_str("height must be 11px, but height is ");
        s.append(u32_to_string(img.height).as_str());
        return Err(BadgeImageReadError::UnsupportedPngError(s));
    }
    let channels = channels_of(img.color_code);
    let expected: u64 = (img.width as u64) * 11 * (channels as u64);
    let n = img.pixels.len();
    if channels == 0 || n as u64 != expected {
        return Err(BadgeImageReadError::UnsupportedPngError(String::from_str(
            "pixel buffer size mismatch",
        )));
    }
    proof {
        assert(img.width * 11 * channels <= usize::MAX);
        assert(img.width <= usize::MAX);
    }
    Ok(pack_data(&img.pixels, img.width as usize, 11, channels as usize, 0x80))
}

/// What exporting a raster as a PNG byte stream yields, stated over the
/// encoder's result on the raster's grayscale image.
pub open spec fn write_png_result_matches(
    data: Seq<u8>,
    r: Result<Vec<u8>, BadgeImageWriteError>,
) -> bool {
    let e = png_encode_spec(
        message_pixels_spec(data),
        (8 * (data.len() as int / 11)) as u32,
        11,
    );
    match r {
        Ok(b) => e == Ok::<Seq<u8>, Seq<char>>(b@),
        Err(BadgeImageWriteError::PngEncodeError(s)) => e matches Err(m) && m == s@,
    }
}

/// Export badge raster data as a grayscale 8-bit PNG byte stream.
///
/// The image is 11 pixels high and `8 * (data.len() / 11)` wide: lit pixels
/// become `0xFF`, unlit ones `0x00`.
pub fn write_badge_message_to_png(message_data: &[u8]) -> (r: Result<
    Vec<u8>,
    BadgeImageWriteError,
>)
    requires
        message_data@.len() % 11 == 0,
        message_data@.len() * 8 <= usize::MAX,
        8 * (message_data@.len() / 11) <= u32::MAX,
    ensures
        write_png_result_matches(message_data@, r),
{
    let pixels = message_to_pixels(message_data);
    let width = 8 * (message_data.len() / 11);
    match png_encode(pixels.as_slice(), width as u32, 11) {
        Ok(b) => Ok(b),
        Err(e) => Err(BadgeImageWriteError::PngEncodeError(e)),
    }
}

/// Import-after-export identity at the function level: if the PNG
/// container's decode inverts its encode on the exported stream — the png
/// crate's own law, which no contract here states — then any result that
/// `read_png_to_badge_message`'s contract allows on that stream is exactly
/// the raster that was exported.
pub proof fn lemma_png_roundtrip(data: Seq<u8>, png: Seq<u8>, r: Result<
    Vec<u8>,
    BadgeImageReadError,
>)
    requires
        data.len() % 11 == 0,
        8 * (data.len() as int / 11) <= u32::MAX,
        png_encode_spec(message_pixels_spec(data), (8 * (data.len() as int / 11)) as u32, 11)
            == Ok::<Seq<u8>, Seq<char>>(png),
        png_decode_spec(png) == Ok::<(u32, u32, u8, u8, Seq<u8>), Seq<char>>(
            ((8 * (data.len() as int / 11)) as u32, 11, 8, 0, message_pixels_spec(data)),
        ),
        read_png_result_matches(png_decode_spec(png), r),
    ensures
        r matches Ok(d) && d@ == data,
{
    let wb = data.len() as int / 11;
    let width = 8 * wb;
    let pix = message_pixels_spec(data);
    assert((width as u32) as int == width);
    assert(channels_of_code(0) == 1);
    assert(pix.len() == width * 11);
    lemma_pixels_roundtrip(data);
}

} // verus!
