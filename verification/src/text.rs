//! Glyph compositing: laying rasterized glyphs out on a pixel canvas and
//! packing the canvas into badge raster data.
//!
//! Rasterizing a character is the glyph collaborator's job; this module
//! takes its plain outputs (a monochrome bitmap, bearings and an advance,
//! all in the rasterizer's 26.6 fixed-point units where applicable) and
//! does the layout: glyphs advance a pen left to right, each one drawn at
//! its bearing with its rows anchored so that the descent fits under the
//! canvas, and every pixel falling outside the canvas is dropped.

use crate::bitmap::canvas2vec;
use crate::bitmap::mask_of;
use crate::bitmap::packed_data_spec;
use crate::bitmap::Canvas;
use vstd::prelude::*;

verus! {

/// One rasterized glyph, as the glyph collaborator reports it.
#[derive(Debug)]
pub struct GlyphRaster {
    /// Monochrome bitmap: `pitch` bytes per row, most significant bit the
    /// leftmost pixel of each byte.
    pub buffer: Vec<u8>,
    /// Bytes per bitmap row.
    pub pitch: usize,
    /// Bitmap rows.
    pub rows: usize,
    /// Horizontal bearing, 26.6 fixed point.
    pub hori_bearing_x: i64,
    /// Vertical bearing, 26.6 fixed point.
    pub hori_bearing_y: i64,
    /// Pen advance, 26.6 fixed point.
    pub advance_x: i64,
}

impl GlyphRaster {
    /// A well-formed glyph holds exactly `pitch` bytes per bitmap row, its
    /// advance is nonnegative, and its dimensions and metrics stay inside
    /// the rasterizer's own integer ranges.
    pub open spec fn wf(self) -> bool {
        &&& self.buffer@.len() == self.pitch * self.rows
        &&& self.pitch <= 0x0FFF_FFFF
        &&& self.rows <= 0x7FFF_FFFF
        &&& 0 <= self.advance_x <= 0xFFFF_FFFF
        &&& -0xFFFF_FFFF <= self.hori_bearing_x <= 0xFFFF_FFFF
        &&& -0xFFFF_FFFF <= self.hori_bearing_y <= 0xFFFF_FFFF
    }
}

/// The face-wide vertical metrics the layout reads, 26.6 fixed point.
#[derive(Debug)]
pub struct FaceMetrics {
    pub ascender: i64,
    pub descender: i64,
}

impl FaceMetrics {
    /// Metrics within the rasterizer's integer ranges.
    pub open spec fn wf(self) -> bool {
        -0xFFFF_FFFF <= self.ascender <= 0xFFFF_FFFF && -0xFFFF_FFFF <= self.descender
            <= 0xFFFF_FFFF
    }
}

/// Whether bitmap pixel `(xg, q)` of glyph `g` is set.
pub open spec fn glyph_bit(g: GlyphRaster, xg: int, q: int) -> bool {
    g.buffer@[q * g.pitch + xg / 8] & mask_of(xg % 8) != 0
}

/// The canvas row at which glyph `g`'s bitmap starts: the glyph's top,
/// anchored so the face's descent fits below the canvas, or row zero when
/// the face reports no ascender.
pub open spec fn pen_y_px(m: FaceMetrics, g: GlyphRaster, h: int) -> int {
    if m.ascender == 0 {
        0
    } else {
        (h * 64 + m.descender - g.hori_bearing_y) / 64
    }
}

/// Whether glyph `g`'s pixels can be drawn at all: its bearing does not
/// reach left of the pen, and its top row does not rise above the canvas.
pub open spec fn glyph_drawable(m: FaceMetrics, g: GlyphRaster, h: int) -> bool {
    g.hori_bearing_x >= 0 && (m.ascender == 0 || h * 64 + m.descender - g.hori_bearing_y >= 0)
}

/// Whether bitmap pixel `(xg, q)` of glyph `g`, drawn with the pen at
/// column `pen`, lands lit on canvas position `(x, y)`.
pub open spec fn placed_at(
    m: FaceMetrics,
    g: GlyphRaster,
    h: int,
    w: int,
    pen: int,
    xg: int,
    q: int,
    x: int,
    y: int,
) -> bool {
    &&& 0 <= xg < 8 * g.pitch
    &&& 0 <= q < g.rows
    &&& glyph_drawable(m, g, h)
    &&& glyph_bit(g, xg, q)
    &&& x == pen + g.hori_bearing_x / 64 + xg
    &&& y == pen_y_px(m, g, h) + q
    &&& 0 <= x < w
    &&& 0 <= y < h
}

/// Whether glyph `g`, drawn with the pen at column `pen`, lights canvas
/// position `(x, y)`.
pub open spec fn placed(
    m: FaceMetrics,
    g: GlyphRaster,
    h: int,
    w: int,
    pen: int,
    x: int,
    y: int,
) -> bool {
    exists|xg: int, q: int| placed_at(m, g, h, w, pen, xg, q, x, y)
}

/// The pixels of glyph `g` already visited when the drawing loops stand at
/// row `q`, column `xg`: full rows before `q` and row `q` up to `xg`.
pub open spec fn placed_before(
    m: FaceMetrics,
    g: GlyphRaster,
    h: int,
    w: int,
    pen: int,
    q: int,
    xg: int,
    x: int,
    y: int,
) -> bool {
    (exists|xg2: int, q2: int| q2 < q && placed_at(m, g, h, w, pen, xg2, q2, x, y)) || (exists|xg2: int|
        xg2 < xg && placed_at(m, g, h, w, pen, xg2, q, x, y))
}

/// The pen position (in pixels) in front of glyph `n`: the pixel advances
/// of all earlier glyphs, summed.
pub open spec fn advance_px_sum(glyphs: Seq<GlyphRaster>, n: int) -> int
    decreases n,
{
    if n <= 0 {
        0
    } else {
        advance_px_sum(glyphs, n - 1) + glyphs[n - 1].advance_x as int / 64
    }
}

/// Whether any of the first `n` glyphs lights canvas position `(x, y)`.
pub open spec fn composed(
    glyphs: Seq<GlyphRaster>,
    m: FaceMetrics,
    h: int,
    w: int,
    n: int,
    x: int,
    y: int,
) -> bool
    decreases n,
{
    n > 0 && (composed(glyphs, m, h, w, n - 1, x, y) || placed(
        m,
        glyphs[n - 1],
        h,
        w,
        advance_px_sum(glyphs, n - 1),
        x,
        y,
    ))
}

/// The canvas that laying out all the glyphs produces, as pixel bytes:
/// width the summed advances, height `h`, a one for each lit pixel.
pub open spec fn composed_pixels(glyphs: Seq<GlyphRaster>, m: FaceMetrics, h: int) -> Seq<u8> {
    let w = advance_px_sum(glyphs, glyphs.len() as int);
    Seq::new(
        (w * h) as nat,
        |idx: int|
            if composed(glyphs, m, h, w, glyphs.len() as int, idx % w, idx / w) {
                1u8
            } else {
                0u8
            },
    )
}

/// Pen positions are sums of nonnegative advances.
proof fn lemma_advance_nonneg(glyphs: Seq<GlyphRaster>, n: int)
    requires
        0 <= n,
        forall|t: int| 0 <= t < n ==> (#[trigger] glyphs[t]).advance_x >= 0,
    ensures
        advance_px_sum(glyphs, n) >= 0,
    decreases n,
{
    if n > 0 {
        lemma_advance_nonneg(glyphs, n - 1);
    }
}

/// Every pen position stays within the summed advances.
proof fn lemma_advance_le_total(glyphs: Seq<GlyphRaster>, n: int, total: int)
    requires
        0 <= n <= total <= glyphs.len(),
        forall|t: int| 0 <= t < total ==> (#[trigger] glyphs[t]).advance_x >= 0,
    ensures
        advance_px_sum(glyphs, n) <= advance_px_sum(glyphs, total),
    decreases total - n,
{
    if n < total {
        lemma_advance_le_total(glyphs, n + 1, total);
    }
}

/// Draw one glyph onto the canvas with the pen at column `pen`: every lit
/// and in-bounds bitmap pixel becomes a one, nothing else changes.
fn compose_glyph(canvas: &mut Canvas, m: &FaceMetrics, g: &GlyphRaster, pen: usize)
    requires
        old(canvas).wf(),
        m.wf(),
        g.wf(),
        old(canvas).width <= 0xFFFF_FFFF,
        old(canvas).height <= 0x7FFF,
        pen <= old(canvas).width,
    ensures
        final(canvas).wf(),
        final(canvas).width == old(canvas).width,
        final(canvas).height == old(canvas).height,
        final(canvas).pixels@.len() == old(canvas).pixels@.len(),
        forall|idx: int|
            0 <= idx < old(canvas).pixels@.len() ==> #[trigger] final(canvas).pixels@[idx] == (
            if placed(
                *m,
                *g,
                old(canvas).height as int,
                old(canvas).width as int,
                pen as int,
                idx % (old(canvas).width as int),
                idx / (old(canvas).width as int),
            ) {
                1u8
            } else {
                old(canvas).pixels@[idx]
            }),
{
    let w = canvas.width;
    let h = canvas.height;
    let plen = canvas.pixels.len();
    let blen = g.buffer.len();
    let ghost base = canvas.pixels@;
    let ghost hh = h as int;
    let ghost ww = w as int;
    if g.hori_bearing_x < 0 {
        proof {
            assert(forall|x: int, y: int| !placed(*m, *g, hh, ww, pen as int, x, y));
        }
        return ;
    }
    let py: u64 = if m.ascender == 0 {
        0
    } else {
        let ft: i64 = (h as i64) * 64 + m.descender - g.hori_bearing_y;
        if ft < 0 {
            proof {
                assert(forall|x: int, y: int| !placed(*m, *g, hh, ww, pen as int, x, y));
            }
            return ;
        }
        (ft as u64) / 64
    };
    proof {
        assert(py == pen_y_px(*m, *g, hh));
        assert(glyph_drawable(*m, *g, hh));
    }
    let bx: u64 = (g.hori_bearing_x as u64) / 64;
    let cols = 8 * g.pitch;
    let mut q: usize = 0;
    while q < g.rows
        invariant
            canvas.wf(),
            m.wf(),
            g.wf(),
            canvas.width == w,
            canvas.height == h,
            w <= 0xFFFF_FFFF,
            h <= 0x7FFF,
            pen <= w,
            q <= g.rows,
            cols == 8 * g.pitch,
            base.len() == canvas.pixels@.len(),
            canvas.pixels@.len() == plen,
            g.buffer@.len() == blen,
            glyph_drawable(*m, *g, h as int),
            py == pen_y_px(*m, *g, h as int),
            py <= 0x1_0000_0000,
            bx == g.hori_bearing_x as int / 64,
            forall|x: int, y: int|
                0 <= x < w && 0 <= y < h ==> #[trigger] canvas.pixels@[y * w + x] == (
                if placed_before(*m, *g, h as int, w as int, pen as int, q as int, 0, x, y) {
                    1u8
                } else {
                    base[y * w + x]
                }),
        decreases g.rows - q,
    {
        let mut xg: usize = 0;
        while xg < cols
            invariant
                canvas.wf(),
                m.wf(),
                g.wf(),
                canvas.width == w,
                canvas.height == h,
                w <= 0xFFFF_FFFF,
                h <= 0x7FFF,
                pen <= w,
                q < g.rows,
                xg <= cols,
                cols == 8 * g.pitch,
                base.len() == canvas.pixels@.len(),
                canvas.pixels@.len() == plen,
                g.buffer@.len() == blen,
                glyph_drawable(*m, *g, h as int),
                py == pen_y_px(*m, *g, h as int),
                py <= 0x1_0000_0000,
                bx == g.hori_bearing_x as int / 64,
                forall|x: int, y: int|
                    0 <= x < w && 0 <= y < h ==> #[trigger] canvas.pixels@[y * w + x] == (
                    if placed_before(
                        *m,
                        *g,
                        h as int,
                        w as int,
                        pen as int,
                        q as int,
                        xg as int,
                        x,
                        y,
                    ) {
                        1u8
                    } else {
                        base[y * w + x]
                    }),
            decreases cols - xg,
        {
            let ghost pixels_before = canvas.pixels@;
            proof {
                assert(q * g.pitch + xg / 8 < g.buffer@.len()) by (nonlinear_arith)
                    requires
                        0 <= q < g.rows,
                        0 <= xg < 8 * g.pitch,
                        g.buffer@.len() == g.pitch * g.rows,
                ;
            }
            let b = g.buffer[q * g.pitch + xg / 8];
            let lit = b & crate::bitmap::mask_at(xg % 8) != 0;
            let x64: u64 = (pen as u64) + bx + (xg as u64);
            let y64: u64 = py + (q as u64);
            if lit && x64 < (w as u64) && y64 < (h as u64) {
                let x = x64 as usize;
                let y = y64 as usize;
                proof {
                    assert(y * w + x < h * w) by (nonlinear_arith)
                        requires
                            0 <= x < w,
                            0 <= y < h,
                    ;
                    assert(h * w == w * h) by (nonlinear_arith);
                    assert(placed_at(
                        *m,
                        *g,
                        h as int,
                        w as int,
                        pen as int,
                        xg as int,
                        q as int,
                        x as int,
                        y as int,
                    ));
                }
                canvas.pixels[y * w + x] = 1;
            }
            proof {
                let hi = h as int;
                let wi = w as int;
                let peni = pen as int;
                let qi = q as int;
                let xgi = xg as int;
                assert forall|x: int, y: int| 0 <= x < w && 0 <= y < h implies #[trigger] canvas
                    .pixels@[y * w + x] == (if placed_before(
                    *m,
                    *g,
                    hi,
                    wi,
                    peni,
                    qi,
                    xgi + 1,
                    x,
                    y,
                ) {
                    1u8
                } else {
                    base[y * w + x]
                }) by {
                    assert(0 <= y * wi + x < wi * hi) by (nonlinear_arith)
                        requires
                            0 <= x < wi,
                            0 <= y < hi,
                    ;
                    assert(pixels_before.len() == wi * hi) by {
                        assert(wi * hi == hi * wi) by (nonlinear_arith);
                    }
                    if placed_at(*m, *g, hi, wi, peni, xgi, qi, x, y) {
                        // `(x, y)` is exactly the position this step wrote.
                        assert(x == peni + g.hori_bearing_x / 64 + xgi);
                        assert(y == pen_y_px(*m, *g, hi) + qi);
                        assert(canvas.pixels@[y * w + x] == 1);
                        assert(placed_before(*m, *g, hi, wi, peni, qi, xgi + 1, x, y));
                    } else {
                        // This step wrote nothing at `(x, y)`.
                        if lit && x64 < (w as u64) && y64 < (h as u64) {
                            let xi = x64 as int;
                            let yi = y64 as int;
                            assert(placed_at(*m, *g, hi, wi, peni, xgi, qi, xi, yi));
                            assert(x != xi || y != yi);
                            assert(y * wi + x != yi * wi + xi) by (nonlinear_arith)
                                requires
                                    0 <= x < wi,
                                    0 <= xi < wi,
                                    x != xi || y != yi,
                            ;
                        }
                        assert(canvas.pixels@[y * w + x] == pixels_before[y * w + x]);
                        assert(placed_before(*m, *g, hi, wi, peni, qi, xgi + 1, x, y)
                            == placed_before(*m, *g, hi, wi, peni, qi, xgi, x, y)) by {
                            if placed_before(*m, *g, hi, wi, peni, qi, xgi + 1, x, y) {
                                if exists|xg2: int|
                                    xg2 < xgi + 1 && placed_at(
                                        *m,
                                        *g,
                                        hi,
                                        wi,
                                        peni,
                                        xg2,
                                        qi,
                                        x,
                                        y,
                                    ) {
                                    let xg2 = choose|xg2: int|
                                        xg2 < xgi + 1 && placed_at(
                                            *m,
                                            *g,
                                            hi,
                                            wi,
                                            peni,
                                            xg2,
                                            qi,
                                            x,
                                            y,
                                        );
                                    assert(xg2 < xgi);
                                }
                            }
                        }
                    }
                }
            }
            xg = xg + 1;
        }
        proof {
            let hi = h as int;
            let wi = w as int;
            let peni = pen as int;
            let qi = q as int;
            assert forall|x: int, y: int| 0 <= x < w && 0 <= y < h implies placed_before(
                *m,
                *g,
                hi,
                wi,
                peni,
                qi + 1,
                0,
                x,
                y,
            ) == placed_before(*m, *g, hi, wi, peni, qi, cols as int, x, y) by {
                if placed_before(*m, *g, hi, wi, peni, qi + 1, 0, x, y) {
                    let (xg2, q2) = choose|xg2: int, q2: int|
                        q2 < qi + 1 && placed_at(*m, *g, hi, wi, peni, xg2, q2, x, y);
                    if q2 == qi {
                        assert(xg2 < cols && placed_at(*m, *g, hi, wi, peni, xg2, qi, x, y));
                    }
                }
            }
        }
        q = q + 1;
    }
    proof {
        let hi = h as int;
        let wi = w as int;
        let peni = pen as int;
        assert forall|x: int, y: int| 0 <= x < w && 0 <= y < h implies placed(
            *m,
            *g,
            hi,
            wi,
            peni,
            x,
            y,
        ) == placed_before(*m, *g, hi, wi, peni, g.rows as int, 0, x, y) by {
            if placed(*m, *g, hi, wi, peni, x, y) {
                let (xg2, q2) = choose|xg2: int, q2: int|
                    placed_at(*m, *g, hi, wi, peni, xg2, q2, x, y);
                assert(q2 < g.rows);
            }
        }
        assert forall|idx: int| 0 <= idx < base.len() implies #[trigger] canvas.pixels@[idx] == (
        if placed(*m, *g, hi, wi, peni, idx % wi, idx / wi) {
            1u8
        } else {
            base[idx]
        }) by {
            let x = idx % wi;
            let y = idx / wi;
            assert(wi >= 1) by (nonlinear_arith)
                requires
                    0 <= idx < wi * hi,
                    0 <= wi,
            ;
            vstd::arithmetic::div_mod::lemma_fundamental_div_mod(idx, wi);
            vstd::arithmetic::div_mod::lemma_mod_division_less_than_divisor(idx, wi);
            assert(0 <= y < hi && idx == y * wi + x) by (nonlinear_arith)
                requires
                    0 <= idx < wi * hi,
                    wi >= 1,
                    0 <= x < wi,
                    idx == wi * y + x,
            ;
            assert(canvas.pixels@[y * w + x] == (if placed_before(
                *m,
                *g,
                hi,
                wi,
                peni,
                g.rows as int,
                0,
                x,
                y,
            ) {
                1u8
            } else {
                base[y * w + x]
            }));
        }
    }
}

/// Lay out a sequence of glyphs and pack the result into badge raster
/// data, `pixel_height` rows high and as wide as the advances sum to.
pub fn render_glyphs(glyphs: &Vec<GlyphRaster>, metrics: &FaceMetrics, pixel_height: usize) -> (r:
    Vec<u8>)
    requires
        metrics.wf(),
        forall|t: int| 0 <= t < glyphs@.len() ==> (#[trigger] glyphs@[t]).wf(),
        1 <= pixel_height <= 0x7FFF,
        advance_px_sum(glyphs@, glyphs@.len() as int) <= 0xFFFF_FFFF,
        advance_px_sum(glyphs@, glyphs@.len() as int) + 8 <= usize::MAX,
        advance_px_sum(glyphs@, glyphs@.len() as int) * pixel_height <= usize::MAX,
    ensures
        r@ == packed_data_spec(
            composed_pixels(glyphs@, *metrics, pixel_height as int),
            advance_px_sum(glyphs@, glyphs@.len() as int),
            pixel_height as int,
            1,
            1,
        ),
{
    let n = glyphs.len();
    let ghost total = advance_px_sum(glyphs@, glyphs@.len() as int);
    let mut width: usize = 0;
    let mut t: usize = 0;
    while t < n
        invariant
            n == glyphs@.len(),
            forall|u: int| 0 <= u < n ==> (#[trigger] glyphs@[u]).wf(),
            t <= n,
            total == advance_px_sum(glyphs@, n as int),
            total <= 0xFFFF_FFFF,
            width as int == advance_px_sum(glyphs@, t as int),
        decreases n - t,
    {
        proof {
            lemma_advance_le_total(glyphs@, t as int + 1, n as int);
            lemma_advance_nonneg(glyphs@, t as int + 1);
            lemma_advance_nonneg(glyphs@, t as int);
        }
        let adv = (glyphs[t].advance_x as u64) / 64;
        width = width + (adv as usize);
        t = t + 1;
    }
    proof {
        assert(width * pixel_height <= usize::MAX);
    }
    let mut canvas = Canvas::new(width, pixel_height);
    let ghost hh = pixel_height as int;
    let ghost ww = width as int;
    proof {
        assert forall|x: int, y: int|
            0 <= x < width && 0 <= y < pixel_height implies #[trigger] canvas.pixels@[y * width
            + x] == 0u8 by {
            assert(0 <= y * width + x < width * pixel_height) by (nonlinear_arith)
                requires
                    0 <= x < width,
                    0 <= y < pixel_height,
            ;
        }
    }
    let mut pen: usize = 0;
    let mut t: usize = 0;
    while t < n
        invariant
            n == glyphs@.len(),
            metrics.wf(),
            forall|u: int| 0 <= u < n ==> (#[trigger] glyphs@[u]).wf(),
            t <= n,
            total == advance_px_sum(glyphs@, n as int),
            total <= 0xFFFF_FFFF,
            width as int == total,
            ww == width as int,
            hh == pixel_height as int,
            1 <= pixel_height <= 0x7FFF,
            canvas.wf(),
            canvas.width == width,
            canvas.height == pixel_height,
            pen as int == advance_px_sum(glyphs@, t as int),
            forall|x: int, y: int|
                0 <= x < width && 0 <= y < pixel_height ==> #[trigger] canvas.pixels@[y * width
                    + x] == (if composed(glyphs@, *metrics, hh, ww, t as int, x, y) {
                    1u8
                } else {
                    0u8
                }),
        decreases n - t,
    {
        proof {
            lemma_advance_le_total(glyphs@, t as int + 1, n as int);
            lemma_advance_nonneg(glyphs@, t as int + 1);
            lemma_advance_nonneg(glyphs@, t as int);
        }
        let ghost before = canvas.pixels@;
        proof {
            assert(forall|x: int, y: int|
                0 <= x < width && 0 <= y < pixel_height ==> #[trigger] before[y * width + x] == (
                if composed(glyphs@, *metrics, hh, ww, t as int, x, y) {
                    1u8
                } else {
                    0u8
                }));
        }
        compose_glyph(&mut canvas, metrics, &glyphs[t], pen);
        proof {
            assert forall|x: int, y: int| 0 <= x < width && 0 <= y < pixel_height implies
                #[trigger] canvas.pixels@[y * width + x] == (if composed(
                glyphs@,
                *metrics,
                hh,
                ww,
                t as int + 1,
                x,
                y,
            ) {
                1u8
            } else {
                0u8
            }) by {
                assert(before[y * width + x] == (if composed(glyphs@, *metrics, hh, ww, t as int, x, y) {
                    1u8
                } else {
                    0u8
                }));
                let idx = y * width + x;
                assert(0 <= idx < ww * hh && idx % ww == x && idx / ww == y) by (nonlinear_arith)
                    requires
                        0 <= x < ww,
                        0 <= y < hh,
                        idx == y * ww + x,
                ;
                assert(canvas.pixels@[idx] == (if placed(
                    *metrics,
                    glyphs@[t as int],
                    hh,
                    ww,
                    pen as int,
                    idx % ww,
                    idx / ww,
                ) {
                    1u8
                } else {
                    before[idx]
                }));
                assert(composed(glyphs@, *metrics, hh, ww, t as int + 1, x, y) == (composed(
                    glyphs@,
                    *metrics,
                    hh,
                    ww,
                    t as int,
                    x,
                    y,
                ) || placed(
                    *metrics,
                    glyphs@[t as int],
                    hh,
                    ww,
                    advance_px_sum(glyphs@, t as int),
                    x,
                    y,
                )));
            }
        }
        let adv = (glyphs[t].advance_x as u64) / 64;
        pen = pen + (adv as usize);
        t = t + 1;
    }
    proof {
        assert(canvas.pixels@ =~= composed_pixels(glyphs@, *metrics, hh)) by {
            assert forall|idx: int| 0 <= idx < ww * hh implies canvas.pixels@[idx]
                == composed_pixels(glyphs@, *metrics, hh)[idx] by {
                let x = idx % ww;
                let y = idx / ww;
                assert(0 <= x < ww && 0 <= y < hh && idx == y * ww + x) by (nonlinear_arith)
                    requires
                        0 <= idx < ww * hh,
                        ww >= 1 || idx < 0,
                        x == idx % ww,
                        y == idx / ww,
                ;
            }
        }
    }
    canvas2vec(&canvas)
}

} // verus!
