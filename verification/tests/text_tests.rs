use ledbadge::text::{render_glyphs, FaceMetrics, GlyphRaster};

#[test]
fn test_render_glyphs() {
    // One 3x2-pixel glyph, anchored four rows down: with height 11,
    // descender -2 rows and vertical bearing 5 rows, the glyph's top row is
    // (11*64 - 128 - 320) / 64 = 4.
    let glyph = GlyphRaster {
        buffer: vec![0b10100000, 0b01000000],
        pitch: 1,
        rows: 2,
        hori_bearing_x: 0,
        hori_bearing_y: 5 * 64,
        advance_x: 8 * 64,
    };
    let metrics = FaceMetrics {
        ascender: 9 * 64,
        descender: -2 * 64,
    };
    let data = render_glyphs(&vec![glyph], &metrics, 11);
    assert_eq!(data.len(), 11);
    let mut expected = vec![0u8; 11];
    expected[4] = 0b10100000;
    expected[5] = 0b01000000;
    assert_eq!(data, expected);
}

#[test]
fn test_render_glyphs_no_ascender() {
    // A face without an ascender anchors every glyph at row zero.
    let glyph = GlyphRaster {
        buffer: vec![0b11000000],
        pitch: 1,
        rows: 1,
        hori_bearing_x: 64,
        hori_bearing_y: 0,
        advance_x: 4 * 64,
    };
    let metrics = FaceMetrics {
        ascender: 0,
        descender: 0,
    };
    // Two glyphs: the second starts at pen column 4, its bitmap at column 5.
    let second = GlyphRaster {
        buffer: glyph.buffer.clone(),
        pitch: glyph.pitch,
        rows: glyph.rows,
        hori_bearing_x: glyph.hori_bearing_x,
        hori_bearing_y: glyph.hori_bearing_y,
        advance_x: glyph.advance_x,
    };
    let glyphs = vec![glyph, second];
    let data = render_glyphs(&glyphs, &metrics, 11);
    // Width 8: one byte column of 11 rows.
    assert_eq!(data.len(), 11);
    // Row 0: pixels 1, 2 (first glyph) and 5, 6 (second glyph).
    assert_eq!(data[0], 0b01100110);
    assert_eq!(&data[1..], &[0u8; 10]);
}

#[test]
fn test_render_glyphs_clipped() {
    // Pixels right of the summed advances are dropped.
    let glyph = GlyphRaster {
        buffer: vec![0b11111111],
        pitch: 1,
        rows: 1,
        hori_bearing_x: 0,
        hori_bearing_y: 0,
        advance_x: 4 * 64,
    };
    let metrics = FaceMetrics {
        ascender: 0,
        descender: 0,
    };
    let data = render_glyphs(&vec![glyph], &metrics, 11);
    // Width 4: one byte column; only the glyph's first four pixels fit.
    assert_eq!(data.len(), 11);
    assert_eq!(data[0], 0b11110000);
}

#[test]
fn test_render_glyphs_empty() {
    let metrics = FaceMetrics {
        ascender: 9 * 64,
        descender: -2 * 64,
    };
    let data = render_glyphs(&vec![], &metrics, 11);
    assert_eq!(data.len(), 0);
}
