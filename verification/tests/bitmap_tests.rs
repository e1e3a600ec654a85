use ledbadge::bitmap::{
    canvas2vec, read_png_to_badge_message, write_badge_message_to_png, Canvas,
    BADGE_MSG_FONT_HEIGHT,
};
use ledbadge::error::{format_io_error_path, u32_to_string, BadgeImageReadError};
use std::io::Cursor;

#[test]
fn test_canvas2vec() {
    let vec = vec![0b10101010, 0b11001100, 0b11110000, 0b11111111];
    let canvas = Canvas {
        pixels: vec![
            1, 0, 1, 0, 1, 0, 1, 0, 1, 1, 1, 1, 0, 0, 0, 0,
            1, 1, 0, 0, 1, 1, 0, 0, 1, 1, 1, 1, 1, 1, 1, 1,
        ],
        width: 16,
        height: 2,
    };
    assert_eq!(canvas2vec(&canvas), vec);

    let vec = vec![
        0b10101010, 0b11001100, 0b11110000, 0b11111111, 0b10000000, 0b10000000,
    ];
    let canvas = Canvas {
        pixels: vec![
            1, 0, 1, 0, 1, 0, 1, 0, 1, 1, 1, 1, 0, 0, 0, 0, 1,
            1, 1, 0, 0, 1, 1, 0, 0, 1, 1, 1, 1, 1, 1, 1, 1, 1,
        ],
        width: 17,
        height: 2,
    };
    assert_eq!(canvas2vec(&canvas), vec);
}

const SAMPLE_DATA: [u8; 22] = [
    0xFF, 0x00, 0xAA, 0x55, 0xFF, 0x00, 0xAA, 0x55, 0xFF, 0x00, 0xAA,
    0x00, 0xAA, 0x55, 0xFF, 0x00, 0xAA, 0x55, 0xFF, 0x00, 0xAA, 0x55,
];

fn sample_pixels() -> Vec<u8> {
    vec![
        0xFF, 0xFF, 0xFF, 0xFF, 0xFF, 0xFF, 0xFF, 0xFF, 0x00, 0x00, 0x00, 0x00, 0x00, 0x00, 0x00, 0x00,
        0x00, 0x00, 0x00, 0x00, 0x00, 0x00, 0x00, 0x00, 0xFF, 0x00, 0xFF, 0x00, 0xFF, 0x00, 0xFF, 0x00,
        0xFF, 0x00, 0xFF, 0x00, 0xFF, 0x00, 0xFF, 0x00, 0x00, 0xFF, 0x00, 0xFF, 0x00, 0xFF, 0x00, 0xFF,
        0x00, 0xFF, 0x00, 0xFF, 0x00, 0xFF, 0x00, 0xFF, 0xFF, 0xFF, 0xFF, 0xFF, 0xFF, 0xFF, 0xFF, 0xFF,
        0xFF, 0xFF, 0xFF, 0xFF, 0xFF, 0xFF, 0xFF, 0xFF, 0x00, 0x00, 0x00, 0x00, 0x00, 0x00, 0x00, 0x00,
        0x00, 0x00, 0x00, 0x00, 0x00, 0x00, 0x00, 0x00, 0xFF, 0x00, 0xFF, 0x00, 0xFF, 0x00, 0xFF, 0x00,
        0xFF, 0x00, 0xFF, 0x00, 0xFF, 0x00, 0xFF, 0x00, 0x00, 0xFF, 0x00, 0xFF, 0x00, 0xFF, 0x00, 0xFF,
        0x00, 0xFF, 0x00, 0xFF, 0x00, 0xFF, 0x00, 0xFF, 0xFF, 0xFF, 0xFF, 0xFF, 0xFF, 0xFF, 0xFF, 0xFF,
        0xFF, 0xFF, 0xFF, 0xFF, 0xFF, 0xFF, 0xFF, 0xFF, 0x00, 0x00, 0x00, 0x00, 0x00, 0x00, 0x00, 0x00,
        0x00, 0x00, 0x00, 0x00, 0x00, 0x00, 0x00, 0x00, 0xFF, 0x00, 0xFF, 0x00, 0xFF, 0x00, 0xFF, 0x00,
        0xFF, 0x00, 0xFF, 0x00, 0xFF, 0x00, 0xFF, 0x00, 0x00, 0xFF, 0x00, 0xFF, 0x00, 0xFF, 0x00, 0xFF,
    ]
}

fn create_png_data(
    width: u32,
    color_type: png::ColorType,
    bit_depth: png::BitDepth,
    data: &[u8],
) -> Vec<u8> {
    let mut png_data = Vec::new();
    {
        let w = Cursor::new(&mut png_data);
        let mut encoder = png::Encoder::new(w, width, BADGE_MSG_FONT_HEIGHT as u32);
        encoder.set_color(color_type);
        encoder.set_depth(bit_depth);
        let mut writer = encoder.write_header().unwrap();
        writer.write_image_data(data).unwrap();
    }
    png_data
}

#[test]
fn test_write_badge_message_to_png() {
    let empty_message_data: &[u8] = &[];
    assert!(write_badge_message_to_png(empty_message_data).is_err());

    let sample_pixels = sample_pixels();

    let png_data = write_badge_message_to_png(&SAMPLE_DATA).unwrap();

    assert_eq!(
        &png_data[0..8],
        &[0x89, 0x50, 0x4E, 0x47, 0x0D, 0x0A, 0x1A, 0x0A]
    );

    let decoder = png::Decoder::new(Cursor::new(&png_data));
    let mut reader = decoder.read_info().unwrap();
    let info = reader.info();
    assert_eq!(
        (info.width, info.height),
        (8 * 2, BADGE_MSG_FONT_HEIGHT as u32)
    );
    assert_eq!(info.bit_depth, png::BitDepth::Eight);
    assert_eq!(info.color_type, png::ColorType::Grayscale);

    let mut png_pixels = vec![0; reader.output_buffer_size().unwrap()];
    reader.next_frame(&mut png_pixels).unwrap();
    assert_eq!(png_pixels, sample_pixels);
}

#[test]
fn test_read_png_to_badge_message() {
    let sample_pixels = sample_pixels();

    let png_data = create_png_data(
        16,
        png::ColorType::Grayscale,
        png::BitDepth::Eight,
        &sample_pixels,
    );
    assert_eq!(
        read_png_to_badge_message(&png_data).unwrap().as_slice(),
        &SAMPLE_DATA
    );

    // Grayscale with an alpha channel
    let sample_pixels_gray_alpha = sample_pixels
        .iter()
        .flat_map(|&v| vec![v, 0xFF])
        .collect::<Vec<u8>>();
    let png_data = create_png_data(
        16,
        png::ColorType::GrayscaleAlpha,
        png::BitDepth::Eight,
        &sample_pixels_gray_alpha,
    );
    assert_eq!(
        read_png_to_badge_message(&png_data).unwrap().as_slice(),
        &SAMPLE_DATA
    );

    // RGB
    let sample_pixels_rgb = sample_pixels
        .iter()
        .flat_map(|&v| vec![v, v, v])
        .collect::<Vec<u8>>();
    let png_data = create_png_data(16, png::ColorType::Rgb, png::BitDepth::Eight, &sample_pixels_rgb);
    assert_eq!(
        read_png_to_badge_message(&png_data).unwrap().as_slice(),
        &SAMPLE_DATA
    );

    // RGBA
    let sample_pixels_rgba = sample_pixels
        .iter()
        .flat_map(|&v| vec![v, v, v, 255])
        .collect::<Vec<u8>>();
    let png_data = create_png_data(
        16,
        png::ColorType::Rgba,
        png::BitDepth::Eight,
        &sample_pixels_rgba,
    );
    assert_eq!(
        read_png_to_badge_message(&png_data).unwrap().as_slice(),
        &SAMPLE_DATA
    );
}

#[test]
fn test_png_roundtrip() {
    // An exported raster read back in is recovered exactly.
    let png_data = write_badge_message_to_png(&SAMPLE_DATA).unwrap();
    let recovered = read_png_to_badge_message(&png_data).unwrap();
    assert_eq!(recovered.as_slice(), &SAMPLE_DATA);
}

#[test]
fn test_png_wrong_height() {
    // A 16x2 grayscale PNG: well-formed, but not 11 pixels high.
    let pixels = vec![0u8; 32];
    let mut png_data = Vec::new();
    {
        let w = Cursor::new(&mut png_data);
        let mut encoder = png::Encoder::new(w, 16, 2);
        encoder.set_color(png::ColorType::Grayscale);
        encoder.set_depth(png::BitDepth::Eight);
        let mut writer = encoder.write_header().unwrap();
        writer.write_image_data(&pixels).unwrap();
    }
    match read_png_to_badge_message(&png_data) {
        Err(BadgeImageReadError::UnsupportedPngError(msg)) => {
            assert_eq!(msg, "height must be 11px, but height is 2");
        }
        other => panic!("expected an unsupported-height error, got {:?}", other),
    }
}

#[test]
fn test_png_wrong_depth() {
    // A 16-bit grayscale PNG is refused.
    let pixels = vec![0u8; 16 * 11 * 2];
    let mut png_data = Vec::new();
    {
        let w = Cursor::new(&mut png_data);
        let mut encoder = png::Encoder::new(w, 16, 11);
        encoder.set_color(png::ColorType::Grayscale);
        encoder.set_depth(png::BitDepth::Sixteen);
        let mut writer = encoder.write_header().unwrap();
        writer.write_image_data(&pixels).unwrap();
    }
    match read_png_to_badge_message(&png_data) {
        Err(BadgeImageReadError::UnsupportedPngError(msg)) => {
            assert_eq!(msg, "only 8bpp PNG supported");
        }
        other => panic!("expected an unsupported-depth error, got {:?}", other),
    }
}

#[test]
fn test_u32_to_string() {
    assert_eq!(u32_to_string(0), "0");
    assert_eq!(u32_to_string(7), "7");
    assert_eq!(u32_to_string(11), "11");
    assert_eq!(u32_to_string(305), "305");
    assert_eq!(u32_to_string(4294967295), "4294967295");
}

#[test]
fn test_format_io_error_path() {
    assert_eq!(format_io_error_path(&None), "");
    assert_eq!(
        format_io_error_path(&Some("a/b.png".to_string())),
        " : a/b.png"
    );
}
