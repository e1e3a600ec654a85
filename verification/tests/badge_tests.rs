use ledbadge::badge::{Badge, N_MESSAGES};
use ledbadge::bitmap::BADGE_MSG_FONT_HEIGHT;
use ledbadge::effect::BadgeEffect;
use ledbadge::error::BadgeError;

#[test]
fn test_badge_new() {
    assert!(matches!(Badge::new(), Ok(_)));
}

#[test]
fn test_add_png_message() {
    let mut badge = Badge::new().unwrap();

    let valid_8x11_png = vec![
        0x89, 0x50, 0x4e, 0x47, 0x0d, 0x0a, 0x1a, 0x0a, 0x00, 0x00, 0x00, 0x0d, 0x49, 0x48, 0x44,
        0x52, 0x00, 0x00, 0x00, 0x08, 0x00, 0x00, 0x00, 0x0b, 0x01, 0x00, 0x00, 0x00, 0x00, 0x6a,
        0xe0, 0xf1, 0x88, 0x00, 0x00, 0x00, 0x0c, 0x49, 0x44, 0x41, 0x54, 0x78, 0xda, 0x63, 0xf8,
        0x8f, 0x0d, 0x02, 0x00, 0x78, 0x9d, 0x0a, 0xf6, 0xc1, 0x81, 0x34, 0x05, 0x00, 0x00, 0x00,
        0x00, 0x49, 0x45, 0x4e, 0x44, 0xae, 0x42, 0x60, 0x82,
    ];
    let corrupted_data = vec![0; 1];

    assert!(matches!(
        badge.add_png_message(N_MESSAGES, &valid_8x11_png),
        Err(BadgeError::MessageNumberOutOfRange(N_MESSAGES))
    ));

    assert!(matches!(
        badge.add_png_message(N_MESSAGES - 1, &corrupted_data),
        Err(BadgeError::PngReadError(None, _))
    ));

    assert!(badge.add_png_message(N_MESSAGES - 1, &valid_8x11_png).is_ok());
    assert_eq!(
        badge.messages[N_MESSAGES - 1].data,
        &[0xff; BADGE_MSG_FONT_HEIGHT]
    );
}

#[test]
fn test_badge_set_effect_pattern() {
    let mut badge = Badge::new().unwrap();

    assert!(matches!(
        badge.set_effect_pattern(N_MESSAGES, BadgeEffect::Left),
        Err(BadgeError::MessageNumberOutOfRange(N_MESSAGES))
    ));

    assert!(matches!(
        badge.set_effect_pattern(N_MESSAGES - 1, BadgeEffect::Laser),
        Ok(())
    ));
    assert_eq!(badge.messages[N_MESSAGES - 1].effect, BadgeEffect::Laser);

    assert!(matches!(
        badge.set_effect_pattern(0, BadgeEffect::Left),
        Ok(())
    ));
    assert_eq!(badge.messages[0].effect, BadgeEffect::Left);
}

#[test]
fn test_badge_set_effect_speed() {
    let mut badge = Badge::new().unwrap();

    assert!(matches!(
        badge.set_effect_speed(N_MESSAGES, 1),
        Err(BadgeError::MessageNumberOutOfRange(N_MESSAGES))
    ));

    assert!(matches!(
        badge.set_effect_speed(0, 0),
        Err(BadgeError::WrongSpeed)
    ));
    assert!(matches!(
        badge.set_effect_speed(0, 9),
        Err(BadgeError::WrongSpeed)
    ));

    assert!(matches!(badge.set_effect_speed(0, 1), Ok(())));
    assert_eq!(badge.messages[0].speed, 1);
    assert!(matches!(badge.set_effect_speed(N_MESSAGES - 1, 8), Ok(())));
    assert_eq!(badge.messages[N_MESSAGES - 1].speed, 8);
}

#[test]
fn test_badge_set_effect_blink() {
    let mut badge = Badge::new().unwrap();

    assert!(matches!(
        badge.set_effect_blink(N_MESSAGES, true),
        Err(BadgeError::MessageNumberOutOfRange(N_MESSAGES))
    ));

    assert!(matches!(
        badge.set_effect_blink(N_MESSAGES - 1, true),
        Ok(())
    ));
    assert_eq!(badge.messages[N_MESSAGES - 1].blink, true);
    assert!(matches!(
        badge.set_effect_blink(N_MESSAGES - 1, false),
        Ok(())
    ));
    assert_eq!(badge.messages[N_MESSAGES - 1].blink, false);
}

#[test]
fn test_badge_set_effect_frame() {
    let mut badge = Badge::new().unwrap();

    assert!(matches!(
        badge.set_effect_frame(N_MESSAGES, true),
        Err(BadgeError::MessageNumberOutOfRange(N_MESSAGES))
    ));

    assert!(matches!(
        badge.set_effect_frame(N_MESSAGES - 1, true),
        Ok(())
    ));
    assert_eq!(badge.messages[N_MESSAGES - 1].frame, true);
    assert!(matches!(
        badge.set_effect_frame(N_MESSAGES - 1, false),
        Ok(())
    ));
    assert_eq!(badge.messages[N_MESSAGES - 1].frame, false);
}

#[test]
fn test_badge_default_brightness() {
    // A fresh badge starts at full in-range brightness.
    let badge = Badge::new().unwrap();
    assert_eq!(badge.brightness, 4);
}

#[test]
fn test_set_brightness_range() {
    let mut badge = Badge::new().unwrap();

    assert!(matches!(
        badge.set_brightness(5),
        Err(BadgeError::WrongBrightness)
    ));

    for br in 0..=4u8 {
        assert!(matches!(badge.set_brightness(br), Ok(())));
        assert_eq!(badge.brightness, br);
    }
}

#[test]
fn test_write_to_png() {
    let mut badge = Badge::new().unwrap();

    assert!(matches!(
        badge.write_to_png(N_MESSAGES),
        Err(BadgeError::MessageNumberOutOfRange(N_MESSAGES))
    ));

    assert!(matches!(
        badge.write_to_png(N_MESSAGES - 1),
        Err(BadgeError::NoDataToWrite)
    ));

    badge.messages[N_MESSAGES - 1].data = vec![0; BADGE_MSG_FONT_HEIGHT];
    let png_data = badge.write_to_png(N_MESSAGES - 1).unwrap();
    assert_eq!(
        &png_data[0..8],
        &[0x89, 0x50, 0x4E, 0x47, 0x0D, 0x0A, 0x1A, 0x0A]
    );
}

#[test]
fn test_add_message_data() {
    let mut badge = Badge::new().unwrap();

    assert!(matches!(
        badge.add_message_data(N_MESSAGES, vec![]),
        Err(BadgeError::MessageNumberOutOfRange(N_MESSAGES))
    ));

    let data = vec![0xAA; BADGE_MSG_FONT_HEIGHT];
    assert!(matches!(badge.add_message_data(2, data.clone()), Ok(())));
    assert_eq!(badge.messages[2].data, data);
    assert!(badge.messages[0].data.is_empty());
}
