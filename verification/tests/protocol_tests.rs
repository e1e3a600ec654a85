use ledbadge::b1248::{b1248_frames, BadgeMessageConfiguration};
use ledbadge::badge::{Badge, N_MESSAGES};
use ledbadge::bitmap::BADGE_MSG_FONT_HEIGHT;
use ledbadge::effect::BadgeEffect;
use ledbadge::s1144::{chunk, s1144_frames, BadgeHeader};

#[test]
fn test_badge_header_set_effect_pattern() {
    let mut header: BadgeHeader = Default::default();

    header.set_effect_pattern(N_MESSAGES - 1, BadgeEffect::Laser);
    assert_eq!(
        header.line_conf[N_MESSAGES - 1] & 0x0f,
        BadgeEffect::Laser as u8
    );

    header.set_effect_pattern(0, BadgeEffect::Left);
    assert_eq!(header.line_conf[0] & 0x0f, BadgeEffect::Left as u8);
}

#[test]
fn test_badge_header_set_effect_speed() {
    let mut header: BadgeHeader = Default::default();

    header.set_effect_speed(0, 1);
    assert_eq!(header.line_conf[0] & 0xf0, 0 << 4);
    header.set_effect_speed(N_MESSAGES - 1, 8);
    assert_eq!(header.line_conf[N_MESSAGES - 1] & 0xf0, 7 << 4);
}

#[test]
fn test_badge_header_set_effect_blink() {
    let mut header: BadgeHeader = Default::default();

    header.set_effect_blink(N_MESSAGES - 1, true);
    assert_eq!(
        header.flash & (1 << (N_MESSAGES as u8 - 1)),
        (1 << (N_MESSAGES as u8 - 1))
    );
    header.set_effect_blink(N_MESSAGES - 1, false);
    assert_eq!(
        header.flash & (1 << (N_MESSAGES as u8 - 1)),
        (0 << (N_MESSAGES as u8 - 1))
    );
}

#[test]
fn test_badge_header_set_effect_frame() {
    let mut header: BadgeHeader = Default::default();

    header.set_effect_frame(N_MESSAGES - 1, true);
    assert_eq!(
        header.border & (1 << (N_MESSAGES as u8 - 1)),
        (1 << (N_MESSAGES as u8 - 1))
    );
    header.set_effect_frame(N_MESSAGES - 1, false);
    assert_eq!(
        header.border & (1 << (N_MESSAGES as u8 - 1)),
        (0 << (N_MESSAGES as u8 - 1))
    );
}

#[test]
fn test_badge_message_configuration_load() {
    let mut msg_config = BadgeMessageConfiguration::default();

    let mut badge = Badge::new().unwrap();
    for i in 0..N_MESSAGES {
        badge
            .set_effect_pattern(
                i,
                BadgeEffect::try_from((N_MESSAGES - i - 1) as u8).unwrap(),
            )
            .unwrap();
        badge.set_effect_blink(i, true).unwrap();
        badge.set_effect_speed(i, (i + 1) as u8).unwrap();
        badge.set_effect_frame(i, true).unwrap();

        badge.messages[i]
            .data
            .extend_from_slice(&[i as u8; BADGE_MSG_FONT_HEIGHT]);
    }
    msg_config.load(&badge);
    assert_eq!(
        msg_config.effect,
        [0x8F, 0x9E, 0xAD, 0xBC, 0xCB, 0xDA, 0xE9, 0xF8]
    );
    for i in 0..N_MESSAGES {
        assert_eq!(msg_config.offset_length[i].header, 0x08);
        assert_eq!(msg_config.offset_length[i].offset, i as u8);
        assert_eq!(msg_config.offset_length[i].length, 1);
    }
}

#[test]
fn test_chunk() {
    // An empty payload yields no frames.
    let frames = chunk(&[]);
    assert_eq!(frames.len(), 0);

    // 65 payload bytes yield two frames; the second holds one real byte
    // followed by 64 bytes of zero padding.
    let payload: Vec<u8> = (1..=65u8).collect();
    let frames = chunk(&payload);
    assert_eq!(frames.len(), 2);
    assert_eq!(frames[0].len(), 65);
    assert_eq!(frames[1].len(), 65);
    assert_eq!(frames[0][0], 0);
    assert_eq!(&frames[0][1..65], &payload[0..64]);
    assert_eq!(frames[1][0], 0);
    assert_eq!(frames[1][1], 65);
    assert_eq!(&frames[1][2..65], &[0u8; 63]);
}

#[test]
fn test_s1144_frames() {
    let mut badge = Badge::new().unwrap();
    badge.set_brightness(4).unwrap();
    badge.set_effect_speed(0, 8).unwrap();
    badge.set_effect_pattern(7, BadgeEffect::Laser).unwrap();
    badge.set_effect_blink(7, true).unwrap();
    badge.set_effect_frame(7, true).unwrap();
    badge.messages[0].data = vec![0xAA; BADGE_MSG_FONT_HEIGHT];

    let frames = s1144_frames(&badge);
    // One header frame plus one payload frame for the 11 payload bytes.
    assert_eq!(frames.len(), 2);
    let header = &frames[0];
    assert_eq!(header.len(), 65);
    assert_eq!(header[0], 0x00);
    assert_eq!(&header[1..6], &[0x77, 0x61, 0x6e, 0x67, 0x00]);
    assert_eq!(header[6], 4 << 4); // brightness
    assert_eq!(header[7], 0x80); // flash: slot 7 blinks
    assert_eq!(header[8], 0x80); // border: slot 7 framed
    assert_eq!(header[9], 0x70); // slot 0: speed 8, effect Left
    // slots 1..7 still have the unset speed 0 and effect Left
    for i in 1..7 {
        assert_eq!(header[9 + i], 0xF0);
    }
    assert_eq!(header[16], 0xF8); // slot 7: unset speed, effect Laser
    // big-endian byte-column counts: slot 0 has one column
    assert_eq!(&header[17..19], &[0x00, 0x01]);
    assert_eq!(&header[19..33], &[0u8; 14]);
    assert_eq!(&header[33..65], &[0u8; 32]);

    let payload = &frames[1];
    assert_eq!(payload.len(), 65);
    assert_eq!(payload[0], 0x00);
    assert_eq!(&payload[1..12], &[0xAA; 11]);
    assert_eq!(&payload[12..65], &[0u8; 53]);
}

#[test]
fn test_s1144_frames_empty() {
    // An empty badge yields no payload frames: the header frame alone.
    let badge = Badge::new().unwrap();
    let frames = s1144_frames(&badge);
    assert_eq!(frames.len(), 1);
    let header = &frames[0];
    assert_eq!(header.len(), 65);
    assert_eq!(header[0], 0x00);
    assert_eq!(&header[1..6], &[0x77, 0x61, 0x6e, 0x67, 0x00]);
    assert_eq!(header[6], 4 << 4); // the default brightness
    assert_eq!(&header[17..33], &[0u8; 16]); // all byte-column counts zero
}

#[test]
fn test_b1248_frames() {
    let mut badge = Badge::new().unwrap();
    badge.set_effect_speed(0, 1).unwrap();
    let data: Vec<u8> = (1..=11u8).collect();
    badge.messages[0].data = data.clone();

    let frames = b1248_frames(&badge);
    assert_eq!(frames.len(), 14);

    // Greeting frame.
    let hello = &frames[0];
    assert_eq!(hello.len(), 65);
    assert_eq!(&hello[0..6], &[0x00, 0x48, 0x65, 0x6c, 0x6c, 0x6f]);
    assert_eq!(&hello[6..65], &[0u8; 59]);

    // Configuration frame.
    let conf = &frames[1];
    assert_eq!(conf.len(), 65);
    assert_eq!(conf[0], 0x00);
    assert_eq!(conf[1], 0x00);
    assert_eq!(conf[2], 0x00); // slot 0: speed 1, effect Left, no flags
    for i in 1..8 {
        assert_eq!(conf[2 + i], 0x70); // unset speed wraps to code 7
    }
    assert_eq!(conf[10], 0x00);
    // Slot 0: one byte column at offset 0.
    assert_eq!(&conf[11..15], &[0x08, 0x00, 0x00, 0x01]);
    // Slots 1..8: empty, all starting right after slot 0.
    for i in 1..8 {
        assert_eq!(&conf[11 + 4 * i..15 + 4 * i], &[0x08, 0x01, 0x00, 0x00]);
    }
    assert_eq!(&conf[43..65], &[0u8; 22]);

    // Row frames: row j of slot 0 lands at position 1.
    for j in 0..BADGE_MSG_FONT_HEIGHT {
        let row = &frames[2 + j];
        assert_eq!(row.len(), 65);
        assert_eq!(row[0], 0x00);
        assert_eq!(row[1], data[j]);
        assert_eq!(&row[2..65], &[0u8; 63]);
    }

    // Terminator frame.
    assert_eq!(frames[13], vec![0u8; 65]);
}

#[test]
fn test_indexed_offsets_cumulative() {
    // Eight slots of one byte column each: slot offsets are 0..8.
    let mut badge = Badge::new().unwrap();
    for i in 0..N_MESSAGES {
        badge.messages[i].data = vec![0x11 * i as u8; BADGE_MSG_FONT_HEIGHT];
        badge.set_effect_speed(i, 1).unwrap();
    }
    let frames = b1248_frames(&badge);
    let conf = &frames[1];
    for i in 0..8 {
        assert_eq!(conf[12 + 4 * i], i as u8);
        assert_eq!(conf[14 + 4 * i], 1);
    }
    // Row frames interleave the slots at their offsets.
    for j in 0..BADGE_MSG_FONT_HEIGHT {
        let row = &frames[2 + j];
        for i in 0..8 {
            assert_eq!(row[1 + i], 0x11 * i as u8);
        }
    }
}
