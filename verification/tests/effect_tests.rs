use ledbadge::effect::BadgeEffect;

#[test]
fn test_badge_effect_values() {
    let values = BadgeEffect::values();
    assert_eq!(values[0], BadgeEffect::Left);
    assert_eq!(values[values.len() - 1], BadgeEffect::Laser);
}

#[test]
fn test_badge_effect_display() {
    assert_eq!(BadgeEffect::Left.name(), String::from("left"));
}

#[test]
fn test_badge_effect_from_u8() {
    assert_eq!(BadgeEffect::try_from(0).unwrap(), BadgeEffect::Left);
    assert_eq!(
        BadgeEffect::try_from(BadgeEffect::Down as u8).unwrap(),
        BadgeEffect::Down
    );
    assert_eq!(
        BadgeEffect::try_from(BadgeEffect::Laser as u8).unwrap(),
        BadgeEffect::Laser
    );
    assert_eq!(
        BadgeEffect::try_from((BadgeEffect::Laser as u8) + 1),
        Err(())
    );
}

#[test]
fn badge_effect_from_str() {
    assert_eq!(BadgeEffect::from_str("left").unwrap(), BadgeEffect::Left);
    assert_eq!(BadgeEffect::from_str("left2"), Err(()));
}

#[test]
fn test_effect_name_roundtrip() {
    for effect in BadgeEffect::values() {
        let name = effect.name();
        assert_eq!(BadgeEffect::from_str(name.as_str()).unwrap(), effect);
    }
}

#[test]
fn test_effect_codes() {
    let values = BadgeEffect::values();
    assert_eq!(values.len(), 9);
    for (i, effect) in values.iter().enumerate() {
        assert_eq!(effect.code() as usize, i);
    }
}
