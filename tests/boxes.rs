use boxviewer::{box_color, BoxColor, BoxType};

#[test]
fn codes_name_kinds() {
    assert_eq!(BoxType::try_from(0), Ok(BoxType::Hurtbox));
    assert_eq!(BoxType::try_from(1), Ok(BoxType::Hitbox));
    assert_eq!(BoxType::try_from(9), Ok(BoxType::AttackVsPush));
    assert_eq!(BoxType::try_from(17), Ok(BoxType::ExtendJon));
    assert_eq!(BoxType::try_from(18), Err(()));
    assert_eq!(BoxType::try_from(u32::MAX), Err(()));
}

#[test]
fn every_code_round_trips() {
    for v in 0u32..18 {
        assert_eq!(BoxType::try_from(v).unwrap().to_code(), v);
    }
}

#[test]
fn outline_colours() {
    assert_eq!(box_color(0), BoxColor::Green);
    assert_eq!(box_color(1), BoxColor::Red);
    assert_eq!(box_color(2), BoxColor::Blue);
    assert_eq!(box_color(10), BoxColor::DebugColor);
    assert_eq!(box_color(17), BoxColor::DarkRed);
    assert_eq!(box_color(18), BoxColor::Green);
    assert_eq!(BoxType::Private3.color(), BoxColor::DarkGray);
}
