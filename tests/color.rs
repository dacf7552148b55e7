use fractol_rs::color::Color;

#[test]
fn add_basic() {
    let lhs = Color::new(0x00, 0x00, 0x00, 0xff);
    let rhs = Color::new(0xff, 0xff, 0x00, 0x00);
    assert_eq!(Color::new(0xff, 0xff, 0x00, 0xff), lhs.add(&rhs));
}

#[test]
fn add_wrapping() {
    let lhs = Color::new(128, 128, 128, 255);
    let rhs = Color::new(255, 255, 128, 255);
    assert_eq!(Color::new(127, 127, 0, 254), lhs.add(&rhs));
}

#[test]
fn sub_basic() {
    let lhs = Color::new(0xff, 0xff, 0x00, 0xff);
    let rhs = Color::new(0x7f, 0x7f, 0x00, 0xff);
    assert_eq!(Color::new(0x80, 0x80, 0x00, 0x00), lhs.sub(&rhs));
}

#[test]
fn sub_wrapping() {
    let lhs = Color::new(0x00, 0x00, 0x7f, 0xff);
    let rhs = Color::new(0x80, 0x80, 0xff, 0xff);
    assert_eq!(Color::new(0x80, 0x80, 0x80, 0x00), lhs.sub(&rhs));
}

#[test]
fn new_keeps_channels() {
    let c = Color::new(1, 2, 3, 4);
    assert_eq!((c.r, c.g, c.b, c.a), (1, 2, 3, 4));
}

#[test]
fn sub_undoes_add() {
    let base = Color::new(200, 17, 0, 255);
    let delta = Color::new(100, 250, 1, 1);
    assert_eq!(base, base.add(&delta).sub(&delta));
}

#[test]
fn gradient_empty_and_single() {
    let base = Color::new(10, 20, 30, 40);
    let target = Color::new(200, 100, 0, 255);
    assert_eq!(base.gradient_of(&target, 0), vec![]);
    assert_eq!(base.gradient_of(&target, 1), vec![base]);
}

#[test]
fn gradient_two_steps_is_endpoints() {
    let base = Color::new(10, 20, 30, 40);
    let target = Color::new(200, 100, 0, 255);
    assert_eq!(base.gradient_of(&target, 2), vec![base, target]);
}

#[test]
fn gradient_rising_stops() {
    let base = Color::new(0x00, 0x00, 0x00, 0x00);
    let target = Color::new(0xff, 0xff, 0xff, 0xff);
    let expected = vec![
        Color::new(0, 0, 0, 0),
        Color::new(63, 63, 63, 63),
        Color::new(127, 127, 127, 127),
        Color::new(191, 191, 191, 191),
        Color::new(255, 255, 255, 255),
    ];
    assert_eq!(expected, base.gradient_of(&target, 5));
}

#[test]
fn gradient_mixed_direction_stops() {
    let base = Color::new(0x00, 0xff, 0xff, 0xff);
    let target = Color::new(0xff, 0x00, 0x00, 0x00);
    let expected = vec![
        Color::new(0, 255, 255, 255),
        Color::new(85, 170, 170, 170),
        Color::new(170, 85, 85, 85),
        Color::new(255, 0, 0, 0),
    ];
    assert_eq!(expected, base.gradient_of(&target, 4));
}

#[test]
fn from_escape_truncates_to_a_byte() {
    assert_eq!(Color::from_escape(0), Color::new(0, 0, 0, 255));
    assert_eq!(Color::from_escape(255), Color::new(255, 255, 255, 255));
    assert_eq!(Color::from_escape(256), Color::new(0, 0, 0, 255));
    assert_eq!(Color::from_escape(300), Color::new(44, 44, 44, 255));
}
