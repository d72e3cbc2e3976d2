use chart_renderer::axis::{draws_grid, label_angle, with_minus_sign, AxisKind, MINUS_SIGN};

#[test]
fn negatives_use_a_real_minus_sign() {
    assert_eq!(with_minus_sign("-20".to_string()), "\u{2212}20");
    assert_eq!(with_minus_sign("-0.5".to_string()), "\u{2212}0.5");
    assert_eq!(MINUS_SIGN, '\u{2212}');
}

#[test]
fn other_labels_are_left_alone() {
    assert_eq!(with_minus_sign("20".to_string()), "20");
    assert_eq!(with_minus_sign(String::new()), "");
    assert_eq!(with_minus_sign("1-2".to_string()), "1-2");
    assert_ne!(AxisKind::Left, AxisKind::Bottom);
}

#[test]
fn only_a_discrete_bottom_axis_turns_its_labels() {
    assert_eq!(label_angle(AxisKind::Bottom, true), 270);
    assert_eq!(label_angle(AxisKind::Bottom, false), 0);
    assert_eq!(label_angle(AxisKind::Left, true), 0);
    assert_eq!(label_angle(AxisKind::Left, false), 0);
    assert!(draws_grid(false));
    assert!(!draws_grid(true));
}
