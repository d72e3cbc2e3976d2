use chart_renderer::ir::Color;
use chart_renderer::marks::{color_series, default_mark_color, mark_color};
use chart_renderer::spec::{DataDef, Encoding, MarkDef, MarkProps, Spec};

fn spec_with(mark: MarkDef) -> Spec {
    Spec {
        title: None,
        background: None,
        data: DataDef { values: Some(vec![]), url: None, name: None },
        mark,
        encoding: Encoding::default(),
    }
}

fn full(color: Option<&str>, fill: Option<&str>) -> MarkDef {
    MarkDef::Full(MarkProps {
        mark_type: "bar".into(),
        color: color.map(|s| s.to_string()),
        fill: fill.map(|s| s.to_string()),
        ..Default::default()
    })
}

#[test]
fn the_default_mark_colour_is_tableau_blue() {
    assert_eq!(default_mark_color(), Color::rgb(0x4c, 0x78, 0xa8));
}

#[test]
fn mark_colour_prefers_color_then_fill() {
    assert_eq!(mark_color(&spec_with(full(Some("#ff0000"), Some("#00ff00")))), Color::rgb(255, 0, 0));
    assert_eq!(mark_color(&spec_with(full(None, Some("#00ff00")))), Color::rgb(0, 255, 0));
    assert_eq!(mark_color(&spec_with(full(None, None))), default_mark_color());
    assert_eq!(mark_color(&spec_with(MarkDef::Shorthand("bar".into()))), default_mark_color());
    // An unparsable `color` is not replaced by `fill`: the default wins.
    assert_eq!(mark_color(&spec_with(full(Some("red"), Some("#00ff00")))), default_mark_color());
}

#[test]
fn each_colour_becomes_its_own_line() {
    let a = Color::rgb(1, 0, 0);
    let b = Color::rgb(0, 1, 0);
    let groups = color_series(&[true, true, true, true], &[a, b, a, b]);
    assert_eq!(groups, vec![(a, vec![0, 2]), (b, vec![1, 3])]);
}

#[test]
fn unplottable_rows_are_dropped_from_series() {
    let c = default_mark_color();
    let groups = color_series(&[true, false, true], &[c, c, c]);
    assert_eq!(groups, vec![(c, vec![0, 2])]);
    assert!(color_series(&[false, false], &[c, c]).is_empty());
}

#[test]
fn rows_past_the_colour_list_take_the_default_colour() {
    let a = Color::rgb(9, 9, 9);
    let groups = color_series(&[true, true, true], &[a]);
    assert_eq!(groups, vec![(a, vec![0]), (default_mark_color(), vec![1, 2])]);
}
