use chart_renderer::chart::{
    discrete_scale, DiscreteScale,
    background, color_channel, orientation, resolve, row_colors, stack_order, zero_default, Axis,
    Orientation,
};
use chart_renderer::data::{Cell, Row};
use chart_renderer::ir::Color;
use chart_renderer::marks::default_mark_color;
use chart_renderer::palette::categorical;
use chart_renderer::spec::{
    Channel, DataDef, Encoding, FieldType, MarkDef, MarkProps, MarkType, ScaleDef, Spec,
};
use chart_renderer::Error;

fn row(fields: &[(&str, Cell)]) -> Row {
    Row {
        fields: fields.iter().map(|(k, v)| (k.to_string(), v.clone())).collect(),
    }
}

fn text(s: &str) -> Cell {
    Cell::Text(s.to_string())
}

fn number(s: &str) -> Cell {
    Cell::Number(s.to_string())
}

fn channel(field: &str, ftype: &str) -> Channel {
    Channel {
        field: Some(field.into()),
        field_type: Some(ftype.into()),
        ..Default::default()
    }
}

fn spec_with(mark: MarkDef, background: Option<&str>) -> Spec {
    Spec {
        title: None,
        background: background.map(|s| s.to_string()),
        data: DataDef { values: Some(vec![]), url: None, name: None },
        mark,
        encoding: Encoding::default(),
    }
}

#[test]
fn y_always_includes_zero_and_x_does_except_for_lines() {
    for mark in [MarkType::Bar, MarkType::Line, MarkType::Point, MarkType::Arc] {
        assert!(zero_default(mark, Axis::Y));
    }
    assert!(zero_default(MarkType::Bar, Axis::X));
    assert!(zero_default(MarkType::Point, Axis::X));
    assert!(!zero_default(MarkType::Line, Axis::X));
}

#[test]
fn bar_orientation_follows_the_discrete_channel() {
    assert_eq!(orientation(MarkType::Bar, true, false).unwrap(), Some(Orientation::Vertical));
    assert_eq!(orientation(MarkType::Bar, false, true).unwrap(), Some(Orientation::Horizontal));
    assert!(matches!(orientation(MarkType::Bar, false, false), Err(Error::UnsupportedEncoding(_))));
    assert!(matches!(orientation(MarkType::Bar, true, true), Err(Error::UnsupportedEncoding(_))));
}

#[test]
fn line_and_point_reject_a_discrete_y() {
    for mark in [MarkType::Line, MarkType::Point] {
        assert!(matches!(orientation(mark, false, true), Err(Error::UnsupportedEncoding(_))));
        assert_eq!(orientation(mark, true, false).unwrap(), None);
        assert_eq!(orientation(mark, false, false).unwrap(), None);
    }
}

#[test]
fn a_missing_channel_is_a_typed_error() {
    let rows = vec![row(&[("a", text("A"))])];
    assert!(matches!(resolve(None, "y", &rows), Err(Error::MissingEncoding("y"))));
    let no_field = Channel::default();
    assert!(matches!(resolve(Some(&no_field), "x", &rows), Err(Error::MissingField("x"))));
}

#[test]
fn a_channel_resolves_to_its_type_field_and_title() {
    let rows = vec![row(&[("a", text("A")), ("b", number("1"))])];
    let r = resolve(Some(&channel("a", "nominal")), "x", &rows).unwrap();
    assert_eq!(r.ftype, FieldType::Nominal);
    assert_eq!(r.field, "a");
    assert_eq!(r.title.as_deref(), Some("a"));
    let titled = Channel { title: Some("Amount".into()), ..channel("b", "quantitative") };
    let r = resolve(Some(&titled), "y", &rows).unwrap();
    assert_eq!(r.title.as_deref(), Some("Amount"));
    assert_eq!(r.ftype, FieldType::Quantitative);
}

#[test]
fn an_undeclared_type_is_inferred_from_the_data() {
    let rows = vec![row(&[("a", text("A")), ("b", number("1"))])];
    let untyped = |f: &str| Channel { field: Some(f.into()), ..Default::default() };
    assert_eq!(resolve(Some(&untyped("b")), "y", &rows).unwrap().ftype, FieldType::Quantitative);
    assert_eq!(resolve(Some(&untyped("a")), "x", &rows).unwrap().ftype, FieldType::Nominal);
    let zeroless = Channel { scale: Some(ScaleDef { zero: Some(false), nice: None }), ..untyped("b") };
    assert_eq!(resolve(Some(&zeroless), "y", &rows).unwrap().zero, Some(false));
}

#[test]
fn a_quantitative_colour_field_is_rejected_rather_than_mis_drawn() {
    let rows = vec![row(&[("x", number("1")), ("y", number("2")), ("c", number("3"))])];
    assert!(matches!(
        color_channel(Some(&channel("c", "quantitative")), &rows),
        Err(Error::UnsupportedEncoding(_))
    ));
    // A missing field is reported as such before the type is judged.
    assert!(matches!(
        color_channel(Some(&channel("typo", "quantitative")), &rows),
        Err(Error::UnknownField(_))
    ));
}

#[test]
fn a_colour_channel_yields_its_sorted_domain_and_title() {
    let rows = vec![
        row(&[("s", text("beta"))]),
        row(&[("s", text("alpha"))]),
        row(&[("s", text("beta"))]),
    ];
    let cc = color_channel(Some(&channel("s", "nominal")), &rows).unwrap();
    assert_eq!(cc.domain, vec!["alpha", "beta"]);
    assert_eq!(cc.title.as_deref(), Some("s"));
    assert_eq!(cc.column.unwrap().len(), 3);
    let none = color_channel(None, &rows).unwrap();
    assert!(none.column.is_none() && none.domain.is_empty() && none.title.is_none());
}

#[test]
fn equal_categories_share_a_colour_and_distinct_ones_differ() {
    let column = vec![Some("alpha".to_string()), Some("beta".to_string()), Some("alpha".to_string()), None];
    let domain = vec!["alpha".to_string(), "beta".to_string()];
    let spec = spec_with(MarkDef::Shorthand("point".into()), None);
    let colors = row_colors(4, Some(&column), &domain, &spec);
    assert_eq!(colors.len(), 4);
    assert_eq!(colors[0], colors[2], "same category, same colour");
    assert_ne!(colors[0], colors[1], "different category, different colour");
    assert_eq!(colors[0], categorical(0));
    assert_eq!(colors[1], categorical(1));
    assert_eq!(colors[3], default_mark_color());
}

#[test]
fn mark_color_overrides_the_default() {
    let red = MarkDef::Full(MarkProps {
        mark_type: "bar".into(),
        color: Some("#ff0000".into()),
        ..Default::default()
    });
    let colors = row_colors(3, None, &[], &spec_with(red, None));
    assert_eq!(colors, vec![Color::rgb(255, 0, 0); 3]);
    let plain = row_colors(2, None, &[], &spec_with(MarkDef::Shorthand("bar".into()), None));
    assert_eq!(plain, vec![default_mark_color(); 2]);
}

#[test]
fn the_background_is_white_unless_a_valid_colour_is_given() {
    let bar = || MarkDef::Shorthand("bar".into());
    assert_eq!(background(&spec_with(bar(), None)), Color::white());
    assert_eq!(background(&spec_with(bar(), Some("#000"))), Color::rgb(0, 0, 0));
    assert_eq!(background(&spec_with(bar(), Some("navy"))), Color::white());
}

#[test]
fn slices_stack_in_colour_domain_order_not_row_order() {
    // Rows are Zeta, Alpha, Mid; the sorted domain is Alpha, Mid, Zeta.
    let column = vec![Some("Zeta".to_string()), Some("Alpha".to_string()), Some("Mid".to_string())];
    let domain = vec!["Alpha".to_string(), "Mid".to_string(), "Zeta".to_string()];
    assert_eq!(stack_order(3, Some(&column), &domain), vec![1, 2, 0]);
}

#[test]
fn without_a_colour_encoding_rows_stack_as_they_come() {
    assert_eq!(stack_order(4, None, &[]), vec![0, 1, 2, 3]);
    assert!(stack_order(0, None, &[]).is_empty());
}

#[test]
fn rows_without_a_category_stack_last_in_row_order() {
    let column = vec![None, Some("b".to_string()), None, Some("a".to_string()), Some("b".to_string())];
    let domain = vec!["a".to_string(), "b".to_string()];
    assert_eq!(stack_order(5, Some(&column), &domain), vec![3, 1, 4, 0, 2]);
}

#[test]
fn bars_take_a_band_scale_and_lines_and_points_a_point_scale() {
    assert_eq!(discrete_scale(MarkType::Bar), DiscreteScale::Band);
    assert_eq!(discrete_scale(MarkType::Arc), DiscreteScale::Band);
    assert_eq!(discrete_scale(MarkType::Line), DiscreteScale::Point);
    assert_eq!(discrete_scale(MarkType::Point), DiscreteScale::Point);
}
