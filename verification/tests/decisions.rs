//! Whole specs through the library's decisions, in the order a chart build
//! takes them: mark, rows, positional channels, orientation, colour, legend.

use chart_renderer::chart::{decide, decide_arc, theta_field, Decisions, Orientation};
use chart_renderer::data::{Cell, Row};
use chart_renderer::ir::Color;
use chart_renderer::marks::{color_series, default_mark_color};
use chart_renderer::palette::categorical;
use chart_renderer::spec::{Channel, DataDef, Encoding, MarkDef, MarkType, Spec};
use chart_renderer::{Error, Result};

fn row(fields: &[(&str, Cell)]) -> Row {
    Row { fields: fields.iter().map(|(k, v)| (k.to_string(), v.clone())).collect() }
}

fn text(s: &str) -> Cell {
    Cell::Text(s.to_string())
}

fn number(s: &str) -> Cell {
    Cell::Number(s.to_string())
}

fn channel(field: &str, ftype: &str) -> Option<Channel> {
    Some(Channel { field: Some(field.into()), field_type: Some(ftype.into()), ..Default::default() })
}

fn titled(field: &str, ftype: &str, title: &str) -> Option<Channel> {
    Some(Channel { title: Some(title.into()), ..channel(field, ftype).unwrap() })
}

fn spec(rows: Vec<Row>, mark: &str, encoding: Encoding) -> Spec {
    Spec {
        title: None,
        background: None,
        data: DataDef { values: Some(rows), url: None, name: None },
        mark: MarkDef::Shorthand(mark.into()),
        encoding,
    }
}

/// The decisions of a rectangular chart, after its mark and rows.
fn decide_spec(spec: &Spec) -> Result<Decisions> {
    let mark = spec.mark.mark_type()?;
    let rows = spec.data.rows()?;
    decide(spec, mark, rows)
}

fn bar_spec() -> Spec {
    spec(
        vec![
            row(&[("a", text("A")), ("b", number("28"))]),
            row(&[("a", text("B")), ("b", number("55"))]),
            row(&[("a", text("C")), ("b", number("43"))]),
        ],
        "bar",
        Encoding { x: channel("a", "nominal"), y: channel("b", "quantitative"), ..Default::default() },
    )
}

fn colored_spec(mark: &str) -> Spec {
    let r = |x: &str, y: &str, s: &str| row(&[("x", number(x)), ("y", number(y)), ("s", text(s))]);
    spec(
        vec![r("1", "10", "alpha"), r("2", "20", "beta"), r("3", "30", "alpha"), r("4", "25", "beta")],
        mark,
        Encoding {
            x: channel("x", "quantitative"),
            y: channel("y", "quantitative"),
            color: channel("s", "nominal"),
            ..Default::default()
        },
    )
}

#[test]
fn axis_titles_default_to_the_field_name() {
    let d = decide_spec(&bar_spec()).unwrap();
    assert_eq!(d.x.title.as_deref(), Some("a"));
    assert_eq!(d.y.title.as_deref(), Some("b"));
    assert_eq!(d.orientation, Some(Orientation::Vertical));
}

#[test]
fn an_explicit_channel_title_wins() {
    let s = spec(
        vec![row(&[("a", text("A")), ("b", number("1"))])],
        "bar",
        Encoding {
            x: titled("a", "nominal", "Category"),
            y: titled("b", "quantitative", "Amount"),
            ..Default::default()
        },
    );
    let d = decide_spec(&s).unwrap();
    assert_eq!(d.x.title.as_deref(), Some("Category"));
    assert_eq!(d.y.title.as_deref(), Some("Amount"));
}

#[test]
fn two_quantitative_channels_are_rejected_for_a_bar() {
    let s = spec(
        vec![row(&[("a", number("1")), ("b", number("2"))])],
        "bar",
        Encoding { x: channel("a", "quantitative"), y: channel("b", "quantitative"), ..Default::default() },
    );
    assert!(matches!(decide_spec(&s), Err(Error::UnsupportedEncoding(_))));
}

#[test]
fn missing_y_encoding_is_a_typed_error() {
    let s = spec(
        vec![row(&[("a", text("A"))])],
        "bar",
        Encoding { x: channel("a", "nominal"), ..Default::default() },
    );
    assert!(matches!(decide_spec(&s), Err(Error::MissingEncoding("y"))));
}

#[test]
fn a_discrete_y_is_rejected_for_line_and_point() {
    for mark in ["line", "point"] {
        let s = spec(
            vec![row(&[("a", text("A")), ("b", number("1"))])],
            mark,
            Encoding { x: channel("b", "quantitative"), y: channel("a", "nominal"), ..Default::default() },
        );
        assert!(matches!(decide_spec(&s), Err(Error::UnsupportedEncoding(_))), "{mark} should reject a discrete y");
    }
}

#[test]
fn a_colour_encoding_adds_a_legend() {
    let d = decide_spec(&colored_spec("point")).unwrap();
    let labels: Vec<&str> = d.legend.entries.iter().map(|(label, _)| label.as_str()).collect();
    assert!(labels.contains(&"alpha"));
    assert!(labels.contains(&"beta"));
    assert_eq!(d.legend.title.as_deref(), Some("s"), "legend title");
    assert_eq!(d.legend.mark, MarkType::Point);
}

#[test]
fn a_colour_encoding_splits_a_line_into_one_series_each() {
    let d = decide_spec(&colored_spec("line")).unwrap();
    let series = color_series(&[true; 4], &d.colors);
    assert_eq!(series.len(), 2, "one polyline per series");
    assert_eq!(series[0].1, vec![0, 2]);
    assert_eq!(series[1].1, vec![1, 3]);
}

#[test]
fn an_arc_without_a_theta_channel_is_a_typed_error() {
    let s = spec(
        vec![row(&[("c", text("A")), ("v", number("1"))])],
        "arc",
        Encoding { color: channel("c", "nominal"), ..Default::default() },
    );
    assert_eq!(s.mark.mark_type().unwrap(), MarkType::Arc);
    assert!(matches!(theta_field(s.encoding.theta.as_ref()), Err(Error::MissingEncoding("theta"))));
}

#[test]
fn the_theta_channel_names_the_slice_field() {
    let with_field = channel("v", "quantitative");
    assert_eq!(theta_field(with_field.as_ref()).unwrap(), "v");
    let no_field = Some(Channel::default());
    assert!(matches!(theta_field(no_field.as_ref()), Err(Error::MissingField("theta"))));
}

fn pie_spec() -> Spec {
    let r = |c: &str, v: &str| row(&[("c", text(c)), ("v", number(v))]);
    spec(
        vec![r("Zeta", "10"), r("Alpha", "20"), r("Mid", "30")],
        "arc",
        Encoding { theta: channel("v", "quantitative"), color: channel("c", "nominal"), ..Default::default() },
    )
}

#[test]
fn a_pie_stacks_in_sorted_category_order_with_matching_legend_and_colours() {
    let s = pie_spec();
    let d = decide_arc(&s, s.data.rows().unwrap()).unwrap();
    assert_eq!(d.theta, "v");
    assert_eq!(d.color.domain, vec!["Alpha", "Mid", "Zeta"]);
    assert_eq!(d.order, vec![1, 2, 0]);
    let labels: Vec<&str> = d.legend.entries.iter().map(|(l, _)| l.as_str()).collect();
    assert_eq!(labels, vec!["Alpha", "Mid", "Zeta"]);
    assert_eq!(d.legend.mark, MarkType::Arc);
    assert_eq!(d.colors, vec![categorical(2), categorical(0), categorical(1)]);
}

#[test]
fn a_pie_reports_its_faults_in_order() {
    let r = vec![row(&[("c", text("A")), ("v", number("1"))])];
    let with = |theta: Option<Channel>, color: Option<Channel>| {
        spec(r.clone(), "arc", Encoding { theta, color, ..Default::default() })
    };
    let s = with(None, channel("typo", "quantitative"));
    assert!(matches!(decide_arc(&s, &r), Err(Error::MissingEncoding("theta"))));
    let s = with(channel("w", "quantitative"), channel("typo", "quantitative"));
    assert!(matches!(decide_arc(&s, &r), Err(Error::UnknownField(f)) if f == "w"));
    let s = with(channel("v", "quantitative"), channel("v", "quantitative"));
    assert!(matches!(decide_arc(&s, &r), Err(Error::UnsupportedEncoding(_))));
    let s = with(channel("v", "quantitative"), None);
    let d = decide_arc(&s, &r).unwrap();
    assert_eq!(d.order, vec![0]);
    assert!(d.legend.entries.is_empty());
    assert_eq!(d.colors, vec![default_mark_color()]);
}

#[test]
fn the_x_channel_is_judged_before_the_y_channel_and_both_before_the_mark() {
    let r = vec![row(&[("a", text("A")), ("b", number("1"))])];
    let with = |x: Option<Channel>, y: Option<Channel>, mark: &str| {
        spec(r.clone(), mark, Encoding { x, y, ..Default::default() })
    };
    // An unknown x field is reported although y is missing.
    let s = with(channel("typo", "nominal"), None, "bar");
    assert!(matches!(decide_spec(&s), Err(Error::UnknownField(f)) if f == "typo"));
    // A missing y is reported although the pair could not make a bar either.
    let s = with(channel("b", "quantitative"), None, "bar");
    assert!(matches!(decide_spec(&s), Err(Error::MissingEncoding("y"))));
    let s = with(channel("a", "nominal"), channel("b", "quantitative"), "bar");
    let d = decide_spec(&s).unwrap();
    assert_eq!(d.orientation, Some(Orientation::Vertical));
    assert_eq!(d.colors, vec![default_mark_color()]);
    assert_eq!(d.colors[0], Color::rgb(0x4c, 0x78, 0xa8));
}
