use chart_renderer::data::Row;
use chart_renderer::spec::{Channel, DataDef, FieldType, MarkDef, MarkProps, MarkType, TitleDef};
use chart_renderer::Error;

#[test]
fn accepts_mark_shorthand_and_object() {
    // "bar" and {"type":"bar","color":"#f00"}
    let a = MarkDef::Shorthand("bar".into());
    let b = MarkDef::Full(MarkProps {
        mark_type: "bar".into(),
        color: Some("#f00".into()),
        ..Default::default()
    });
    assert_eq!(a.mark_type().unwrap(), MarkType::Bar);
    assert_eq!(b.mark_type().unwrap(), MarkType::Bar);
    assert_eq!(b.props().color.as_deref(), Some("#f00"));
}

#[test]
fn rejects_unsupported_mark_rather_than_drawing_nothing() {
    let m = MarkDef::Shorthand("area".into());
    assert!(matches!(m.mark_type(), Err(Error::UnsupportedMark(_))));
}

#[test]
fn rejects_temporal_field_type() {
    let c = Channel {
        field_type: Some("temporal".into()),
        ..Default::default()
    };
    assert!(matches!(
        c.resolve_type(false),
        Err(Error::UnsupportedFieldType(_))
    ));
}

#[test]
fn rejects_remote_data() {
    let d = DataDef {
        values: None,
        url: Some("https://example.com/data.json".into()),
        name: None,
    };
    assert!(matches!(d.rows(), Err(Error::UnsupportedData(_))));
}

#[test]
fn every_supported_mark_name_parses() {
    assert_eq!(MarkType::parse("bar").unwrap(), MarkType::Bar);
    assert_eq!(MarkType::parse("line").unwrap(), MarkType::Line);
    assert_eq!(MarkType::parse("point").unwrap(), MarkType::Point);
    assert_eq!(MarkType::parse("circle").unwrap(), MarkType::Point);
    assert_eq!(MarkType::parse("arc").unwrap(), MarkType::Arc);
    assert!(matches!(MarkType::parse("Bar"), Err(Error::UnsupportedMark(m)) if m == "Bar"));
}

#[test]
fn a_shorthand_mark_has_no_properties_but_its_type() {
    let p = MarkDef::Shorthand("line".into()).props();
    assert_eq!(p.mark_type, "line");
    assert!(p.color.is_none() && p.fill.is_none() && p.stroke.is_none() && p.filled.is_none());
}

#[test]
fn field_types_resolve_and_infer() {
    let declared = |t: &str| Channel {
        field_type: Some(t.into()),
        ..Default::default()
    };
    assert_eq!(declared("quantitative").resolve_type(false).unwrap(), FieldType::Quantitative);
    assert_eq!(declared("nominal").resolve_type(true).unwrap(), FieldType::Nominal);
    assert_eq!(declared("ordinal").resolve_type(true).unwrap(), FieldType::Ordinal);
    let inferred = Channel::default();
    assert_eq!(inferred.resolve_type(true).unwrap(), FieldType::Quantitative);
    assert_eq!(inferred.resolve_type(false).unwrap(), FieldType::Nominal);
    assert!(!FieldType::Quantitative.is_discrete());
    assert!(FieldType::Nominal.is_discrete() && FieldType::Ordinal.is_discrete());
}

#[test]
fn a_channel_without_a_field_names_itself_in_the_error() {
    let c = Channel::default();
    assert!(matches!(c.field_name("x"), Err(Error::MissingField("x"))));
    let c = Channel {
        field: Some("b".into()),
        ..Default::default()
    };
    assert_eq!(c.field_name("x").unwrap(), "b");
}

#[test]
fn data_sources_other_than_inline_values_are_refused() {
    let named = DataDef { values: None, url: None, name: Some("table".into()) };
    assert!(matches!(named.rows(), Err(Error::UnsupportedData("named data sources"))));
    let nothing = DataDef { values: None, url: None, name: None };
    assert!(matches!(nothing.rows(), Err(Error::UnsupportedData("spec has no data.values"))));
    let both = DataDef { values: Some(vec![]), url: Some("u".into()), name: None };
    assert!(matches!(both.rows(), Err(Error::UnsupportedData("data.url"))));
    let inline = DataDef { values: Some(vec![Row { fields: vec![] }]), url: None, name: Some("n".into()) };
    assert_eq!(inline.rows().unwrap().len(), 1);
}

#[test]
fn titles_come_as_text_or_object() {
    assert_eq!(TitleDef::Text("Sales".into()).text(), Some("Sales"));
    assert_eq!(TitleDef::Object { text: Some("Q1".into()) }.text(), Some("Q1"));
    assert_eq!(TitleDef::Object { text: None }.text(), None);
}
