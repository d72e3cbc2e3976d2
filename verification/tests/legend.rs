use chart_renderer::legend::{entries_for, Legend};
use chart_renderer::palette::categorical;
use chart_renderer::spec::MarkType;

#[test]
fn one_entry_per_category_in_its_scheme_colour() {
    let domain: Vec<String> = (0..12).map(|i| format!("series {i}")).collect();
    let entries = entries_for(&domain);
    assert_eq!(entries.len(), 12);
    for (i, (label, color)) in entries.iter().enumerate() {
        assert_eq!(label, &domain[i]);
        assert_eq!(*color, categorical(i));
    }
    assert_eq!(entries[10].1, entries[0].1);
}

#[test]
fn a_legend_for_an_empty_domain_has_no_entries() {
    let legend = Legend::for_domain(None, &[], MarkType::Bar);
    assert!(legend.entries.is_empty());
    assert!(legend.title.is_none());
    let titled = Legend::for_domain(Some("s".into()), &["a".to_string()], MarkType::Point);
    assert_eq!(titled.title.as_deref(), Some("s"));
    assert_eq!(titled.mark, MarkType::Point);
    assert_eq!(titled.entries.len(), 1);
}
