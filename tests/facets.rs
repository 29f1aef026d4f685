use pantry::facets::{Categorizer, Tagger};

fn sorted(mut v: Vec<(String, usize)>) -> Vec<(String, usize)> {
    v.sort();
    v
}

#[test]
fn categories_are_counted_per_value() {
    let mut c = Categorizer::new();
    c.observe(Some("A"));
    c.observe(Some("A"));
    c.observe(Some("B"));
    assert_eq!(
        sorted(c.facets()),
        vec![(String::from("A"), 2), (String::from("B"), 1)]
    );
    assert_eq!(c.observed(), 3);
}

#[test]
fn absent_category_is_not_counted() {
    let mut c = Categorizer::new();
    c.observe(None);
    assert!(c.facets().is_empty());
    assert_eq!(c.observed(), 0);
}

#[test]
fn reset_forgets_counts() {
    let mut c = Categorizer::new();
    c.observe(Some("Dinner"));
    c.reset();
    assert!(c.facets().is_empty());
    c.observe(Some("Lunch"));
    assert_eq!(c.facets(), vec![(String::from("Lunch"), 1)]);
}

#[test]
fn tags_are_split_at_commas() {
    let mut t = Tagger::new();
    t.observe(Some("quick,vegan"));
    t.observe(Some("vegan"));
    t.observe(None);
    assert_eq!(
        sorted(t.facets()),
        vec![(String::from("quick"), 1), (String::from("vegan"), 2)]
    );
    assert_eq!(t.observed(), 3);
}

#[test]
fn tagger_reset_forgets_counts() {
    let mut t = Tagger::new();
    t.observe(Some("a,b,a"));
    assert_eq!(sorted(t.facets()), vec![(String::from("a"), 2), (String::from("b"), 1)]);
    t.reset();
    assert!(t.facets().is_empty());
}
