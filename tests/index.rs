use pantry::document::{reindex_ops, remove_ops, Document, IndexOp};
use pantry::recipe::{Category, MetaData, Recipe, Source};
use pantry::search::{query_prefixes, slug_query};

fn pancakes(title: &str, category: &str) -> Recipe {
    let md = MetaData::new(
        String::from(title),
        Category::from(String::from(category)),
        vec![Source::Url {
            name: String::from("Example"),
            url: String::from("https://example.com/p"),
        }],
        vec![String::from("quick"), String::from("sweet")],
    );
    Recipe::new(Some(md), String::from("<p>Fluffy.</p>"))
}

fn texts(d: &Document) -> Vec<(String, String, bool)> {
    d.texts().clone()
}

#[test]
fn document_holds_terms_and_slots() {
    let d = Document::new("/r/pancakes.md", &pancakes("Blueberry Pancakes", "Breakfast"));
    assert_eq!(d.key(), "I:/r/pancakes.md");
    assert_eq!(d.slug_term(), Some("Q:blueberry-pancakes"));
    assert_eq!(d.category(), Some("Breakfast"));
    assert_eq!(d.tags(), Some("quick,sweet"));
    assert_eq!(
        d.filters(),
        &vec![
            String::from("XC:Breakfast"),
            String::from("XD:example.com"),
            String::from("XT:quick"),
            String::from("XT:sweet"),
        ]
    );
    let t = texts(&d);
    let expected: Vec<(&str, &str, bool)> = vec![
        ("", "Blueberry Pancakes", false),
        ("S:", "Blueberry Pancakes", true),
        ("XC:", "Breakfast", true),
        ("XS:", "Example", true),
        ("XD:", "example.com", true),
        ("XT:", "quick", true),
        ("XT:", "sweet", true),
        ("D:", "Fluffy.", true),
    ];
    assert_eq!(t.len(), expected.len());
    for (got, want) in t.iter().zip(expected.iter()) {
        assert_eq!((got.0.as_str(), got.1.as_str(), got.2), *want);
    }
}

#[test]
fn document_without_front_matter_has_body_only() {
    let d = Document::new("/r/notes.md", &Recipe::new(None, String::from("<p>Notes</p>")));
    assert_eq!(d.key(), "I:/r/notes.md");
    assert_eq!(d.slug_term(), None);
    assert_eq!(d.category(), None);
    assert_eq!(d.tags(), None);
    assert!(d.filters().is_empty());
    assert_eq!(texts(&d), vec![(String::from("D:"), String::from("Notes"), true)]);
}

#[test]
fn reindexing_twice_builds_same_documents() {
    let files = vec![
        (String::from("/r/a.md"), pancakes("A", "Breakfast")),
        (String::from("/r/b.md"), pancakes("B", "Dinner")),
    ];
    let first = reindex_ops(&files);
    let second = reindex_ops(&files);
    assert_eq!(first.len(), 2);
    for (x, y) in first.iter().zip(second.iter()) {
        match (x, y) {
            (IndexOp::Replace(a), IndexOp::Replace(b)) => {
                assert_eq!(a.key(), b.key());
                assert_eq!(a.category(), b.category());
                assert_eq!(a.tags(), b.tags());
                assert_eq!(texts(a), texts(b));
            }
            _ => panic!("reindexing only replaces"),
        }
    }
}

#[test]
fn changed_title_replaces_under_same_key() {
    let old = Document::new("/r/a.md", &pancakes("Pancakes", "Breakfast"));
    let new = Document::new("/r/a.md", &pancakes("Waffles", "Brunch"));
    assert_eq!(old.key(), new.key());
    assert_eq!(new.slug_term(), Some("Q:waffles"));
    assert_eq!(new.category(), Some("Brunch"));
}

#[test]
fn removal_deletes_the_document_key() {
    let ops = remove_ops(&vec![String::from("/r/a.md"), String::from("/r/never.md")]);
    assert_eq!(ops.len(), 2);
    match &ops[0] {
        IndexOp::Delete(k) => assert_eq!(k, &Document::key_for("/r/a.md")),
        _ => panic!("removal only deletes"),
    }
    match &ops[1] {
        IndexOp::Delete(k) => assert_eq!(k, "I:/r/never.md"),
        _ => panic!("removal only deletes"),
    }
}

#[test]
fn slug_query_targets_slug_term() {
    let d = Document::new("/r/a.md", &pancakes("Blueberry Pancakes", "Breakfast"));
    let q = slug_query("blueberry-pancakes");
    assert_eq!(q, "slug:blueberry-pancakes");
    let (kw, rest) = q.split_once(':').unwrap();
    let prefixes = query_prefixes();
    let entry = prefixes.iter().find(|p| p.0 == kw).unwrap();
    assert!(entry.2);
    assert_eq!(format!("{}{}", entry.1, rest), d.slug_term().unwrap());
}

#[test]
fn query_language_prefixes() {
    let prefixes = query_prefixes();
    assert_eq!(prefixes.len(), 15);
    let find = |k: &str| prefixes.iter().find(|p| p.0 == k).map(|p| (p.1.clone(), p.2));
    assert_eq!(find("desc"), Some((String::from("D:"), false)));
    assert_eq!(find("ingredients"), Some((String::from("XI:"), false)));
    assert_eq!(find("steps"), Some((String::from("XP:"), false)));
    assert_eq!(find("title"), Some((String::from("S:"), false)));
    assert_eq!(find("source"), Some((String::from("XS:"), false)));
    assert_eq!(find("category"), Some((String::from("XC:"), true)));
    assert_eq!(find("tag"), Some((String::from("XT:"), true)));
    assert_eq!(find("site"), Some((String::from("XD:"), true)));
    assert_eq!(find("author"), None);
}
