use pantry::recipe::{is_hidden, Category, MetaData, Recipe, Source};

fn recipe(html: &str) -> Recipe {
    Recipe::new(None, String::from(html))
}

fn titled(title: &str) -> MetaData {
    MetaData::new(String::from(title), Category::from(String::from("x")), Vec::new(), Vec::new())
}

#[test]
fn slug_is_url_safe_text() {
    assert_eq!(titled("My Test String!!!1!1").slug(), "my-test-string-1-1");
    assert_eq!(titled("You & Me").slug(), "you-me");
}

#[test]
fn metadata_slug_comes_from_title() {
    let md = MetaData::new(
        String::from("Blueberry Pancakes"),
        Category::from(String::from("Breakfast")),
        Vec::new(),
        Vec::new(),
    );
    assert_eq!(md.slug(), "blueberry-pancakes");
    assert_eq!(md.category().as_str(), "Breakfast");
}

#[test]
fn web_source_has_domain() {
    let s = Source::Url {
        name: String::from("Example"),
        url: String::from("https://www.example.com/pancakes"),
    };
    assert_eq!(s.domain(), Some(String::from("www.example.com")));
    assert_eq!(s.name(), "Example");
    assert_eq!(s.attribution(), "https://www.example.com/pancakes");
    assert_eq!(s.url(), Some(String::from("https://www.example.com/pancakes")));
}

#[test]
fn book_source_links_to_book_search() {
    let s = Source::Book { title: String::from("Joy"), author: String::from("Rombauer") };
    assert_eq!(s.domain(), None);
    assert_eq!(s.name(), "Joy");
    assert_eq!(s.attribution(), "Rombauer");
    let url = s.url().unwrap();
    assert!(url.starts_with("https://www.google.com/search?tbm=bks&q="));
    assert!(url.contains("Rombauer"));
}

#[test]
fn description_joins_paragraphs() {
    let r = recipe("<p>Light and <em>fluffy</em>.</p>\n<p>Serves four.</p>");
    assert_eq!(r.description(), "Light and \nfluffy\n.\n\nServes four.");
}

#[test]
fn unified_list_is_read() {
    let r = recipe(
        "<h2 id=\"ingredients\">Ingredients</h2>\n<ul>\n<li>flour</li>\n<li> sugar </li>\n</ul>\n",
    );
    assert_eq!(r.ingredients(), Some(String::from("flour\nsugar")));
    assert_eq!(r.directions(), None);
}

#[test]
fn sectioned_list_is_read() {
    let r = recipe(
        "<h2 id=\"directions\">Directions</h2>\n<h3 id=\"dough\" class=\"directions\">Dough</h3>\n<ul>\n<li>mix</li>\n<li>knead</li>\n</ul>\n<h3 id=\"sauce\" class=\"directions\">Sauce</h3>\n<ul>\n<li>stir</li>\n</ul>\n",
    );
    assert_eq!(r.directions(), Some(String::from("dough\nmix\nknead\n\nsauce\nstir")));
}

#[test]
fn recipe_without_front_matter_has_no_facts() {
    let r = recipe("<p>x</p>");
    assert!(r.title().is_none());
    assert!(r.category().is_none());
    assert!(r.tags().is_empty());
    assert!(r.sources().is_empty());
    assert_eq!(r.contents(), "<p>x</p>");
}

#[test]
fn hidden_names() {
    assert!(is_hidden(".git"));
    assert!(is_hidden("_drafts"));
    assert!(!is_hidden("pancakes.md"));
    assert!(!is_hidden(""));
}
