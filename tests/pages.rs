use pantry::import::{ImportedDirections, ImportedRecipe};
use pantry::markdown::{resolve_broken_link, HeadingTagger};
use pantry::recipe::{Category, MetaData, Recipe};
use pantry::search::SearchResult;
use pantry::templates::{Recipe as RecipePage, Search, SearchBar};

#[test]
fn parse_recipe() {
    let mut tagger = HeadingTagger::new();
    let (id, class) = tagger.enter(1, "Crawfish Boil");
    assert_eq!((id.as_str(), class.as_str()), ("crawfish-boil", ""));
    let (id, class) = tagger.enter(2, "Ingredients");
    assert_eq!((id.as_str(), class.as_str()), ("ingredients", "crawfish-boil"));
    let (id, class) = tagger.enter(3, "Seasoning");
    assert_eq!((id.as_str(), class.as_str()), ("seasoning", "crawfish-boil ingredients"));
    let (id, class) = tagger.enter(2, "Directions");
    assert_eq!((id.as_str(), class.as_str()), ("directions", "crawfish-boil"));
}

#[test]
fn broken_link_goes_to_recipe() {
    let (url, title) = resolve_broken_link("pie crust", "[Pie Crust]");
    assert_eq!(url, "/recipe/pie-crust");
    assert_eq!(title, "Pie Crust");
    let (_, title) = resolve_broken_link("x", "[[x]]");
    assert_eq!(title, "x");
}

#[test]
fn search_bar_query() {
    assert_eq!(SearchBar::new(None).query(), "");
    assert_eq!(SearchBar::new(Some(String::from("soup"))).query(), "soup");
}

#[test]
fn search_page_filters() {
    let one = SearchResult::new(vec![(String::from("A"), 3)], Vec::new(), Vec::new());
    let page = Search::new(Some(String::from("q")), one);
    assert!(!page.has_many_categories());
    assert!(!page.is_filterable());
    assert_eq!(page.search_bar().query(), "q");
    let many = SearchResult::new(
        vec![(String::from("A"), 1), (String::from("B"), 1)],
        Vec::new(),
        vec![(String::from("t"), 1)],
    );
    let page = Search::new(None, many);
    assert!(page.has_many_categories());
    assert!(!page.has_many_tags());
    assert!(page.is_filterable());
    assert!(!Search::empty().is_filterable());
}

#[test]
fn recipe_page_title() {
    let page = RecipePage::new(Recipe::new(None, String::new()));
    assert_eq!(page.title(), "Unknown");
    let md = MetaData::new(
        String::from("Soup"),
        Category::from(String::from("Dinner")),
        Vec::new(),
        Vec::new(),
    );
    let page = RecipePage::new(Recipe::new(Some(md), String::new()));
    assert_eq!(page.title(), "Soup");
    assert_eq!(page.search_bar().query(), "");
}

#[test]
fn imported_recipe_markdown() {
    let r = ImportedRecipe {
        name: String::from("Soup"),
        description: String::from("Warm."),
        prep_time: Some(String::from("10 minutes")),
        cook_time: None,
        total_time: Some(String::from("1 hour")),
        ingredients: vec![String::from("water"), String::from("salt")],
        directions: Some(ImportedDirections::Sections(vec![(
            String::from("Base"),
            vec![String::from("boil")],
        )])),
    };
    assert_eq!(
        r.markdown(),
        "Warm.\n\n**Prep Time:** 10 minutes\n\n**Total Time:** 1 hour\n\n## Ingredients\n\n- water\n- salt\n\n## Directions\n\n### Base\n\n- boil\n\n\n\n"
    );
    let md = r.metadata();
    assert_eq!(md.title(), "Soup");
    assert_eq!(md.category().as_str(), "Imported");
    let plain = ImportedRecipe {
        name: String::from("Tea"),
        description: String::from("Hot."),
        prep_time: None,
        cook_time: None,
        total_time: None,
        ingredients: Vec::new(),
        directions: Some(ImportedDirections::Steps(vec![String::from("Steep. "), String::from("Drink.")])),
    };
    assert_eq!(plain.markdown(), "Hot.\n\n## Directions\n\nSteep. Drink.\n\n");
}
