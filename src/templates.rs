//! What the pages show: the search bar, a recipe page, a search page.
use vstd::prelude::*;
use vstd::string::StringExecFns;
use crate::search::SearchResult;

verus! {

/// The frame every page is drawn in.
pub struct Layout;

/// The search bar, holding the query of the page, if any.
pub struct SearchBar {
    query: Option<String>,
}

impl SearchBar {
    pub closed spec fn spec_query(&self) -> Seq<char> {
        match self.query {
            Some(q) => q@,
            None => Seq::empty(),
        }
    }

    pub fn new(query: Option<String>) -> (r: Self)
        ensures
            r.spec_query() == match query {
                Some(q) => q@,
                None => Seq::<char>::empty(),
            },
    {
        SearchBar { query }
    }

    /// The query shown in the bar; empty when there is none.
    pub fn query(&self) -> (r: &str)
        ensures
            r@ == self.spec_query(),
    {
        match &self.query {
            Some(q) => q.as_str(),
            None => {
                proof {
                    reveal_strlit("");
                }
                ""
            },
        }
    }
}

/// The page of one recipe.
pub struct Recipe {
    search_bar: SearchBar,
    recipe: crate::recipe::Recipe,
    title: String,
}

impl Recipe {
    pub closed spec fn spec_title(&self) -> Seq<char> {
        self.title@
    }

    pub closed spec fn spec_recipe(&self) -> crate::recipe::Recipe {
        self.recipe
    }

    pub closed spec fn spec_query(&self) -> Seq<char> {
        self.search_bar.spec_query()
    }

    /// The page of `recipe`, titled by its title, or "Unknown" without one.
    pub fn new(recipe: crate::recipe::Recipe) -> (r: Self)
        ensures
            r.spec_recipe() == recipe,
            r.spec_query() == Seq::<char>::empty(),
            r.spec_title() == match recipe.spec_title() {
                Some(t) => t,
                None => "Unknown"@,
            },
    {
        let title = match recipe.title() {
            Some(t) => String::from_str(t),
            None => String::from_str("Unknown"),
        };
        Recipe { search_bar: SearchBar::new(None), recipe, title }
    }

    pub fn title(&self) -> (r: &str)
        ensures
            r@ == self.spec_title(),
    {
        self.title.as_str()
    }

    pub fn recipe(&self) -> (r: &crate::recipe::Recipe)
        ensures
            *r == self.spec_recipe(),
    {
        &self.recipe
    }

    pub fn search_bar(&self) -> (r: &SearchBar)
        ensures
            r.spec_query() == self.spec_query(),
    {
        &self.search_bar
    }
}

/// The page of a search: the bar with the query, and what it found.
pub struct Search {
    search_bar: SearchBar,
    results: SearchResult,
}

impl Search {
    pub closed spec fn spec_query(&self) -> Seq<char> {
        self.search_bar.spec_query()
    }

    pub closed spec fn spec_results(&self) -> SearchResult {
        self.results
    }

    pub fn new(query: Option<String>, results: SearchResult) -> (r: Self)
        ensures
            r.spec_results() == results,
            r.spec_query() == match query {
                Some(q) => q@,
                None => Seq::<char>::empty(),
            },
    {
        Search { search_bar: SearchBar::new(query), results }
    }

    /// The page before any search: no query, no results.
    pub fn empty() -> (r: Self)
        ensures
            r.spec_query() == Seq::<char>::empty(),
            r.spec_results().spec_categories().len() == 0,
            r.spec_results().spec_matches().len() == 0,
            r.spec_results().spec_tags().len() == 0,
    {
        Search { search_bar: SearchBar::new(None), results: SearchResult::empty() }
    }

    pub fn search_bar(&self) -> (r: &SearchBar)
        ensures
            r.spec_query() == self.spec_query(),
    {
        &self.search_bar
    }

    pub fn results(&self) -> (r: &SearchResult)
        ensures
            *r == self.spec_results(),
    {
        &self.results
    }

    /// Whether the results span more than one category.
    pub fn has_many_categories(&self) -> (r: bool)
        ensures
            r == (self.spec_results().spec_categories().len() > 1),
    {
        self.results.categories().len() > 1
    }

    /// Whether the results span more than one tag.
    pub fn has_many_tags(&self) -> (r: bool)
        ensures
            r == (self.spec_results().spec_tags().len() > 1),
    {
        self.results.tags().len() > 1
    }

    /// Whether offering filters makes sense: by category or by tag.
    pub fn is_filterable(&self) -> (r: bool)
        ensures
            r == (self.spec_results().spec_categories().len() > 1 || self.spec_results().spec_tags().len() > 1),
    {
        self.has_many_categories() || self.has_many_tags()
    }
}

} // verus!
