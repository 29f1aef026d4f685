//! Recipes: their metadata and rendered body, and the facts the index reads
//! out of them.
use vstd::prelude::*;
use vstd::string::StringExecFns;
use crate::text::{join, join_strings, views};

verus! {

/// The view of an optional string.
pub open spec fn opt_view(o: Option<String>) -> Option<Seq<char>> {
    match o {
        Some(s) => Some(s@),
        None => None,
    }
}

/// What `slug::slugify` makes of a text.
pub uninterp spec fn slug_of(s: Seq<char>) -> Seq<char>;

/// What the `url` crate reads as the domain of a URL, if it parses and names one.
pub uninterp spec fn url_domain(s: Seq<char>) -> Option<Seq<char>>;

/// For each element of an HTML fragment that a CSS selector matches, in
/// document order, its text nodes.
pub uninterp spec fn selected_texts(html: Seq<char>, selector: Seq<char>) -> Seq<Seq<Seq<char>>>;

/// For each list of an HTML fragment that a CSS selector matches, in document
/// order: the id of its heading, and the text nodes of each of its items.
pub uninterp spec fn section_lists(
    html: Seq<char>,
    selector: Seq<char>,
    item: Seq<char>,
) -> Seq<(Option<Seq<char>>, Seq<Seq<Seq<char>>>)>;

/// A text with its leading and trailing whitespace removed, as `str::trim` does.
pub uninterp spec fn trimmed(s: Seq<char>) -> Seq<char>;

/// Relies on `slug::slugify`: the URL-safe, lower-case, hyphen-joined form of a text.
#[verifier::external_body]
pub(crate) fn slugify(s: &str) -> (r: String)
    ensures
        r@ == slug_of(s@),
{
    slug::slugify(s)
}

/// Relies on `url::Url::parse` and `url::Url::domain`: the domain of a URL
/// that parses and has one.
#[verifier::external_body]
fn domain_of(url: &str) -> (r: Option<String>)
    ensures
        opt_view(r) == url_domain(url@),
{
    url::Url::parse(url).ok().and_then(|u| u.domain().map(String::from))
}

/// The views of a list of lists of strings.
pub open spec fn nested_views(v: Seq<Vec<String>>) -> Seq<Seq<Seq<char>>> {
    v.map_values(|t: Vec<String>| views(t@))
}

/// Relies on `scraper::Html::parse_fragment`, `scraper::Selector::parse` and
/// `ElementRef::text`: the text nodes of each element the selector matches;
/// nothing where the selector does not parse.
#[verifier::external_body]
fn select_texts(html: &str, selector: &str) -> (r: Vec<Vec<String>>)
    ensures
        nested_views(r@) == selected_texts(html@, selector@),
{
    let doc = scraper::Html::parse_fragment(html);
    match scraper::Selector::parse(selector) {
        Ok(sel) => doc.select(&sel).map(|e| e.text().map(String::from).collect()).collect(),
        Err(_) => Vec::new(),
    }
}

pub open spec fn section_views(v: Seq<(Option<String>, Vec<Vec<String>>)>) -> Seq<
    (Option<Seq<char>>, Seq<Seq<Seq<char>>>),
> {
    v.map_values(|s: (Option<String>, Vec<Vec<String>>)| (opt_view(s.0), nested_views(s.1@)))
}

/// Relies on `scraper`: for each list the selector matches, the `id` of the
/// element two siblings before it (its heading, past the whitespace between)
/// and the text nodes of each item; nothing where a selector does not parse.
#[verifier::external_body]
fn select_sections(html: &str, selector: &str, item: &str) -> (r: Vec<(Option<String>, Vec<Vec<String>>)>)
    ensures
        section_views(r@) == section_lists(html@, selector@, item@),
{
    let doc = scraper::Html::parse_fragment(html);
    let (Ok(sel), Ok(li)) = (scraper::Selector::parse(selector), scraper::Selector::parse(item)) else {
        return Vec::new();
    };
    doc.select(&sel).map(|list| {
        let heading = list.prev_siblings().nth(1);
        let id = heading.and_then(|h| h.value().as_element().and_then(|e| e.attr("id")).map(String::from));
        (id, list.select(&li).map(|i| i.text().map(String::from).collect()).collect())
    }).collect()
}

/// The URL that `url::Url::parse_with_params` makes of a base URL and query
/// pairs, if the base parses.
pub uninterp spec fn url_with_params(base: Seq<char>, pairs: Seq<(Seq<char>, Seq<char>)>) -> Option<Seq<char>>;

pub open spec fn pair_views(v: Seq<(String, String)>) -> Seq<(Seq<char>, Seq<char>)> {
    v.map_values(|p: (String, String)| (p.0@, p.1@))
}

/// Relies on `url::Url::parse_with_params`: the base URL with the pairs
/// appended to its query, form-encoded; nothing where the base does not parse.
#[verifier::external_body]
fn with_params(base: &str, pairs: &Vec<(String, String)>) -> (r: Option<String>)
    ensures
        opt_view(r) == url_with_params(base@, pair_views(pairs@)),
{
    url::Url::parse_with_params(base, pairs.iter()).ok().map(String::from)
}

/// Relies on `str::trim`: the text without leading and trailing whitespace.
#[verifier::external_body]
fn trim(s: &str) -> (r: String)
    ensures
        r@ == trimmed(s@),
{
    String::from(s.trim())
}

/// A recipe's category.
pub struct Category(String);

impl Category {
    pub closed spec fn spec_str(&self) -> Seq<char> {
        self.0@
    }

    pub fn new(value: String) -> (r: Self)
        ensures
            r.spec_str() == value@,
    {
        Category(value)
    }

    pub fn as_str(&self) -> (r: &str)
        ensures
            r@ == self.spec_str(),
    {
        self.0.as_str()
    }
}

impl From<String> for Category {
    fn from(value: String) -> (r: Self) {
        Category(value)
    }
}

impl vstd::std_specs::convert::FromSpecImpl<String> for Category {
    open spec fn obeys_from_spec() -> bool {
        true
    }

    closed spec fn from_spec(v: String) -> Self {
        Category(v)
    }
}

/// Where a recipe comes from: a book, or a web page.
pub enum Source {
    Book { title: String, author: String },
    Url { name: String, url: String },
}

impl Source {
    pub open spec fn spec_name(&self) -> Seq<char> {
        match self {
            Source::Book { title, .. } => title@,
            Source::Url { name, .. } => name@,
        }
    }

    /// The domain of a web source's URL, if it has one.
    pub open spec fn spec_domain(&self) -> Option<Seq<char>> {
        match self {
            Source::Book { .. } => None,
            Source::Url { url, .. } => url_domain(url@),
        }
    }

    /// The book's title or the page's name.
    pub fn name(&self) -> (r: &str)
        ensures
            r@ == self.spec_name(),
    {
        match self {
            Source::Book { title, .. } => title.as_str(),
            Source::Url { name, .. } => name.as_str(),
        }
    }

    /// The book's author or the page's URL.
    pub fn attribution(&self) -> (r: &str)
        ensures
            r@ == match self {
                Source::Book { author, .. } => author@,
                Source::Url { url, .. } => url@,
            },
    {
        match self {
            Source::Book { author, .. } => author.as_str(),
            Source::Url { url, .. } => url.as_str(),
        }
    }

    /// A link for the source: the page itself, or a book search for the book.
    pub fn url(&self) -> (r: Option<String>)
        ensures
            opt_view(r) == match self {
                Source::Url { url, .. } => Some(url@),
                Source::Book { title, author } => url_with_params(
                    "https://www.google.com/search"@,
                    seq![("tbm"@, "bks"@), ("q"@, book_query(title@, author@))],
                ),
            },
    {
        match self {
            Source::Url { url, .. } => Some(url.clone()),
            Source::Book { title, author } => {
                let mut q = String::from_str("intitle:\"");
                q.append(title.as_str());
                q.append("\" AND inauthor:\"");
                q.append(author.as_str());
                q.append("\"");
                let mut pairs: Vec<(String, String)> = Vec::new();
                pairs.push((String::from_str("tbm"), String::from_str("bks")));
                pairs.push((String::from_str("q"), q));
                proof {
                    assert(pair_views(pairs@) =~= seq![("tbm"@, "bks"@), ("q"@, book_query(title@, author@))]);
                }
                with_params("https://www.google.com/search", &pairs)
            },
        }
    }

    /// A copy of this source.
    pub fn copied(&self) -> (r: Source)
        ensures
            r == *self,
    {
        match self {
            Source::Book { title, author } => Source::Book { title: title.clone(), author: author.clone() },
            Source::Url { name, url } => Source::Url { name: name.clone(), url: url.clone() },
        }
    }

    pub fn domain(&self) -> (r: Option<String>)
        ensures
            opt_view(r) == self.spec_domain(),
    {
        match self {
            Source::Book { .. } => None,
            Source::Url { url, .. } => domain_of(url.as_str()),
        }
    }
}

/// The book search for a title by an author.
pub open spec fn book_query(title: Seq<char>, author: Seq<char>) -> Seq<char> {
    "intitle:\""@ + title + "\" AND inauthor:\""@ + author + "\""@
}

/// Whether a file or directory name marks it as hidden from the collection:
/// it starts with `.` or `_`.
pub fn is_hidden(name: &str) -> (r: bool)
    ensures
        r == (name@.len() > 0 && (name@[0] == '.' || name@[0] == '_')),
{
    if name.unicode_len() == 0 {
        false
    } else {
        let c = name.get_char(0);
        c == '.' || c == '_'
    }
}

/// The front matter of a recipe.
pub struct MetaData {
    title: String,
    category: Category,
    sources: Vec<Source>,
    tags: Vec<String>,
}

impl MetaData {
    pub closed spec fn spec_title(&self) -> Seq<char> {
        self.title@
    }

    pub closed spec fn spec_category(&self) -> Seq<char> {
        self.category.spec_str()
    }

    pub closed spec fn spec_sources(&self) -> Seq<Source> {
        self.sources@
    }

    pub closed spec fn spec_tags(&self) -> Seq<Seq<char>> {
        views(self.tags@)
    }

    pub fn new(title: String, category: Category, sources: Vec<Source>, tags: Vec<String>) -> (r: Self)
        ensures
            r.spec_title() == title@,
            r.spec_category() == category.spec_str(),
            r.spec_sources() == sources@,
            r.spec_tags() == views(tags@),
    {
        MetaData { title, category, sources, tags }
    }

    pub fn category(&self) -> (r: &Category)
        ensures
            r.spec_str() == self.spec_category(),
    {
        &self.category
    }

    /// The slug of the title, by which the recipe is looked up.
    pub fn slug(&self) -> (r: String)
        ensures
            r@ == slug_of(self.spec_title()),
    {
        slugify(self.title.as_str())
    }

    pub fn sources(&self) -> (r: &Vec<Source>)
        ensures
            r@ == self.spec_sources(),
    {
        &self.sources
    }

    pub fn tags(&self) -> (r: &Vec<String>)
        ensures
            views(r@) == self.spec_tags(),
    {
        &self.tags
    }

    pub fn title(&self) -> (r: &str)
        ensures
            r@ == self.spec_title(),
    {
        self.title.as_str()
    }
}

pub open spec fn newline() -> Seq<char> {
    seq!['\n']
}

/// The text of a rendered body's paragraphs: the text nodes of each joined by
/// a newline, the paragraphs by a blank line.
pub open spec fn description_of(html: Seq<char>) -> Seq<char> {
    join(
        selected_texts(html, seq!['p']).map_values(|p: Seq<Seq<char>>| join(p, newline())),
        newline() + newline(),
    )
}

pub open spec fn directions_name() -> Seq<char> {
    seq!['d', 'i', 'r', 'e', 'c', 't', 'i', 'o', 'n', 's']
}

pub open spec fn ingredients_name() -> Seq<char> {
    seq!['i', 'n', 'g', 'r', 'e', 'd', 'i', 'e', 'n', 't', 's']
}

pub open spec fn item_selector() -> Seq<char> {
    seq!['l', 'i']
}

/// The lists under third-level headings of class `name`.
pub open spec fn section_selector(name: Seq<char>) -> Seq<char> {
    seq!['h', '3', '.'] + name + seq![' ', '+', ' ', 'u', 'l']
}

/// The list under the second-level heading with id `name`.
pub open spec fn unified_selector(name: Seq<char>) -> Seq<char> {
    seq!['h', '2', '#'] + name + seq![' ', '+', ' ', 'u', 'l']
}

/// The items of the list under the second-level heading with id `name`.
pub open spec fn unified_item_selector(name: Seq<char>) -> Seq<char> {
    unified_selector(name) + seq![' ', 'l', 'i']
}

pub open spec fn name_or_empty(name: Option<Seq<char>>) -> Seq<char> {
    match name {
        Some(n) => n,
        None => Seq::empty(),
    }
}

/// One section: its name, then its items, one per line, each item's text
/// nodes run together.
pub open spec fn section_text(s: (Option<Seq<char>>, Seq<Seq<Seq<char>>>)) -> Seq<char> {
    name_or_empty(s.0) + newline() + join(
        s.1.map_values(|t: Seq<Seq<char>>| join(t, Seq::empty())),
        newline(),
    )
}

/// One item of a unified list: its text nodes, each trimmed, run together.
pub open spec fn unified_item_text(t: Seq<Seq<char>>) -> Seq<char> {
    join(t.map_values(|x: Seq<char>| trimmed(x)), Seq::empty())
}

/// A list field of a rendered body: its sections, a blank line between each
/// two, where it has sections of that name; else the items of its list of
/// that name, one per line; else nothing.
pub open spec fn list_field_of(html: Seq<char>, name: Seq<char>) -> Option<Seq<char>> {
    let sections = section_lists(html, section_selector(name), item_selector());
    if sections.len() != 0 {
        Some(join(sections.map_values(|s| section_text(s)), newline() + newline()))
    } else if selected_texts(html, unified_selector(name)).len() != 0 {
        Some(
            join(
                selected_texts(html, unified_item_selector(name)).map_values(
                    |t: Seq<Seq<char>>| unified_item_text(t),
                ),
                newline(),
            ),
        )
    } else {
        None
    }
}

/// Joins each list of strings with `sep`.
fn join_each(parts: &Vec<Vec<String>>, sep: &str) -> (r: Vec<String>)
    ensures
        views(r@) == nested_views(parts@).map_values(|p: Seq<Seq<char>>| join(p, sep@)),
{
    let mut r: Vec<String> = Vec::new();
    let mut i: usize = 0;
    while i < parts.len()
        invariant
            i <= parts@.len(),
            views(r@) == nested_views(parts@).take(i as int).map_values(
                |p: Seq<Seq<char>>| join(p, sep@),
            ),
        decreases parts@.len() - i,
    {
        let line = join_strings(&parts[i], sep);
        let ghost before = r@;
        r.push(line);
        proof {
            assert(views(r@) =~= views(before).push(line@));
            assert(nested_views(parts@).take(i as int + 1) =~= nested_views(parts@).take(
                i as int,
            ).push(views(parts@[i as int]@)));
        }
        i = i + 1;
    }
    proof {
        assert(nested_views(parts@).take(parts@.len() as int) =~= nested_views(parts@));
    }
    r
}

/// Builds `head` + `name` + `tail`.
fn surround(head: &str, name: &str, tail: &str) -> (r: String)
    ensures
        r@ == head@ + name@ + tail@,
{
    let mut r = String::from_str(head);
    r.append(name);
    r.append(tail);
    r
}

/// Trims each text node of each item and runs an item's nodes together.
fn unified_items(items: &Vec<Vec<String>>) -> (r: Vec<String>)
    ensures
        views(r@) == nested_views(items@).map_values(|t: Seq<Seq<char>>| unified_item_text(t)),
{
    let mut r: Vec<String> = Vec::new();
    let mut i: usize = 0;
    while i < items.len()
        invariant
            i <= items@.len(),
            views(r@) == nested_views(items@).take(i as int).map_values(
                |t: Seq<Seq<char>>| unified_item_text(t),
            ),
        decreases items@.len() - i,
    {
        let nodes = &items[i];
        let mut trimmed_nodes: Vec<String> = Vec::new();
        let mut j: usize = 0;
        while j < nodes.len()
            invariant
                j <= nodes@.len(),
                views(trimmed_nodes@) == views(nodes@).take(j as int).map_values(
                    |x: Seq<char>| trimmed(x),
                ),
            decreases nodes@.len() - j,
        {
            let t = trim(nodes[j].as_str());
            let ghost before = trimmed_nodes@;
            trimmed_nodes.push(t);
            proof {
                assert(views(trimmed_nodes@) =~= views(before).push(t@));
                assert(views(nodes@).take(j as int + 1) =~= views(nodes@).take(j as int).push(
                    nodes@[j as int]@,
                ));
            }
            j = j + 1;
        }
        proof {
            assert(views(nodes@).take(nodes@.len() as int) =~= views(nodes@));
        }
        let line = join_strings(&trimmed_nodes, "");
        let ghost before = r@;
        r.push(line);
        proof {
            reveal_strlit("");
            assert(""@ =~= Seq::<char>::empty());
            assert(views(r@) =~= views(before).push(line@));
            assert(nested_views(items@).take(i as int + 1) =~= nested_views(items@).take(
                i as int,
            ).push(views(items@[i as int]@)));
        }
        i = i + 1;
    }
    proof {
        assert(nested_views(items@).take(items@.len() as int) =~= nested_views(items@));
    }
    r
}

/// Writes each section as its name, then its items one per line.
fn section_texts(sections: &Vec<(Option<String>, Vec<Vec<String>>)>) -> (r: Vec<String>)
    ensures
        views(r@) == section_views(sections@).map_values(
            |s: (Option<Seq<char>>, Seq<Seq<Seq<char>>>)| section_text(s),
        ),
{
    let mut r: Vec<String> = Vec::new();
    let mut i: usize = 0;
    while i < sections.len()
        invariant
            i <= sections@.len(),
            views(r@) == section_views(sections@).take(i as int).map_values(
                |s: (Option<Seq<char>>, Seq<Seq<Seq<char>>>)| section_text(s),
            ),
        decreases sections@.len() - i,
    {
        let items = join_each(&sections[i].1, "");
        let body = join_strings(&items, "\n");
        let mut text = match &sections[i].0 {
            Some(name) => name.clone(),
            None => String::new(),
        };
        text.append("\n");
        text.append(body.as_str());
        let ghost before = r@;
        r.push(text);
        proof {
            reveal_strlit("");
            reveal_strlit("\n");
            assert(""@ =~= Seq::<char>::empty());
            assert("\n"@ =~= newline());
            assert(views(r@) =~= views(before).push(text@));
            assert(section_views(sections@).take(i as int + 1) =~= section_views(sections@).take(
                i as int,
            ).push(section_views(sections@)[i as int]));
        }
        i = i + 1;
    }
    proof {
        assert(section_views(sections@).take(sections@.len() as int) =~= section_views(sections@));
    }
    r
}

/// A recipe: its front matter, if it had any, and its body rendered to HTML.
pub struct Recipe {
    metadata: Option<MetaData>,
    contents: String,
}

impl Recipe {
    pub closed spec fn spec_metadata(&self) -> Option<MetaData> {
        self.metadata
    }

    pub closed spec fn spec_contents(&self) -> Seq<char> {
        self.contents@
    }

    pub open spec fn spec_title(&self) -> Option<Seq<char>> {
        match self.spec_metadata() {
            Some(md) => Some(md.spec_title()),
            None => None,
        }
    }

    pub fn new(metadata: Option<MetaData>, contents: String) -> (r: Self)
        ensures
            r.spec_metadata() == metadata,
            r.spec_contents() == contents@,
    {
        Recipe { metadata, contents }
    }

    pub fn contents(&self) -> (r: &str)
        ensures
            r@ == self.spec_contents(),
    {
        self.contents.as_str()
    }

    pub fn metadata(&self) -> (r: Option<&MetaData>)
        ensures
            r == match self.spec_metadata() {
                Some(md) => Some(&md),
                None => None::<&MetaData>,
            },
    {
        match &self.metadata {
            Some(md) => Some(md),
            None => None,
        }
    }

    pub fn category(&self) -> (r: Option<&Category>)
        ensures
            match self.spec_metadata() {
                Some(md) => r matches Some(c) && c.spec_str() == md.spec_category(),
                None => r is None,
            },
    {
        match &self.metadata {
            Some(md) => Some(md.category()),
            None => None,
        }
    }

    pub fn title(&self) -> (r: Option<&str>)
        ensures
            match r {
                Some(t) => self.spec_title() == Some(t@),
                None => self.spec_title() is None,
            },
    {
        match &self.metadata {
            Some(md) => Some(md.title()),
            None => None,
        }
    }

    /// The sources of the recipe; none without front matter.
    pub fn sources(&self) -> (r: Vec<Source>)
        ensures
            r@ == match self.spec_metadata() {
                Some(md) => md.spec_sources(),
                None => Seq::empty(),
            },
    {
        let mut r: Vec<Source> = Vec::new();
        if let Some(md) = &self.metadata {
            let all = md.sources();
            let mut i: usize = 0;
            while i < all.len()
                invariant
                    i <= all@.len(),
                    r@ == all@.take(i as int),
                decreases all@.len() - i,
            {
                r.push(all[i].copied());
                proof {
                    assert(all@.take(i as int + 1) =~= all@.take(i as int).push(all@[i as int]));
                }
                i = i + 1;
            }
            proof {
                assert(all@.take(all@.len() as int) =~= all@);
            }
        }
        r
    }

    /// The tags of the recipe; none without front matter.
    pub fn tags(&self) -> (r: Vec<String>)
        ensures
            views(r@) == match self.spec_metadata() {
                Some(md) => md.spec_tags(),
                None => Seq::empty(),
            },
    {
        let mut r: Vec<String> = Vec::new();
        if let Some(md) = &self.metadata {
            let all = md.tags();
            let mut i: usize = 0;
            while i < all.len()
                invariant
                    i <= all@.len(),
                    views(r@) == views(all@).take(i as int),
                decreases all@.len() - i,
            {
                let ghost before = r@;
                r.push(all[i].clone());
                proof {
                    assert(views(r@) =~= views(before).push(all@[i as int]@));
                    assert(views(all@).take(i as int + 1) =~= views(all@).take(i as int).push(
                        all@[i as int]@,
                    ));
                }
                i = i + 1;
            }
            proof {
                assert(views(all@).take(all@.len() as int) =~= views(all@));
            }
        }
        proof {
            assert(views(r@) =~= views(r@));
        }
        r
    }

    /// The text of the body's paragraphs.
    pub fn description(&self) -> (r: String)
        ensures
            r@ == description_of(self.spec_contents()),
    {
        let paragraphs = select_texts(self.contents.as_str(), "p");
        let lines = join_each(&paragraphs, "\n");
        proof {
            reveal_strlit("p");
            reveal_strlit("\n");
            reveal_strlit("\n\n");
            assert("p"@ =~= seq!['p']);
            assert("\n"@ =~= newline());
            assert("\n\n"@ =~= newline() + newline());
        }
        join_strings(&lines, "\n\n")
    }

    /// The list field called `name`, sectioned or unified.
    fn list_field(&self, name: &str) -> (r: Option<String>)
        ensures
            opt_view(r) == list_field_of(self.spec_contents(), name@),
    {
        proof {
            reveal_strlit("h3.");
            reveal_strlit("h2#");
            reveal_strlit(" + ul");
            reveal_strlit(" + ul li");
            reveal_strlit("li");
            reveal_strlit("\n");
            reveal_strlit("\n\n");
            assert("li"@ =~= item_selector());
            assert("\n"@ =~= newline());
            assert("\n\n"@ =~= newline() + newline());
            assert("h3."@ + name@ + " + ul"@ =~= section_selector(name@));
            assert("h2#"@ + name@ + " + ul"@ =~= unified_selector(name@));
            assert("h2#"@ + name@ + " + ul li"@ =~= unified_item_selector(name@));
        }
        let html = self.contents.as_str();
        let sections = select_sections(html, surround("h3.", name, " + ul").as_str(), "li");
        if sections.len() != 0 {
            let texts = section_texts(&sections);
            Some(join_strings(&texts, "\n\n"))
        } else {
            let lists = select_texts(html, surround("h2#", name, " + ul").as_str());
            if lists.len() != 0 {
                let items = select_texts(html, surround("h2#", name, " + ul li").as_str());
                let lines = unified_items(&items);
                Some(join_strings(&lines, "\n"))
            } else {
                None
            }
        }
    }

    /// The directions: a section per part, or one list.
    pub fn directions(&self) -> (r: Option<String>)
        ensures
            opt_view(r) == list_field_of(self.spec_contents(), directions_name()),
    {
        proof {
            reveal_strlit("directions");
            assert("directions"@ =~= directions_name());
        }
        self.list_field("directions")
    }

    /// The ingredients: a section per part, or one list.
    pub fn ingredients(&self) -> (r: Option<String>)
        ensures
            opt_view(r) == list_field_of(self.spec_contents(), ingredients_name()),
    {
        proof {
            reveal_strlit("ingredients");
            assert("ingredients"@ =~= ingredients_name());
        }
        self.list_field("ingredients")
    }
}

} // verus!
