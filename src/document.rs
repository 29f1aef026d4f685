//! The document the index engine stores for a recipe, the operations that
//! put documents into the engine and take them out, and the engine's table of
//! documents by key as those operations leave it.
use vstd::prelude::*;
use vstd::string::StringExecFns;
use crate::recipe::{
    description_of, directions_name, ingredients_name, list_field_of, slug_of, MetaData, Recipe,
    Source,
};
use crate::text::{join, join_strings, views};

verus! {

pub open spec fn id_prefix() -> Seq<char> {
    seq!['I', ':']
}

pub open spec fn slug_prefix() -> Seq<char> {
    seq!['Q', ':']
}

pub open spec fn title_prefix() -> Seq<char> {
    seq!['S', ':']
}

pub open spec fn category_prefix() -> Seq<char> {
    seq!['X', 'C', ':']
}

pub open spec fn source_prefix() -> Seq<char> {
    seq!['X', 'S', ':']
}

pub open spec fn site_prefix() -> Seq<char> {
    seq!['X', 'D', ':']
}

pub open spec fn tag_prefix() -> Seq<char> {
    seq!['X', 'T', ':']
}

pub open spec fn description_prefix() -> Seq<char> {
    seq!['D', ':']
}

pub open spec fn ingredient_prefix() -> Seq<char> {
    seq!['X', 'I', ':']
}

pub open spec fn direction_prefix() -> Seq<char> {
    seq!['X', 'P', ':']
}

/// The key of the document for the file at `path`.
pub open spec fn key_of(path: Seq<char>) -> Seq<char> {
    id_prefix() + path
}

/// The boolean term that finds a document by its slug.
pub open spec fn slug_term_of(slug: Seq<char>) -> Seq<char> {
    slug_prefix() + slug
}

/// A text to index: its prefix, the text, and whether a gap in term
/// positions follows it (so that phrases do not run into the next field).
pub type TextView = (Seq<char>, Seq<char>, bool);

pub open spec fn text_views(v: Seq<(String, String, bool)>) -> Seq<TextView> {
    v.map_values(|t: (String, String, bool)| (t.0@, t.1@, t.2))
}

/// What the engine keeps of one document.
pub struct DocumentView {
    pub key: Seq<char>,
    pub slug_term: Option<Seq<char>>,
    pub filters: Seq<Seq<char>>,
    pub texts: Seq<TextView>,
    pub category: Option<Seq<char>>,
    pub tags: Option<Seq<char>>,
}

pub open spec fn source_texts(s: Source) -> Seq<TextView> {
    seq![(source_prefix(), s.spec_name(), true)] + match s.spec_domain() {
        Some(d) => seq![(site_prefix(), d, true)],
        None => Seq::empty(),
    }
}

pub open spec fn sources_texts(s: Seq<Source>) -> Seq<TextView>
    decreases s.len(),
{
    if s.len() == 0 {
        Seq::empty()
    } else {
        sources_texts(s.drop_last()) + source_texts(s.last())
    }
}

pub open spec fn domain_filters(s: Seq<Source>) -> Seq<Seq<char>>
    decreases s.len(),
{
    if s.len() == 0 {
        Seq::empty()
    } else {
        domain_filters(s.drop_last()) + match s.last().spec_domain() {
            Some(d) => seq![site_prefix() + d],
            None => Seq::empty(),
        }
    }
}

/// The exact-match terms of the front matter: the category, each source's
/// domain and each tag, under their prefixes.
pub open spec fn metadata_filters(md: MetaData) -> Seq<Seq<char>> {
    seq![category_prefix() + md.spec_category()] + domain_filters(md.spec_sources())
        + md.spec_tags().map_values(|t: Seq<char>| tag_prefix() + t)
}

pub open spec fn tag_texts(tags: Seq<Seq<char>>) -> Seq<TextView> {
    tags.map_values(|t: Seq<char>| (tag_prefix(), t, true))
}

/// The texts the front matter gives: the title twice (unprefixed, for
/// relevance, and under its own prefix), the category, each source's name and
/// domain, each tag.
pub open spec fn metadata_texts(md: MetaData) -> Seq<TextView> {
    seq![
        (Seq::empty(), md.spec_title(), false),
        (title_prefix(), md.spec_title(), true),
        (category_prefix(), md.spec_category(), true),
    ] + sources_texts(md.spec_sources()) + tag_texts(md.spec_tags())
}

pub open spec fn optional_text(prefix: Seq<char>, text: Option<Seq<char>>) -> Seq<TextView> {
    match text {
        Some(t) => seq![(prefix, t, true)],
        None => Seq::empty(),
    }
}

/// The texts the rendered body gives: its description, then its ingredients
/// and directions where it has them.
pub open spec fn body_texts(html: Seq<char>) -> Seq<TextView> {
    seq![(description_prefix(), description_of(html), true)] + optional_text(
        ingredient_prefix(),
        list_field_of(html, ingredients_name()),
    ) + optional_text(direction_prefix(), list_field_of(html, directions_name()))
}

/// The document for the recipe read from the file at `path`. A recipe
/// without tags leaves the tag slot empty, which the engine does not store,
/// so that facet counts never see an empty tag.
pub open spec fn document_of(path: Seq<char>, r: Recipe) -> DocumentView {
    match r.spec_metadata() {
        Some(md) => DocumentView {
            key: key_of(path),
            slug_term: Some(slug_term_of(slug_of(md.spec_title()))),
            filters: metadata_filters(md),
            texts: metadata_texts(md) + body_texts(r.spec_contents()),
            category: Some(md.spec_category()),
            tags: if md.spec_tags().len() == 0 {
                None
            } else {
                Some(join(md.spec_tags(), seq![',']))
            },
        },
        None => DocumentView {
            key: key_of(path),
            slug_term: None,
            filters: Seq::empty(),
            texts: body_texts(r.spec_contents()),
            category: None,
            tags: None,
        },
    }
}

/// A document ready for the engine: the boolean terms, texts and facet
/// slots of one recipe.
pub struct Document {
    key: String,
    slug_term: Option<String>,
    filters: Vec<String>,
    texts: Vec<(String, String, bool)>,
    category: Option<String>,
    tags: Option<String>,
}

impl View for Document {
    type V = DocumentView;

    closed spec fn view(&self) -> DocumentView {
        DocumentView {
            key: self.key@,
            slug_term: crate::recipe::opt_view(self.slug_term),
            filters: views(self.filters@),
            texts: text_views(self.texts@),
            category: crate::recipe::opt_view(self.category),
            tags: crate::recipe::opt_view(self.tags),
        }
    }
}

/// Appends `prefix` + `text`, followed by a position gap or not.
fn push_text(texts: &mut Vec<(String, String, bool)>, prefix: &str, text: String, gap: bool)
    ensures
        text_views(final(texts)@) == text_views(old(texts)@).push((prefix@, text@, gap)),
{
    let ghost before = texts@;
    texts.push((String::from_str(prefix), text, gap));
    proof {
        assert(text_views(texts@) =~= text_views(before).push((prefix@, text@, gap)));
    }
}

impl Document {
    /// The key of the document for the file at `path`.
    pub fn key_for(path: &str) -> (r: String)
        ensures
            r@ == key_of(path@),
    {
        proof {
            reveal_strlit("I:");
            assert("I:"@ =~= id_prefix());
        }
        let mut k = String::from_str("I:");
        k.append(path);
        k
    }

    pub fn key(&self) -> (r: &str)
        ensures
            r@ == self@.key,
    {
        self.key.as_str()
    }

    pub fn slug_term(&self) -> (r: Option<&str>)
        ensures
            match r {
                Some(t) => self@.slug_term == Some(t@),
                None => self@.slug_term is None,
            },
    {
        match &self.slug_term {
            Some(t) => Some(t.as_str()),
            None => None,
        }
    }

    /// The exact-match terms besides the key and the slug term.
    pub fn filters(&self) -> (r: &Vec<String>)
        ensures
            views(r@) == self@.filters,
    {
        &self.filters
    }

    /// The texts to index, in order.
    pub fn texts(&self) -> (r: &Vec<(String, String, bool)>)
        ensures
            text_views(r@) == self@.texts,
    {
        &self.texts
    }

    /// The value of the category slot.
    pub fn category(&self) -> (r: Option<&str>)
        ensures
            match r {
                Some(t) => self@.category == Some(t@),
                None => self@.category is None,
            },
    {
        match &self.category {
            Some(t) => Some(t.as_str()),
            None => None,
        }
    }

    /// The value of the tag slot: the tags joined by commas.
    pub fn tags(&self) -> (r: Option<&str>)
        ensures
            match r {
                Some(t) => self@.tags == Some(t@),
                None => self@.tags is None,
            },
    {
        match &self.tags {
            Some(t) => Some(t.as_str()),
            None => None,
        }
    }

    /// Builds the document for `recipe`, read from the file at `path`.
    pub fn new(path: &str, recipe: &Recipe) -> (r: Document)
        ensures
            r@ == document_of(path@, *recipe),
    {
        proof {
            reveal_strlit("");
            reveal_strlit("Q:");
            reveal_strlit("S:");
            reveal_strlit("XC:");
            reveal_strlit("XS:");
            reveal_strlit("XD:");
            reveal_strlit("XT:");
            reveal_strlit("D:");
            reveal_strlit("XI:");
            reveal_strlit("XP:");
            reveal_strlit(",");
            assert(""@ =~= Seq::<char>::empty());
            assert("Q:"@ =~= slug_prefix());
            assert("S:"@ =~= title_prefix());
            assert("XC:"@ =~= category_prefix());
            assert("XS:"@ =~= source_prefix());
            assert("XD:"@ =~= site_prefix());
            assert("XT:"@ =~= tag_prefix());
            assert("D:"@ =~= description_prefix());
            assert("XI:"@ =~= ingredient_prefix());
            assert("XP:"@ =~= direction_prefix());
            assert(","@ =~= seq![',']);
        }
        let key = Document::key_for(path);
        let mut texts: Vec<(String, String, bool)> = Vec::new();
        let mut slug_term: Option<String> = None;
        let mut filters: Vec<String> = Vec::new();
        let mut category: Option<String> = None;
        let mut tags: Option<String> = None;
        if let Some(md) = recipe.metadata() {
            let mut q = String::from_str("Q:");
            q.append(md.slug().as_str());
            slug_term = Some(q);
            push_text(&mut texts, "", String::from_str(md.title()), false);
            push_text(&mut texts, "S:", String::from_str(md.title()), true);
            push_text(&mut texts, "XC:", String::from_str(md.category().as_str()), true);
            category = Some(String::from_str(md.category().as_str()));
            Document::push_sources(&mut texts, md.sources());
            filters = Document::filters_for(md);
            Document::push_tags(&mut texts, md.tags());
            if md.tags().len() > 0 {
                tags = Some(join_strings(md.tags(), ","));
            }
            proof {
                assert(text_views(texts@) =~= metadata_texts(*md));
            }
        } else {
            proof {
                assert(views(filters@) =~= Seq::<Seq<char>>::empty());
            }
        }
        let ghost head = text_views(texts@);
        push_text(&mut texts, "D:", recipe.description(), true);
        if let Some(ingredients) = recipe.ingredients() {
            push_text(&mut texts, "XI:", ingredients, true);
        }
        if let Some(directions) = recipe.directions() {
            push_text(&mut texts, "XP:", directions, true);
        }
        proof {
            assert(text_views(texts@) =~= head + body_texts(recipe.spec_contents()));
        }
        Document { key, slug_term, filters, texts, category, tags }
    }

    fn filters_for(md: &MetaData) -> (r: Vec<String>)
        ensures
            views(r@) == metadata_filters(*md),
    {
        proof {
            reveal_strlit("XC:");
            reveal_strlit("XD:");
            reveal_strlit("XT:");
            assert("XC:"@ =~= category_prefix());
        }
        let mut r: Vec<String> = Vec::new();
        let mut c = String::from_str("XC:");
        c.append(md.category().as_str());
        r.push(c);
        proof {
            assert(views(r@) =~= seq![category_prefix() + md.spec_category()]);
        }
        let ghost head = views(r@);
        let sources = md.sources();
        let mut i: usize = 0;
        proof {
            assert(sources@.take(0) =~= Seq::<Source>::empty());
            assert(head + domain_filters(Seq::<Source>::empty()) =~= head);
        }
        while i < sources.len()
            invariant
                i <= sources@.len(),
                views(r@) == head + domain_filters(sources@.take(i as int)),
                "XD:"@ == site_prefix(),
            decreases sources@.len() - i,
        {
            proof {
                assert(sources@.take(i as int + 1).drop_last() =~= sources@.take(i as int));
            }
            let ghost mid = views(r@);
            if let Some(d) = sources[i].domain() {
                let mut term = String::from_str("XD:");
                term.append(d.as_str());
                r.push(term);
                proof {
                    assert(views(r@) =~= mid + seq![site_prefix() + d@]);
                }
            } else {
                proof {
                    assert(views(r@) =~= mid + Seq::<Seq<char>>::empty());
                }
            }
            proof {
                assert(head + domain_filters(sources@.take(i as int + 1)) =~= views(r@));
            }
            i = i + 1;
        }
        proof {
            assert(sources@.take(sources@.len() as int) =~= sources@);
        }
        let ghost mid = views(r@);
        let tags = md.tags();
        let mut j: usize = 0;
        while j < tags.len()
            invariant
                j <= tags@.len(),
                views(r@) == mid + views(tags@).take(j as int).map_values(|t: Seq<char>| tag_prefix() + t),
                "XT:"@ == tag_prefix(),
            decreases tags@.len() - j,
        {
            let mut term = String::from_str("XT:");
            term.append(tags[j].as_str());
            let ghost before = views(r@);
            r.push(term);
            proof {
                assert(views(r@) =~= before.push(term@));
                assert(views(tags@).take(j as int + 1).map_values(|t: Seq<char>| tag_prefix() + t) =~= views(tags@).take(j as int).map_values(|t: Seq<char>| tag_prefix() + t).push(tag_prefix() + tags@[j as int]@));
            }
            j = j + 1;
        }
        proof {
            assert(views(tags@).take(tags@.len() as int) =~= views(tags@));
            assert(views(r@) =~= metadata_filters(*md));
        }
        r
    }

    fn push_sources(texts: &mut Vec<(String, String, bool)>, sources: &Vec<Source>)
        ensures
            text_views(final(texts)@) == text_views(old(texts)@) + sources_texts(sources@),
    {
        proof {
            reveal_strlit("XS:");
            reveal_strlit("XD:");
            assert("XS:"@ =~= source_prefix());
            assert("XD:"@ =~= site_prefix());
        }
        let ghost start = text_views(texts@);
        let mut i: usize = 0;
        proof {
            assert(sources@.take(0) =~= Seq::<Source>::empty());
            assert(start + sources_texts(Seq::<Source>::empty()) =~= start);
        }
        while i < sources.len()
            invariant
                i <= sources@.len(),
                text_views(texts@) == start + sources_texts(sources@.take(i as int)),
                "XS:"@ == source_prefix(),
                "XD:"@ == site_prefix(),
            decreases sources@.len() - i,
        {
            let src = &sources[i];
            proof {
                assert(sources@.take(i as int + 1).drop_last() =~= sources@.take(i as int));
            }
            let ghost mid = text_views(texts@);
            push_text(texts, "XS:", String::from_str(src.name()), true);
            let ghost named = text_views(texts@);
            let d = src.domain();
            if let Some(domain) = d {
                push_text(texts, "XD:", domain, true);
                proof {
                    assert(text_views(texts@) =~= named.push((site_prefix(), domain@, true)));
                }
            }
            proof {
                assert(named =~= mid + seq![(source_prefix(), src.spec_name(), true)]);
                assert(text_views(texts@) =~= mid + source_texts(*src));
                assert(start + sources_texts(sources@.take(i as int + 1)) =~= mid + source_texts(*src));
            }
            i = i + 1;
        }
        proof {
            assert(sources@.take(sources@.len() as int) =~= sources@);
        }
    }

    fn push_tags(texts: &mut Vec<(String, String, bool)>, tags: &Vec<String>)
        ensures
            text_views(final(texts)@) == text_views(old(texts)@) + tag_texts(views(tags@)),
    {
        proof {
            reveal_strlit("XT:");
            assert("XT:"@ =~= tag_prefix());
        }
        let ghost start = text_views(texts@);
        let mut i: usize = 0;
        while i < tags.len()
            invariant
                i <= tags@.len(),
                text_views(texts@) == start + tag_texts(views(tags@).take(i as int)),
                "XT:"@ == tag_prefix(),
            decreases tags@.len() - i,
        {
            let ghost mid = text_views(texts@);
            push_text(texts, "XT:", tags[i].clone(), true);
            proof {
                assert(text_views(texts@) =~= start + tag_texts(views(tags@).take(i as int)).push(
                    (tag_prefix(), tags@[i as int]@, true),
                ));
                assert(tag_texts(views(tags@).take(i as int + 1)) =~= tag_texts(views(tags@).take(i as int)).push(
                    (tag_prefix(), tags@[i as int]@, true),
                ));
            }
            i = i + 1;
        }
        proof {
            assert(views(tags@).take(tags@.len() as int) =~= views(tags@));
        }
    }
}

/// A change to the engine's documents.
pub enum IndexOp {
    /// Store the document, superseding any with the same key.
    Replace(Document),
    /// Drop the document with this key, if there is one.
    Delete(String),
}

pub enum IndexOpView {
    Replace(DocumentView),
    Delete(Seq<char>),
}

impl View for IndexOp {
    type V = IndexOpView;

    open spec fn view(&self) -> IndexOpView {
        match self {
            IndexOp::Replace(d) => IndexOpView::Replace(d@),
            IndexOp::Delete(k) => IndexOpView::Delete(k@),
        }
    }
}

/// The engine's documents, by key.
pub type Table = Map<Seq<char>, DocumentView>;

pub open spec fn apply_op(t: Table, op: IndexOpView) -> Table {
    match op {
        IndexOpView::Replace(d) => t.insert(d.key, d),
        IndexOpView::Delete(k) => t.remove(k),
    }
}

/// The table after `ops`, in order.
pub open spec fn apply_ops(t: Table, ops: Seq<IndexOpView>) -> Table
    decreases ops.len(),
{
    if ops.len() == 0 {
        t
    } else {
        apply_op(apply_ops(t, ops.drop_last()), ops.last())
    }
}

pub open spec fn op_views(v: Seq<IndexOp>) -> Seq<IndexOpView> {
    v.map_values(|o: IndexOp| o@)
}

/// The operations that index each loaded file.
pub open spec fn replace_ops(files: Seq<(String, Recipe)>) -> Seq<IndexOpView> {
    files.map_values(|f: (String, Recipe)| IndexOpView::Replace(document_of(f.0@, f.1)))
}

/// The operations that drop the document of each path.
pub open spec fn delete_ops(paths: Seq<String>) -> Seq<IndexOpView> {
    paths.map_values(|p: String| IndexOpView::Delete(key_of(p@)))
}

/// Every document is stored under its own key.
pub open spec fn consistent(t: Table) -> bool {
    forall|k: Seq<char>| #[trigger] t.contains_key(k) ==> t[k].key == k
}

/// The documents of the table that come from the file at `path`.
pub open spec fn documents_from(t: Table, path: Seq<char>) -> Set<Seq<char>> {
    t.dom().filter(|k: Seq<char>| t[k].key == key_of(path))
}

/// The operations that index the loaded files: one replacement each.
pub fn reindex_ops(files: &Vec<(String, Recipe)>) -> (r: Vec<IndexOp>)
    ensures
        op_views(r@) == replace_ops(files@),
{
    let mut r: Vec<IndexOp> = Vec::new();
    let mut i: usize = 0;
    while i < files.len()
        invariant
            i <= files@.len(),
            op_views(r@) == replace_ops(files@.take(i as int)),
        decreases files@.len() - i,
    {
        let doc = Document::new(files[i].0.as_str(), &files[i].1);
        let ghost before = r@;
        r.push(IndexOp::Replace(doc));
        proof {
            assert(op_views(r@) =~= op_views(before).push(IndexOpView::Replace(doc@)));
            assert(replace_ops(files@.take(i as int + 1)) =~= replace_ops(files@.take(i as int)).push(
                IndexOpView::Replace(document_of(files@[i as int].0@, files@[i as int].1)),
            ));
        }
        i = i + 1;
    }
    proof {
        assert(files@.take(files@.len() as int) =~= files@);
    }
    r
}

/// The operations that drop the documents of `paths`: one deletion each.
pub fn remove_ops(paths: &Vec<String>) -> (r: Vec<IndexOp>)
    ensures
        op_views(r@) == delete_ops(paths@),
{
    let mut r: Vec<IndexOp> = Vec::new();
    let mut i: usize = 0;
    while i < paths.len()
        invariant
            i <= paths@.len(),
            op_views(r@) == delete_ops(paths@.take(i as int)),
        decreases paths@.len() - i,
    {
        let key = Document::key_for(paths[i].as_str());
        let ghost before = r@;
        r.push(IndexOp::Delete(key));
        proof {
            assert(op_views(r@) =~= op_views(before).push(IndexOpView::Delete(key@)));
            assert(delete_ops(paths@.take(i as int + 1)) =~= delete_ops(paths@.take(i as int)).push(
                IndexOpView::Delete(key_of(paths@[i as int]@)),
            ));
        }
        i = i + 1;
    }
    proof {
        assert(paths@.take(paths@.len() as int) =~= paths@);
    }
    r
}

pub open spec fn all_replace(ops: Seq<IndexOpView>) -> bool {
    forall|i: int| 0 <= i < ops.len() ==> #[trigger] ops[i] is Replace
}

proof fn lemma_replace_is_union(t: Table, ops: Seq<IndexOpView>)
    requires
        all_replace(ops),
    ensures
        apply_ops(t, ops) == t.union_prefer_right(apply_ops(Map::empty(), ops)),
    decreases ops.len(),
{
    if ops.len() == 0 {
        assert(t.union_prefer_right(Map::<Seq<char>, DocumentView>::empty()) =~= t);
    } else {
        let prev = ops.drop_last();
        assert(all_replace(prev)) by {
            assert forall|i: int| 0 <= i < prev.len() implies #[trigger] prev[i] is Replace by {
                assert(prev[i] == ops[i]);
            }
        }
        lemma_replace_is_union(t, prev);
        assert(ops[ops.len() - 1] is Replace);
        assert(apply_ops(t, ops) =~= t.union_prefer_right(apply_ops(Map::empty(), ops)));
    }
}

/// Reindexing the same files twice leaves the same documents as doing it
/// once: the second pass replaces each document with an identical one. Since
/// a search reads nothing but the stored documents, both passes give the same
/// results and the same facet counts.
pub proof fn reindexing_twice_changes_nothing(t: Table, files: Seq<(String, Recipe)>)
    ensures
        apply_ops(apply_ops(t, replace_ops(files)), replace_ops(files)) == apply_ops(
            t,
            replace_ops(files),
        ),
{
    let ops = replace_ops(files);
    assert(all_replace(ops));
    lemma_replace_is_union(t, ops);
    lemma_replace_is_union(apply_ops(t, ops), ops);
    let m = apply_ops(Map::empty(), ops);
    assert(t.union_prefer_right(m).union_prefer_right(m) =~= t.union_prefer_right(m));
}

/// Key of a path and path of a key agree: distinct files have distinct keys.
pub proof fn keys_are_distinct(p: Seq<char>, q: Seq<char>)
    ensures
        key_of(p) == key_of(q) <==> p == q,
{
    if key_of(p) == key_of(q) {
        assert(p =~= key_of(p).subrange(2, key_of(p).len() as int));
        assert(q =~= key_of(q).subrange(2, key_of(q).len() as int));
    }
}

/// Indexing a file stores exactly one document for it, the new one, and
/// leaves every other document as it was.
pub proof fn replacing_keeps_one_document(t: Table, path: Seq<char>, r: Recipe)
    requires
        consistent(t),
    ensures
        ({
            let t2 = apply_op(t, IndexOpView::Replace(document_of(path, r)));
            &&& consistent(t2)
            &&& documents_from(t2, path) == set![key_of(path)]
            &&& t2[key_of(path)] == document_of(path, r)
            &&& forall|k: Seq<char>| k != key_of(path) ==> (#[trigger] t2.contains_key(k) <==> t.contains_key(k))
            &&& forall|k: Seq<char>| k != key_of(path) && #[trigger] t2.contains_key(k) ==> t2[k] == t[k]
        }),
{
    let t2 = apply_op(t, IndexOpView::Replace(document_of(path, r)));
    assert(documents_from(t2, path) =~= set![key_of(path)]);
}

/// After the documents of `paths` are dropped, no document of the table comes
/// from any of them; the others stay as they were.
pub proof fn removing_leaves_no_document(t: Table, paths: Seq<String>)
    requires
        consistent(t),
    ensures
        consistent(apply_ops(t, delete_ops(paths))),
        forall|i: int|
            0 <= i < paths.len() ==> documents_from(apply_ops(t, delete_ops(paths)), #[trigger] paths[i]@)
                == Set::<Seq<char>>::empty(),
        forall|k: Seq<char>|
            #[trigger] apply_ops(t, delete_ops(paths)).contains_key(k) ==> t.contains_key(k)
                && apply_ops(t, delete_ops(paths))[k] == t[k],
    decreases paths.len(),
{
    if paths.len() > 0 {
        let prev = paths.drop_last();
        assert(delete_ops(paths).drop_last() =~= delete_ops(prev));
        removing_leaves_no_document(t, prev);
        let t1 = apply_ops(t, delete_ops(prev));
        let t2 = apply_ops(t, delete_ops(paths));
        assert(t2 == t1.remove(key_of(paths.last()@)));
        assert forall|i: int| 0 <= i < paths.len() implies documents_from(t2, #[trigger] paths[i]@)
            == Set::<Seq<char>>::empty() by {
            if i < paths.len() - 1 {
                assert(prev[i] == paths[i]);
                assert(documents_from(t1, prev[i]@) == Set::<Seq<char>>::empty());
                assert(documents_from(t2, paths[i]@) =~= Set::<Seq<char>>::empty()) by {
                    assert forall|k: Seq<char>| !documents_from(t2, paths[i]@).contains(k) by {
                        if t2.contains_key(k) && t2[k].key == key_of(paths[i]@) {
                            assert(documents_from(t1, prev[i]@).contains(k));
                        }
                    }
                }
            } else {
                assert(documents_from(t2, paths[i]@) =~= Set::<Seq<char>>::empty());
            }
        }
    }
}

/// The documents of the table that carry the slug term of `slug`.
pub open spec fn documents_with_slug(t: Table, slug: Seq<char>) -> Set<Seq<char>> {
    t.dom().filter(|k: Seq<char>| t[k].slug_term == Some(slug_term_of(slug)))
}

/// The slug of a loaded file's title, if it has front matter.
pub open spec fn slug_of_file(f: (String, Recipe)) -> Option<Seq<char>> {
    match f.1.spec_metadata() {
        Some(md) => Some(slug_of(md.spec_title())),
        None => None,
    }
}

proof fn lemma_slug_terms_distinct(a: Seq<char>, b: Seq<char>)
    ensures
        slug_term_of(a) == slug_term_of(b) ==> a == b,
{
    if slug_term_of(a) == slug_term_of(b) {
        assert(a =~= slug_term_of(a).subrange(2, slug_term_of(a).len() as int));
        assert(b =~= slug_term_of(b).subrange(2, slug_term_of(b).len() as int));
    }
}

proof fn lemma_slug_prefix(t: Table, files: Seq<(String, Recipe)>, i: int, n: int)
    requires
        0 <= i < files.len(),
        0 <= n <= files.len(),
        slug_of_file(files[i]) is Some,
        documents_with_slug(t, slug_of_file(files[i])->0).subset_of(set![key_of(files[i].0@)]),
        forall|j: int| 0 <= j < files.len() && j != i ==> slug_of_file(#[trigger] files[j]) != slug_of_file(files[i]),
        forall|j: int| 0 <= j < files.len() && j != i ==> (#[trigger] files[j]).0@ != files[i].0@,
    ensures
        ({
            let s = slug_of_file(files[i])->0;
            let ki = key_of(files[i].0@);
            let tn = apply_ops(t, replace_ops(files.take(n)));
            &&& documents_with_slug(tn, s).subset_of(set![ki])
            &&& n > i ==> documents_with_slug(tn, s) == set![ki]
            &&& n > i ==> tn[ki] == document_of(files[i].0@, files[i].1)
        }),
    decreases n,
{
    let s = slug_of_file(files[i])->0;
    let ki = key_of(files[i].0@);
    if n == 0 {
        assert(replace_ops(files.take(0)) =~= Seq::<IndexOpView>::empty());
    } else {
        let m = n - 1;
        lemma_slug_prefix(t, files, i, m);
        let tm = apply_ops(t, replace_ops(files.take(m)));
        let ops = replace_ops(files.take(n));
        assert(ops.drop_last() =~= replace_ops(files.take(m)));
        let d = document_of(files[m].0@, files[m].1);
        assert(ops.last() == IndexOpView::Replace(d));
        let t1 = apply_ops(t, ops);
        assert(t1 == tm.insert(d.key, d));
        let km = key_of(files[m].0@);
        keys_are_distinct(files[m].0@, files[i].0@);
        if m == i {
            assert(documents_with_slug(t1, s) =~= set![ki]);
        } else {
            assert(km != ki);
            match files[m].1.spec_metadata() {
                Some(md) => {
                    lemma_slug_terms_distinct(slug_of(md.spec_title()), s);
                },
                None => {},
            }
            assert(d.slug_term != Some(slug_term_of(s)));
            assert(documents_with_slug(t1, s) =~= documents_with_slug(tm, s).remove(km));
        }
    }
}

/// Once the files are indexed, the slug of a title that no other file's title
/// shares finds exactly one document: the one of that file. Before, at most
/// that file's own older document may carry the slug.
pub proof fn slug_finds_one_document(t: Table, files: Seq<(String, Recipe)>, i: int)
    requires
        0 <= i < files.len(),
        slug_of_file(files[i]) is Some,
        documents_with_slug(t, slug_of_file(files[i])->0).subset_of(set![key_of(files[i].0@)]),
        forall|j: int| 0 <= j < files.len() && j != i ==> slug_of_file(#[trigger] files[j]) != slug_of_file(files[i]),
        forall|j: int| 0 <= j < files.len() && j != i ==> (#[trigger] files[j]).0@ != files[i].0@,
    ensures
        documents_with_slug(apply_ops(t, replace_ops(files)), slug_of_file(files[i])->0) == set![
            key_of(files[i].0@),
        ],
        apply_ops(t, replace_ops(files))[key_of(files[i].0@)] == document_of(files[i].0@, files[i].1),
{
    lemma_slug_prefix(t, files, i, files.len() as int);
    assert(files.take(files.len() as int) =~= files);
}

} // verus!
