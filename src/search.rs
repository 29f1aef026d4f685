//! The protocol of the index worker: what callers ask, what it answers, how
//! a caller checks an answer, and the query language it understands.
use vstd::prelude::*;
use vstd::string::StringExecFns;
use crate::document::{delete_ops, op_views, reindex_ops, remove_ops, replace_ops, IndexOp, IndexOpView};
use crate::facets::{lists_counts, Categorizer, Tagger};
use crate::recipe::Recipe;

verus! {

/// Number of documents a search returns when the caller names no page size.
pub const DEFAULT_PAGE_SIZE: u32 = 50;

/// One request to the index worker.
pub enum Request {
    /// Index every recipe file under the recipe directory.
    ReindexAll,
    /// Index the files at these paths.
    ReindexSome(Vec<String>),
    /// Drop the documents of these paths.
    Remove(Vec<String>),
    /// Run a query, returning `size` results from offset `start`.
    Search { query: String, size: u32, start: u32 },
}

/// What a search found: the page of recipes, and the category and tag
/// counts over every match.
pub struct SearchResult {
    categories: Vec<(String, usize)>,
    matches: Vec<Recipe>,
    tags: Vec<(String, usize)>,
}

/// The worker's answer to one request.
pub enum Response {
    Reindex,
    Remove,
    Search(SearchResult),
}

/// Why a call to the index failed.
pub enum Error {
    /// The worker is gone: no answer can come.
    ChannelRx,
    /// The worker is gone: the request could not be handed over.
    ChannelTx(Request),
    /// The answer does not belong to the request.
    InvalidResponse(Response),
    /// The worker could not be started.
    Io(String),
}

impl SearchResult {
    pub closed spec fn spec_categories(&self) -> Seq<(String, usize)> {
        self.categories@
    }

    pub closed spec fn spec_matches(&self) -> Seq<Recipe> {
        self.matches@
    }

    pub closed spec fn spec_tags(&self) -> Seq<(String, usize)> {
        self.tags@
    }

    pub fn new(
        categories: Vec<(String, usize)>,
        matches: Vec<Recipe>,
        tags: Vec<(String, usize)>,
    ) -> (r: Self)
        ensures
            r.spec_categories() == categories@,
            r.spec_matches() == matches@,
            r.spec_tags() == tags@,
    {
        SearchResult { categories, matches, tags }
    }

    /// A result with no matches and no counts.
    pub fn empty() -> (r: Self)
        ensures
            r.spec_categories().len() == 0,
            r.spec_matches().len() == 0,
            r.spec_tags().len() == 0,
    {
        SearchResult { categories: Vec::new(), matches: Vec::new(), tags: Vec::new() }
    }

    pub fn categories(&self) -> (r: &Vec<(String, usize)>)
        ensures
            r@ == self.spec_categories(),
    {
        &self.categories
    }

    pub fn matches(&self) -> (r: &Vec<Recipe>)
        ensures
            r@ == self.spec_matches(),
    {
        &self.matches
    }

    pub fn tags(&self) -> (r: &Vec<(String, usize)>)
        ensures
            r@ == self.spec_tags(),
    {
        &self.tags
    }

    /// The first recipe found, if any.
    pub fn into_first(self) -> (r: Option<Recipe>)
        ensures
            self.spec_matches().len() == 0 ==> r is None,
            self.spec_matches().len() > 0 ==> r == Some(self.spec_matches()[0]),
    {
        let mut matches = self.matches;
        if matches.len() == 0 {
            None
        } else {
            Some(matches.remove(0))
        }
    }
}

impl Request {
    /// The request that reindexes `paths`, or everything when no paths are given.
    pub fn reindex(paths: Option<Vec<String>>) -> (r: Request)
        ensures
            r == match paths {
                Some(p) => Request::ReindexSome(p),
                None => Request::ReindexAll,
            },
    {
        match paths {
            Some(p) => Request::ReindexSome(p),
            None => Request::ReindexAll,
        }
    }

    /// The request for a page of results of `query`; the page starts at 0
    /// and holds `DEFAULT_PAGE_SIZE` results unless the caller says otherwise.
    pub fn search(query: &str, start: Option<u32>, size: Option<u32>) -> (r: Request)
        ensures
            r matches Request::Search { query: q, size: n, start: s } && q@ == query@
                && s == match start {
                Some(v) => v,
                None => 0,
            } && n == match size {
                Some(v) => v,
                None => DEFAULT_PAGE_SIZE,
            },
    {
        let start = match start {
            Some(v) => v,
            None => 0,
        };
        let size = match size {
            Some(v) => v,
            None => DEFAULT_PAGE_SIZE,
        };
        Request::Search { query: String::from_str(query), size, start }
    }
}

/// The changes to the index that a request makes, given the files the worker
/// could read and parse for it.
pub open spec fn ops_for(req: Request, loaded: Seq<(String, Recipe)>) -> Seq<IndexOpView> {
    match req {
        Request::ReindexAll => replace_ops(loaded),
        Request::ReindexSome(_) => replace_ops(loaded),
        Request::Remove(paths) => delete_ops(paths@),
        Request::Search { .. } => Seq::empty(),
    }
}

/// The answer to a request that changes the index; a search is answered
/// with its results instead.
pub open spec fn answer_for(req: Request) -> Option<Response> {
    match req {
        Request::ReindexAll => Some(Response::Reindex),
        Request::ReindexSome(_) => Some(Response::Reindex),
        Request::Remove(_) => Some(Response::Remove),
        Request::Search { .. } => None,
    }
}

/// The changes the worker makes to the index for `req`. `loaded` holds the
/// files it could read and parse for the request, each with its path; a file
/// that could not be read is skipped.
pub fn index_ops(req: &Request, loaded: &Vec<(String, Recipe)>) -> (r: Vec<IndexOp>)
    ensures
        op_views(r@) == ops_for(*req, loaded@),
{
    match req {
        Request::ReindexAll => reindex_ops(loaded),
        Request::ReindexSome(_) => reindex_ops(loaded),
        Request::Remove(paths) => remove_ops(paths),
        Request::Search { .. } => {
            let r: Vec<IndexOp> = Vec::new();
            proof {
                assert(op_views(r@) =~= Seq::<IndexOpView>::empty());
            }
            r
        },
    }
}

/// The worker's answer once the changes of `req` are made.
pub fn answer(req: &Request) -> (r: Option<Response>)
    ensures
        r == answer_for(*req),
{
    match req {
        Request::ReindexAll => Some(Response::Reindex),
        Request::ReindexSome(_) => Some(Response::Reindex),
        Request::Remove(_) => Some(Response::Remove),
        Request::Search { .. } => None,
    }
}

/// The answer to a search: the page of recipes found, with the counts the
/// collectors gathered over every match.
pub fn search_response(categorizer: &Categorizer, matches: Vec<Recipe>, tagger: &Tagger) -> (r: Response)
    requires
        categorizer.wf(),
        tagger.wf(),
    ensures
        r matches Response::Search(res) && lists_counts(res.spec_categories(), categorizer@)
            && res.spec_matches() == matches@ && lists_counts(res.spec_tags(), tagger@),
{
    Response::Search(SearchResult::new(categorizer.facets(), matches, tagger.facets()))
}

/// What a caller of a reindex makes of the answer.
pub open spec fn reindex_result(r: Result<Response, Error>) -> Result<(), Error> {
    match r {
        Ok(Response::Reindex) => Ok(()),
        Ok(other) => Err(Error::InvalidResponse(other)),
        Err(e) => Err(e),
    }
}

/// What a caller of a removal makes of the answer.
pub open spec fn remove_result(r: Result<Response, Error>) -> Result<(), Error> {
    match r {
        Ok(Response::Remove) => Ok(()),
        Ok(other) => Err(Error::InvalidResponse(other)),
        Err(e) => Err(e),
    }
}

/// Checks the answer to a reindex.
pub fn reindex_outcome(r: Result<Response, Error>) -> (out: Result<(), Error>)
    ensures
        out == reindex_result(r),
{
    match r {
        Ok(Response::Reindex) => Ok(()),
        Ok(other) => Err(Error::InvalidResponse(other)),
        Err(e) => Err(e),
    }
}

/// Checks the answer to a removal.
pub fn remove_outcome(r: Result<Response, Error>) -> (out: Result<(), Error>)
    ensures
        out == remove_result(r),
{
    match r {
        Ok(Response::Remove) => Ok(()),
        Ok(other) => Err(Error::InvalidResponse(other)),
        Err(e) => Err(e),
    }
}

/// Checks the answer to a search and takes its results.
pub fn search_outcome(r: Result<Response, Error>) -> (out: Result<SearchResult, Error>)
    ensures
        out == match r {
            Ok(Response::Search(res)) => Ok(res),
            Ok(other) => Err(Error::InvalidResponse(other)),
            Err(e) => Err(e),
        },
{
    match r {
        Ok(Response::Search(res)) => Ok(res),
        Ok(other) => Err(Error::InvalidResponse(other)),
        Err(e) => Err(e),
    }
}

/// Removing succeeds whatever the paths: the worker answers every removal
/// with `Remove`, also for a path that was never indexed, and the caller
/// takes that answer as success.
pub proof fn removal_always_succeeds(paths: Vec<String>)
    ensures
        answer_for(Request::Remove(paths)) == Some(Response::Remove),
        remove_result(Ok(Response::Remove)) is Ok,
{
}

/// The query that finds the recipe with this slug.
pub fn slug_query(slug: &str) -> (r: String)
    ensures
        r@ == "slug:"@ + slug@,
{
    let mut q = String::from_str("slug:");
    q.append(slug);
    q
}

/// How a query keyword maps to an index prefix: the prefix, and whether the
/// field is matched exactly (`true`) or as stemmed text (`false`).
pub open spec fn query_prefix_table() -> Seq<(Seq<char>, Seq<char>, bool)> {
    seq![
        ("desc"@, "D:"@, false),
        ("description"@, "D:"@, false),
        ("ingredient"@, "XI:"@, false),
        ("ingredients"@, "XI:"@, false),
        ("step"@, "XP:"@, false),
        ("steps"@, "XP:"@, false),
        ("direction"@, "XP:"@, false),
        ("directions"@, "XP:"@, false),
        ("name"@, "S:"@, false),
        ("title"@, "S:"@, false),
        ("source"@, "XS:"@, false),
        ("category"@, "XC:"@, true),
        ("tag"@, "XT:"@, true),
        ("slug"@, "Q:"@, true),
        ("site"@, "XD:"@, true),
    ]
}

pub open spec fn prefix_views(v: Seq<(String, String, bool)>) -> Seq<(Seq<char>, Seq<char>, bool)> {
    v.map_values(|e: (String, String, bool)| (e.0@, e.1@, e.2))
}

fn push_prefix(v: &mut Vec<(String, String, bool)>, keyword: &str, prefix: &str, exact: bool)
    ensures
        prefix_views(final(v)@) == prefix_views(old(v)@).push((keyword@, prefix@, exact)),
{
    let ghost before = v@;
    v.push((String::from_str(keyword), String::from_str(prefix), exact));
    proof {
        assert(prefix_views(v@) =~= prefix_views(before).push((keyword@, prefix@, exact)));
    }
}

/// The field prefixes of the query language, for the query parser.
pub fn query_prefixes() -> (r: Vec<(String, String, bool)>)
    ensures
        prefix_views(r@) == query_prefix_table(),
{
    let mut r: Vec<(String, String, bool)> = Vec::new();
    push_prefix(&mut r, "desc", "D:", false);
    push_prefix(&mut r, "description", "D:", false);
    push_prefix(&mut r, "ingredient", "XI:", false);
    push_prefix(&mut r, "ingredients", "XI:", false);
    push_prefix(&mut r, "step", "XP:", false);
    push_prefix(&mut r, "steps", "XP:", false);
    push_prefix(&mut r, "direction", "XP:", false);
    push_prefix(&mut r, "directions", "XP:", false);
    push_prefix(&mut r, "name", "S:", false);
    push_prefix(&mut r, "title", "S:", false);
    push_prefix(&mut r, "source", "XS:", false);
    push_prefix(&mut r, "category", "XC:", true);
    push_prefix(&mut r, "tag", "XT:", true);
    push_prefix(&mut r, "slug", "Q:", true);
    push_prefix(&mut r, "site", "XD:", true);
    proof {
        assert(prefix_views(r@) =~= query_prefix_table());
    }
    r
}

} // verus!
