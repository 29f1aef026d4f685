use pantry::facets::{Categorizer, Tagger};
use pantry::recipe::Recipe;
use pantry::search::{
    answer, index_ops, reindex_outcome, remove_outcome, search_outcome, search_response, Error,
    Request, Response, SearchResult, DEFAULT_PAGE_SIZE,
};

#[test]
fn search_request_defaults() {
    match Request::search("soup", None, None) {
        Request::Search { query, size, start } => {
            assert_eq!(query, "soup");
            assert_eq!(start, 0);
            assert_eq!(size, DEFAULT_PAGE_SIZE);
            assert_eq!(size, 50);
        }
        _ => panic!("not a search"),
    }
    match Request::search("soup", Some(10), Some(5)) {
        Request::Search { size, start, .. } => {
            assert_eq!((start, size), (10, 5));
        }
        _ => panic!("not a search"),
    }
}

#[test]
fn reindex_request_kinds() {
    assert!(matches!(Request::reindex(None), Request::ReindexAll));
    match Request::reindex(Some(vec![String::from("/r/a.md")])) {
        Request::ReindexSome(p) => assert_eq!(p, vec![String::from("/r/a.md")]),
        _ => panic!("not a partial reindex"),
    }
}

#[test]
fn answers_match_requests() {
    assert!(matches!(answer(&Request::ReindexAll), Some(Response::Reindex)));
    assert!(matches!(answer(&Request::Remove(vec![])), Some(Response::Remove)));
    assert!(answer(&Request::search("x", None, None)).is_none());
    assert!(index_ops(&Request::search("x", None, None), &Vec::new()).is_empty());
    assert_eq!(index_ops(&Request::Remove(vec![String::from("/a")]), &Vec::new()).len(), 1);
    let loaded = vec![(String::from("/a"), Recipe::new(None, String::new()))];
    assert_eq!(index_ops(&Request::ReindexAll, &loaded).len(), 1);
}

#[test]
fn outcomes_check_the_answer() {
    assert!(reindex_outcome(Ok(Response::Reindex)).is_ok());
    assert!(matches!(
        reindex_outcome(Ok(Response::Remove)),
        Err(Error::InvalidResponse(Response::Remove))
    ));
    assert!(remove_outcome(Ok(Response::Remove)).is_ok());
    assert!(matches!(
        remove_outcome(Ok(Response::Reindex)),
        Err(Error::InvalidResponse(Response::Reindex))
    ));
    assert!(matches!(remove_outcome(Err(Error::ChannelRx)), Err(Error::ChannelRx)));
    assert!(matches!(
        search_outcome(Ok(Response::Reindex)),
        Err(Error::InvalidResponse(Response::Reindex))
    ));
    assert!(matches!(
        reindex_outcome(Err(Error::ChannelTx(Request::ReindexAll))),
        Err(Error::ChannelTx(Request::ReindexAll))
    ));
    assert!(matches!(
        search_outcome(Err(Error::Io(String::from("spawn")))),
        Err(Error::Io(_))
    ));
    let found = search_outcome(Ok(Response::Search(SearchResult::empty()))).ok().unwrap();
    assert!(found.matches().is_empty());
}

#[test]
fn search_answer_carries_counts() {
    let mut c = Categorizer::new();
    let mut t = Tagger::new();
    c.observe(Some("A"));
    c.observe(Some("A"));
    c.observe(Some("B"));
    t.observe(Some("x,y"));
    let r = search_response(&c, vec![Recipe::new(None, String::from("<p>a</p>"))], &t);
    match search_outcome(Ok(r)) {
        Ok(res) => {
            let mut cats = res.categories().clone();
            cats.sort();
            assert_eq!(cats, vec![(String::from("A"), 2), (String::from("B"), 1)]);
            assert_eq!(res.tags().len(), 2);
            assert_eq!(res.matches().len(), 1);
            let first = res.into_first().unwrap();
            assert_eq!(first.contents(), "<p>a</p>");
        }
        Err(_) => panic!("a search answer"),
    }
}

#[test]
fn first_of_nothing_is_nothing() {
    assert!(SearchResult::empty().into_first().is_none());
}
