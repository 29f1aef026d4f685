use pantry::search::Request;
use pantry::watch::{ChangeKind, Event};

fn paths(e: &Event) -> Vec<String> {
    match e {
        Event::Update(p) | Event::Remove(p) => p.clone(),
    }
}

#[test]
fn rename_is_removal_then_update() {
    let evs = Event::new(
        ChangeKind::Renamed,
        vec![String::from("/r/old.md"), String::from("/r/new.md")],
    )
    .unwrap();
    assert_eq!(evs.len(), 2);
    assert!(matches!(evs[0], Event::Remove(_)));
    assert_eq!(paths(&evs[0]), vec![String::from("/r/old.md")]);
    assert!(matches!(evs[1], Event::Update(_)));
    assert_eq!(paths(&evs[1]), vec![String::from("/r/new.md")]);
    let reqs: Vec<Request> = evs.into_iter().map(Event::into_request).collect();
    assert!(matches!(&reqs[0], Request::Remove(p) if p == &vec![String::from("/r/old.md")]));
    assert!(matches!(&reqs[1], Request::ReindexSome(p) if p == &vec![String::from("/r/new.md")]));
}

#[test]
fn create_and_close_update() {
    for kind in [ChangeKind::FileCreated, ChangeKind::Closed] {
        let evs = Event::new(kind, vec![String::from("/r/a.md")]).unwrap();
        assert_eq!(evs.len(), 1);
        assert!(matches!(evs[0], Event::Update(_)));
    }
}

#[test]
fn delete_removes_and_others_are_dropped() {
    let evs = Event::new(ChangeKind::FileRemoved, vec![String::from("/r/a.md")]).unwrap();
    assert_eq!(evs.len(), 1);
    assert!(matches!(evs[0], Event::Remove(_)));
    assert!(Event::new(ChangeKind::Other, vec![String::from("/r")]).is_none());
}
