//! File-change events and the index requests that keep the index current.
use vstd::prelude::*;
use crate::document::{
    apply_ops, consistent, document_of, documents_from, key_of, keys_are_distinct,
    removing_leaves_no_document, replacing_keeps_one_document, Table,
};
use crate::recipe::Recipe;
use crate::search::{ops_for, Request};

verus! {

/// The kinds of file-system change the watcher reports.
pub enum ChangeKind {
    /// A file was closed after being opened.
    Closed,
    /// A file was created.
    FileCreated,
    /// A file was renamed: the change names the old path, then the new one.
    Renamed,
    /// A file was deleted.
    FileRemoved,
    /// Anything else: directory changes, metadata changes, opens.
    Other,
}

/// What the index must do about some files.
pub enum Event {
    /// These files are new or changed.
    Update(Vec<String>),
    /// These files are gone.
    Remove(Vec<String>),
}

impl Event {
    pub open spec fn spec_paths(&self) -> Seq<String> {
        match self {
            Event::Update(p) => p@,
            Event::Remove(p) => p@,
        }
    }

    /// The events for one change of the file system, in the order in which
    /// they must be handled; none for a change the index does not care about.
    /// A rename is a removal of the old path followed by an update of the new.
    pub fn new(kind: ChangeKind, paths: Vec<String>) -> (r: Option<Vec<Event>>)
        requires
            kind is Renamed ==> paths@.len() >= 2,
        ensures
            match kind {
                ChangeKind::Closed | ChangeKind::FileCreated => r matches Some(v) && v@.len() == 1
                    && v@[0] is Update && v@[0].spec_paths() == paths@,
                ChangeKind::Renamed => r matches Some(v) && v@.len() == 2 && v@[0] is Remove
                    && v@[0].spec_paths() == seq![paths@[0]] && v@[1] is Update
                    && v@[1].spec_paths() == seq![paths@[1]],
                ChangeKind::FileRemoved => r matches Some(v) && v@.len() == 1 && v@[0] is Remove
                    && v@[0].spec_paths() == paths@,
                ChangeKind::Other => r is None,
            },
    {
        match kind {
            ChangeKind::Closed | ChangeKind::FileCreated => Some(vec![Event::Update(paths)]),
            ChangeKind::Renamed => {
                let from = paths[0].clone();
                let to = paths[1].clone();
                let removed = vec![from];
                let updated = vec![to];
                proof {
                    assert(removed@ =~= seq![paths@[0]]);
                    assert(updated@ =~= seq![paths@[1]]);
                }
                Some(vec![Event::Remove(removed), Event::Update(updated)])
            },
            ChangeKind::FileRemoved => Some(vec![Event::Remove(paths)]),
            ChangeKind::Other => None,
        }
    }

    /// The request this event makes of the index.
    pub fn into_request(self) -> (r: Request)
        ensures
            r == request_of(self),
    {
        match self {
            Event::Update(paths) => Request::ReindexSome(paths),
            Event::Remove(paths) => Request::Remove(paths),
        }
    }
}

pub open spec fn request_of(e: Event) -> Request {
    match e {
        Event::Update(paths) => Request::ReindexSome(paths),
        Event::Remove(paths) => Request::Remove(paths),
    }
}

/// Handling the two events of a rename, removal first, with the renamed file
/// read afresh for the update, leaves no document from the old path and one
/// document from the new path, built from the file's content.
pub proof fn renaming_moves_the_document(
    t: Table,
    removal: Event,
    update: Event,
    from: String,
    to: String,
    recipe: Recipe,
)
    requires
        consistent(t),
        removal is Remove,
        removal.spec_paths() == seq![from],
        update is Update,
        update.spec_paths() == seq![to],
        from@ != to@,
    ensures
        ({
            let t1 = apply_ops(t, ops_for(request_of(removal), Seq::empty()));
            let t2 = apply_ops(t1, ops_for(request_of(update), seq![(to, recipe)]));
            &&& consistent(t2)
            &&& documents_from(t2, from@) == Set::<Seq<char>>::empty()
            &&& documents_from(t2, to@) == set![key_of(to@)]
            &&& t2[key_of(to@)] == document_of(to@, recipe)
        }),
{
    let ops1 = ops_for(request_of(removal), Seq::empty());
    assert(ops1 == crate::document::delete_ops(seq![from]));
    let t1 = apply_ops(t, ops1);
    removing_leaves_no_document(t, seq![from]);
    assert(documents_from(t1, seq![from][0]@) == Set::<Seq<char>>::empty());
    let ops2 = ops_for(request_of(update), seq![(to, recipe)]);
    assert(ops2 == crate::document::replace_ops(seq![(to, recipe)]));
    assert(ops2.len() == 1);
    assert(ops2.last() == crate::document::IndexOpView::Replace(document_of(to@, recipe)));
    assert(ops2.drop_last() =~= Seq::empty());
    assert(apply_ops(t1, ops2.drop_last()) == t1);
    let t2 = apply_ops(t1, ops2);
    assert(t2 == crate::document::apply_op(t1, crate::document::IndexOpView::Replace(document_of(to@, recipe))));
    replacing_keeps_one_document(t1, to@, recipe);
    keys_are_distinct(from@, to@);
    assert(documents_from(t2, from@) =~= Set::<Seq<char>>::empty()) by {
        assert forall|k: Seq<char>| !documents_from(t2, from@).contains(k) by {
            if t2.contains_key(k) && t2[k].key == key_of(from@) {
                assert(k != key_of(to@));
                assert(documents_from(t1, from@).contains(k));
            }
        }
    }
}

} // verus!
