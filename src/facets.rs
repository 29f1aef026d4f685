//! Facet counters: per-query tallies of one document attribute.
use vstd::prelude::*;
use crate::text::{lemma_split_on_len, split_at_char, split_on, views};

verus! {

/// `m` with the count of `k` raised by one (a new key starts at one).
pub open spec fn bump(m: Map<Seq<char>, nat>, k: Seq<char>) -> Map<Seq<char>, nat> {
    m.insert(k, if m.contains_key(k) { m[k] + 1 } else { 1 })
}

/// `m` after counting each of `vs`, in order.
pub open spec fn tally_into(m: Map<Seq<char>, nat>, vs: Seq<Seq<char>>) -> Map<Seq<char>, nat>
    decreases vs.len(),
{
    if vs.len() == 0 {
        m
    } else {
        bump(tally_into(m, vs.drop_last()), vs.last())
    }
}

/// How many of `vs` equal `v`.
pub open spec fn occurrences(vs: Seq<Seq<char>>, v: Seq<char>) -> nat
    decreases vs.len(),
{
    if vs.len() == 0 {
        0
    } else {
        occurrences(vs.drop_last(), v) + if vs.last() == v { 1nat } else { 0nat }
    }
}

/// The values a facet counts for one document: the category slot as it
/// stands, the tag slot cut at its commas; an absent slot gives none.
pub open spec fn category_values(slot: Option<Seq<char>>) -> Seq<Seq<char>> {
    match slot {
        Some(v) => seq![v],
        None => Seq::empty(),
    }
}

pub open spec fn tag_values(slot: Option<Seq<char>>) -> Seq<Seq<char>> {
    match slot {
        Some(v) => split_on(v, ','),
        None => Seq::empty(),
    }
}

/// A listing of counts: one pair per key of `m`, with its count.
pub open spec fn lists_counts(v: Seq<(String, usize)>, m: Map<Seq<char>, nat>) -> bool {
    &&& forall|i: int|
        0 <= i < v.len() ==> #[trigger] m.contains_key(v[i].0@) && m[v[i].0@] == v[i].1 as nat
    &&& forall|k: Seq<char>| m.contains_key(k) ==> exists|i: int| 0 <= i < v.len() && #[trigger] v[i].0@ == k
    &&& forall|i: int, j: int| 0 <= i < j < v.len() ==> v[i].0@ != v[j].0@
}

/// A map from values to how often they were seen.
pub struct FacetCounts {
    entries: Vec<(String, usize)>,
    observed: usize,
    counts: Ghost<Map<Seq<char>, nat>>,
}

impl View for FacetCounts {
    type V = Map<Seq<char>, nat>;

    closed spec fn view(&self) -> Map<Seq<char>, nat> {
        self.counts@
    }
}

impl FacetCounts {
    pub closed spec fn wf(&self) -> bool {
        &&& lists_counts(self.entries@, self.counts@)
        &&& forall|i: int| 0 <= i < self.entries@.len() ==> #[trigger] self.entries@[i].1 <= self.observed
    }

    /// How many values were counted since the last reset.
    pub closed spec fn spec_observed(&self) -> nat {
        self.observed as nat
    }

    pub fn new() -> (r: Self)
        ensures
            r.wf(),
            r@ == Map::<Seq<char>, nat>::empty(),
            r.spec_observed() == 0,
    {
        FacetCounts { entries: Vec::new(), observed: 0, counts: Ghost(Map::empty()) }
    }

    pub fn observed(&self) -> (r: usize)
        ensures
            r == self.spec_observed(),
    {
        self.observed
    }

    /// Forgets every count.
    pub fn clear(&mut self)
        ensures
            final(self).wf(),
            final(self)@ == Map::<Seq<char>, nat>::empty(),
            final(self).spec_observed() == 0,
    {
        self.entries = Vec::new();
        self.observed = 0;
        self.counts = Ghost(Map::empty());
    }

    /// Counts one more occurrence of `value`.
    pub fn count(&mut self, value: &str)
        requires
            old(self).wf(),
            old(self).spec_observed() < usize::MAX,
        ensures
            final(self).wf(),
            final(self)@ == bump(old(self)@, value@),
            final(self).spec_observed() == old(self).spec_observed() + 1,
    {
        let n = self.entries.len();
        let wanted = String::from_str(value);
        let mut i: usize = 0;
        while i < n
            invariant
                *self == *old(self),
                wanted@ == value@,
                n == self.entries@.len(),
                i <= n,
                self.wf(),
                self.observed < usize::MAX,
                forall|j: int| 0 <= j < i ==> self.entries@[j].0@ != value@,
            decreases n - i,
        {
            if self.entries[i].0 == wanted {
                let c = self.entries[i].1;
                let key = self.entries[i].0.clone();
                let ghost before = self.entries@;
                self.entries.set(i, (key, c + 1));
                self.observed = self.observed + 1;
                self.counts = Ghost(bump(self.counts@, value@));
                proof {
                    assert forall|k: Seq<char>| self.counts@.contains_key(k) implies exists|j: int|
                        0 <= j < self.entries@.len() && #[trigger] self.entries@[j].0@ == k by {
                        if k != value@ {
                            let j = choose|j: int| 0 <= j < before.len() && #[trigger] before[j].0@ == k;
                            assert(self.entries@[j].0@ == k);
                        } else {
                            assert(self.entries@[i as int].0@ == k);
                        }
                    }
                }
                return;
            }
            i = i + 1;
        }
        let ghost before = self.entries@;
        self.entries.push((wanted, 1));
        self.observed = self.observed + 1;
        self.counts = Ghost(bump(self.counts@, value@));
        proof {
            assert forall|k: Seq<char>| self.counts@.contains_key(k) implies exists|j: int|
                0 <= j < self.entries@.len() && #[trigger] self.entries@[j].0@ == k by {
                if k != value@ {
                    let j = choose|j: int| 0 <= j < before.len() && #[trigger] before[j].0@ == k;
                    assert(self.entries@[j].0@ == k);
                } else {
                    assert(self.entries@[n as int].0@ == k);
                }
            }
        }
    }

    /// The counts, one pair per value.
    pub fn to_vec(&self) -> (r: Vec<(String, usize)>)
        requires
            self.wf(),
        ensures
            lists_counts(r@, self@),
    {
        let mut r: Vec<(String, usize)> = Vec::new();
        let mut i: usize = 0;
        while i < self.entries.len()
            invariant
                self.wf(),
                i <= self.entries@.len(),
                r@.len() == i,
                forall|j: int| 0 <= j < i ==> (#[trigger] r@[j]).0@ == self.entries@[j].0@ && r@[j].1 == self.entries@[j].1,
            decreases self.entries@.len() - i,
        {
            let key = String::from_str(self.entries[i].0.as_str());
            r.push((key, self.entries[i].1));
            i = i + 1;
        }
        proof {
            assert forall|k: Seq<char>| self@.contains_key(k) implies exists|j: int| 0 <= j < r@.len() && #[trigger] r@[j].0@ == k by {
                let j = choose|j: int| 0 <= j < self.entries@.len() && #[trigger] self.entries@[j].0@ == k;
                assert(r@[j].0@ == k);
            }
            assert forall|a: int| 0 <= a < r@.len() implies #[trigger] self@.contains_key(r@[a].0@) && self@[r@[a].0@] == r@[a].1 as nat by {
                assert(self.entries@[a].0@ == r@[a].0@);
            }
        }
        r
    }
}

/// The view of an optional text slot.
pub open spec fn slot_view(slot: Option<&str>) -> Option<Seq<char>> {
    match slot {
        Some(s) => Some(s@),
        None => None,
    }
}

/// Counts the categories of the documents a query visits.
pub struct Categorizer {
    counts: FacetCounts,
}

impl View for Categorizer {
    type V = Map<Seq<char>, nat>;

    closed spec fn view(&self) -> Map<Seq<char>, nat> {
        self.counts@
    }
}

impl Categorizer {
    pub closed spec fn wf(&self) -> bool {
        self.counts.wf()
    }

    pub closed spec fn spec_observed(&self) -> nat {
        self.counts.spec_observed()
    }

    pub fn new() -> (r: Self)
        ensures
            r.wf(),
            r@ == Map::<Seq<char>, nat>::empty(),
            r.spec_observed() == 0,
    {
        Categorizer { counts: FacetCounts::new() }
    }

    /// The counts gathered since the last reset, one pair per category.
    pub fn facets(&self) -> (r: Vec<(String, usize)>)
        requires
            self.wf(),
        ensures
            lists_counts(r@, self@),
    {
        self.counts.to_vec()
    }

    pub fn reset(&mut self)
        ensures
            final(self).wf(),
            final(self)@ == Map::<Seq<char>, nat>::empty(),
            final(self).spec_observed() == 0,
    {
        self.counts.clear();
    }

    /// How many values were counted since the last reset.
    pub fn observed(&self) -> (r: usize)
        ensures
            r == self.spec_observed(),
    {
        self.counts.observed()
    }

    /// Counts the category slot of one visited document.
    pub fn observe(&mut self, slot: Option<&str>)
        requires
            old(self).wf(),
            old(self).spec_observed() < usize::MAX,
        ensures
            final(self).wf(),
            final(self)@ == match slot {
                Some(v) => bump(old(self)@, v@),
                None => old(self)@,
            },
            final(self)@ == tally_into(old(self)@, category_values(slot_view(slot))),
            final(self).spec_observed() == old(self).spec_observed() + category_values(
                slot_view(slot),
            ).len(),
    {
        if let Some(value) = slot {
            proof {
                let vs = category_values(slot_view(slot));
                assert(vs.drop_last() =~= Seq::<Seq<char>>::empty());
                assert(tally_into(self@, vs.drop_last()) == self@);
                assert(vs.last() == value@);
            }
            self.counts.count(value);
        }
    }
}

/// Counts the tags of the documents a query visits.
pub struct Tagger {
    counts: FacetCounts,
}

impl View for Tagger {
    type V = Map<Seq<char>, nat>;

    closed spec fn view(&self) -> Map<Seq<char>, nat> {
        self.counts@
    }
}

impl Tagger {
    pub closed spec fn wf(&self) -> bool {
        self.counts.wf()
    }

    pub closed spec fn spec_observed(&self) -> nat {
        self.counts.spec_observed()
    }

    pub fn new() -> (r: Self)
        ensures
            r.wf(),
            r@ == Map::<Seq<char>, nat>::empty(),
            r.spec_observed() == 0,
    {
        Tagger { counts: FacetCounts::new() }
    }

    /// The counts gathered since the last reset, one pair per tag.
    pub fn facets(&self) -> (r: Vec<(String, usize)>)
        requires
            self.wf(),
        ensures
            lists_counts(r@, self@),
    {
        self.counts.to_vec()
    }

    pub fn reset(&mut self)
        ensures
            final(self).wf(),
            final(self)@ == Map::<Seq<char>, nat>::empty(),
            final(self).spec_observed() == 0,
    {
        self.counts.clear();
    }

    /// How many values were counted since the last reset.
    pub fn observed(&self) -> (r: usize)
        ensures
            r == self.spec_observed(),
    {
        self.counts.observed()
    }

    /// Counts each comma-separated tag in the tag slot of one visited document.
    pub fn observe(&mut self, slot: Option<&str>)
        requires
            old(self).wf(),
            slot matches Some(s) ==> old(self).spec_observed() + s@.len() < usize::MAX,
        ensures
            final(self).wf(),
            final(self)@ == tally_into(old(self)@, tag_values(slot_view(slot))),
            final(self).spec_observed() == old(self).spec_observed() + tag_values(
                slot_view(slot),
            ).len(),
    {
        if let Some(value) = slot {
            let tags = split_at_char(value, ',');
            proof {
                lemma_split_on_len(value@, ',');
            }
            let ghost start = self.counts@;
            let ghost start_observed = self.counts.spec_observed();
            let mut j: usize = 0;
            while j < tags.len()
                invariant
                    views(tags@) == split_on(value@, ','),
                    tags@.len() <= value@.len() + 1,
                    start_observed + value@.len() < usize::MAX,
                    j <= tags@.len(),
                    self.counts.wf(),
                    self.counts@ == tally_into(start, views(tags@).take(j as int)),
                    self.counts.spec_observed() == start_observed + j,
                decreases tags@.len() - j,
            {
                proof {
                    assert(views(tags@).take(j as int + 1).drop_last() =~= views(tags@).take(j as int));
                }
                self.counts.count(tags[j].as_str());
                j = j + 1;
            }
            proof {
                assert(views(tags@).take(tags@.len() as int) =~= views(tags@));
            }
        }
    }
}

/// Counting a sequence of values from nothing gives each value exactly the
/// number of times it occurs: a value is listed if and only if it occurs, and
/// then with its number of occurrences.
pub proof fn facet_counts_are_occurrences(vs: Seq<Seq<char>>)
    ensures
        forall|v: Seq<char>|
            {
                &&& #[trigger] tally_into(Map::empty(), vs).contains_key(v) <==> occurrences(vs, v) > 0
                &&& tally_into(Map::empty(), vs).contains_key(v) ==> tally_into(Map::empty(), vs)[v]
                    == occurrences(vs, v)
            },
    decreases vs.len(),
{
    if vs.len() > 0 {
        let prev = vs.drop_last();
        facet_counts_are_occurrences(prev);
        assert forall|v: Seq<char>|
            {
                &&& #[trigger] tally_into(Map::empty(), vs).contains_key(v) <==> occurrences(vs, v) > 0
                &&& tally_into(Map::empty(), vs).contains_key(v) ==> tally_into(Map::empty(), vs)[v]
                    == occurrences(vs, v)
            } by {
            assert(tally_into(Map::empty(), prev).contains_key(v) <==> occurrences(prev, v) > 0);
        }
    }
}

} // verus!
