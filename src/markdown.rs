//! The parts of rendering a recipe's markdown that this project decides:
//! heading anchors and classes, and where a link to an unknown reference goes.
use vstd::prelude::*;
use vstd::string::{StrSliceExecFns, StringExecFns};
use crate::recipe::{slug_of, slugify};
use crate::text::{join, join_strings, views};

verus! {

/// The headings still open once a heading of `level` starts, when the last
/// heading had `last`: a heading closes every open heading of its own level
/// or deeper.
pub open spec fn open_after(stack: Seq<Seq<char>>, last: nat, level: nat) -> Seq<Seq<char>> {
    if level <= last {
        let n = (last - level + 1) as nat;
        if n >= stack.len() {
            Seq::empty()
        } else {
            stack.take(stack.len() - n)
        }
    } else {
        stack
    }
}

/// Tags headings with an anchor made from their text, and a class naming each
/// enclosing heading, so that a list can be found by the section it is in.
pub struct HeadingTagger {
    last_level: u8,
    class_stack: Vec<String>,
}

impl HeadingTagger {
    pub closed spec fn spec_last_level(&self) -> nat {
        self.last_level as nat
    }

    /// The anchors of the enclosing headings, outermost first.
    pub closed spec fn spec_stack(&self) -> Seq<Seq<char>> {
        views(self.class_stack@)
    }

    pub fn new() -> (r: Self)
        ensures
            r.spec_last_level() == 0,
            r.spec_stack() == Seq::<Seq<char>>::empty(),
    {
        let r = HeadingTagger { last_level: 0, class_stack: Vec::new() };
        proof {
            assert(views(r.class_stack@) =~= Seq::<Seq<char>>::empty());
        }
        r
    }

    /// Starts a heading of `level` with text `content`: returns its anchor and
    /// its class attribute (the anchors of the enclosing headings, space
    /// separated), and opens it.
    pub fn enter(&mut self, level: u8, content: &str) -> (r: (String, String))
        ensures
            r.0@ == slug_of(content@),
            r.1@ == join(open_after(old(self).spec_stack(), old(self).spec_last_level(), level as nat), " "@),
            final(self).spec_last_level() == level as nat,
            final(self).spec_stack() == open_after(
                old(self).spec_stack(),
                old(self).spec_last_level(),
                level as nat,
            ).push(slug_of(content@)),
    {
        let id = slugify(content);
        let ghost start = self.spec_stack();
        if level <= self.last_level {
            proof {
                assert(start.take(start.len() as int) =~= start);
            }
            let n: usize = (self.last_level - level) as usize + 1;
            let mut k: usize = 0;
            while k < n
                invariant
                    k <= n,
                    views(self.class_stack@) == if k >= start.len() {
                        Seq::<Seq<char>>::empty()
                    } else {
                        start.take(start.len() - k)
                    },
                decreases n - k,
            {
                let ghost before = self.class_stack@;
                self.class_stack.pop();
                proof {
                    if before.len() > 0 {
                        assert(views(self.class_stack@) =~= views(before).take(before.len() - 1));
                    } else {
                        assert(views(self.class_stack@) =~= views(before));
                    }
                    if k + 1 < start.len() {
                        assert(views(before).len() == start.len() - k);
                        assert(start.take(start.len() - k).take(start.len() - k - 1) =~= start.take(start.len() - (k + 1)));
                    } else {
                        assert(views(before).len() <= 1);
                        assert(views(self.class_stack@) =~= Seq::<Seq<char>>::empty());
                    }
                }
                k = k + 1;
            }
            proof {
                if n < start.len() {
                    assert(views(self.class_stack@) == start.take(start.len() - n));
                }
            }
        }
        self.last_level = level;
        let class_attr = join_strings(&self.class_stack, " ");
        let ghost before = self.class_stack@;
        self.class_stack.push(id.clone());
        proof {
            assert(views(self.class_stack@) =~= views(before).push(id@));
        }
        (id, class_attr)
    }
}

/// `t` is `s` without the `[` it starts with and the `]` it then ends with.
pub open spec fn is_link_title(s: Seq<char>, t: Seq<char>) -> bool {
    exists|a: int, b: int|
        0 <= a <= b <= s.len() && (forall|j: int| 0 <= j < a ==> s[j] == '[') && (a == s.len() || s[a]
            != '[') && (forall|j: int| b <= j < s.len() ==> s[j] == ']') && (b == a || s[b - 1] != ']')
            && t == s.subrange(a, b)
}

/// Where a link to a reference that the document does not define goes: the
/// recipe whose slug is the slug of the reference, titled by the link's text
/// without its brackets.
pub fn resolve_broken_link(normalized: &str, label: &str) -> (r: (String, String))
    ensures
        r.0@ == "/recipe/"@ + slug_of(normalized@),
        is_link_title(label@, r.1@),
{
    let mut url = String::from_str("/recipe/");
    url.append(slugify(normalized).as_str());
    let n = label.unicode_len();
    let mut a: usize = 0;
    while a < n && label.get_char(a) == '['
        invariant
            n == label@.len(),
            a <= n,
            forall|j: int| 0 <= j < a ==> label@[j] == '[',
        decreases n - a,
    {
        a = a + 1;
    }
    let mut b: usize = n;
    while b > a && label.get_char(b - 1) == ']'
        invariant
            n == label@.len(),
            a <= b <= n,
            forall|j: int| b <= j < n ==> label@[j] == ']',
        decreases b,
    {
        b = b - 1;
    }
    let title = String::from_str(label.substring_char(a, b));
    proof {
        assert(is_link_title(label@, title@)) by {
            assert(0 <= a as int <= b as int <= label@.len());
        }
    }
    (url, title)
}

} // verus!
