//! Recipes imported from a web page: the markdown written for them.
use vstd::prelude::*;
use vstd::string::StringExecFns;
use crate::recipe::{Category, MetaData};
use crate::text::{join, views};

verus! {

/// The directions of an imported recipe: named sections of steps, or one
/// run of steps.
pub enum ImportedDirections {
    Sections(Vec<(String, Vec<String>)>),
    Steps(Vec<String>),
}

/// What the markdown of an imported recipe is written from. The times are
/// already in words.
pub struct ImportedRecipe {
    pub name: String,
    pub description: String,
    pub prep_time: Option<String>,
    pub cook_time: Option<String>,
    pub total_time: Option<String>,
    pub ingredients: Vec<String>,
    pub directions: Option<ImportedDirections>,
}

/// Each item as a bullet line.
pub open spec fn bullets(items: Seq<Seq<char>>) -> Seq<char>
    decreases items.len(),
{
    if items.len() == 0 {
        Seq::empty()
    } else {
        bullets(items.drop_last()) + "- "@ + items.last() + "\n"@
    }
}

/// A labelled line for a time, if there is one.
pub open spec fn time_line(label: Seq<char>, time: Option<String>) -> Seq<char> {
    match time {
        Some(t) => label + t@ + "\n\n"@,
        None => Seq::empty(),
    }
}

pub open spec fn sections_markdown(sections: Seq<(String, Vec<String>)>) -> Seq<char>
    decreases sections.len(),
{
    if sections.len() == 0 {
        Seq::empty()
    } else {
        sections_markdown(sections.drop_last()) + "### "@ + sections.last().0@ + "\n\n"@ + bullets(
            views(sections.last().1@),
        ) + "\n"@
    }
}

pub open spec fn ingredients_markdown(items: Seq<String>) -> Seq<char> {
    if items.len() == 0 {
        Seq::empty()
    } else {
        "## Ingredients\n\n"@ + bullets(views(items)) + "\n"@
    }
}

pub open spec fn directions_markdown(d: Option<ImportedDirections>) -> Seq<char> {
    match d {
        None => Seq::empty(),
        Some(ImportedDirections::Sections(s)) => "## Directions\n\n"@ + sections_markdown(s@) + "\n\n"@,
        Some(ImportedDirections::Steps(s)) => "## Directions\n\n"@ + join(views(s@), Seq::empty())
            + "\n\n"@,
    }
}

/// The markdown of an imported recipe: the description, the times it has,
/// the ingredients as a list, then the directions, by section where it has
/// sections.
pub open spec fn imported_markdown_of(r: ImportedRecipe) -> Seq<char> {
    r.description@ + "\n\n"@ + time_line("**Prep Time:** "@, r.prep_time) + time_line(
        "**Cook Time:** "@,
        r.cook_time,
    ) + time_line("**Total Time:** "@, r.total_time) + ingredients_markdown(r.ingredients@)
        + directions_markdown(r.directions)
}

fn push_time(md: &mut String, label: &str, time: &Option<String>)
    ensures
        final(md)@ == old(md)@ + time_line(label@, *time),
{
    if let Some(t) = time {
        md.append(label);
        md.append(t.as_str());
        md.append("\n\n");
    } else {
        proof {
            assert(md@ + Seq::<char>::empty() =~= md@);
        }
    }
}

fn push_bullets(md: &mut String, items: &Vec<String>)
    ensures
        final(md)@ == old(md)@ + bullets(views(items@)),
{
    let ghost start = md@;
    let mut i: usize = 0;
    proof {
        assert(views(items@).take(0) =~= Seq::<Seq<char>>::empty());
        assert(start + Seq::<char>::empty() =~= start);
    }
    while i < items.len()
        invariant
            i <= items@.len(),
            md@ == start + bullets(views(items@).take(i as int)),
        decreases items@.len() - i,
    {
        proof {
            assert(views(items@).take(i as int + 1).drop_last() =~= views(items@).take(i as int));
        }
        md.append("- ");
        md.append(items[i].as_str());
        md.append("\n");
        proof {
            assert(md@ =~= start + bullets(views(items@).take(i as int + 1)));
        }
        i = i + 1;
    }
    proof {
        assert(views(items@).take(items@.len() as int) =~= views(items@));
    }
}

fn push_sections(md: &mut String, sections: &Vec<(String, Vec<String>)>)
    ensures
        final(md)@ == old(md)@ + sections_markdown(sections@),
{
    let ghost start = md@;
    let mut i: usize = 0;
    proof {
        assert(sections@.take(0) =~= Seq::<(String, Vec<String>)>::empty());
        assert(start + Seq::<char>::empty() =~= start);
    }
    while i < sections.len()
        invariant
            i <= sections@.len(),
            md@ == start + sections_markdown(sections@.take(i as int)),
        decreases sections@.len() - i,
    {
        proof {
            assert(sections@.take(i as int + 1).drop_last() =~= sections@.take(i as int));
        }
        md.append("### ");
        md.append(sections[i].0.as_str());
        md.append("\n\n");
        push_bullets(md, &sections[i].1);
        md.append("\n");
        proof {
            assert(md@ =~= start + sections_markdown(sections@.take(i as int + 1)));
        }
        i = i + 1;
    }
    proof {
        assert(sections@.take(sections@.len() as int) =~= sections@);
    }
}

fn push_steps(md: &mut String, steps: &Vec<String>)
    ensures
        final(md)@ == old(md)@ + join(views(steps@), Seq::empty()),
{
    let ghost start = md@;
    let mut i: usize = 0;
    proof {
        assert(views(steps@).take(0) =~= Seq::<Seq<char>>::empty());
        assert(start + Seq::<char>::empty() =~= start);
    }
    while i < steps.len()
        invariant
            i <= steps@.len(),
            md@ == start + join(views(steps@).take(i as int), Seq::empty()),
        decreases steps@.len() - i,
    {
        proof {
            assert(views(steps@).take(i as int + 1).drop_last() =~= views(steps@).take(i as int));
        }
        md.append(steps[i].as_str());
        proof {
            assert(md@ =~= start + join(views(steps@).take(i as int + 1), Seq::empty()));
        }
        i = i + 1;
    }
    proof {
        assert(views(steps@).take(steps@.len() as int) =~= views(steps@));
    }
}

impl ImportedRecipe {
    /// The markdown the recipe is rendered from.
    pub fn markdown(&self) -> (r: String)
        ensures
            r@ == imported_markdown_of(*self),
    {
        let mut md = String::from_str(self.description.as_str());
        md.append("\n\n");
        push_time(&mut md, "**Prep Time:** ", &self.prep_time);
        push_time(&mut md, "**Cook Time:** ", &self.cook_time);
        push_time(&mut md, "**Total Time:** ", &self.total_time);
        if self.ingredients.len() > 0 {
            md.append("## Ingredients\n\n");
            push_bullets(&mut md, &self.ingredients);
            md.append("\n");
        }
        let ghost before = md@;
        match &self.directions {
            None => {},
            Some(ImportedDirections::Sections(s)) => {
                md.append("## Directions\n\n");
                push_sections(&mut md, s);
                md.append("\n\n");
            },
            Some(ImportedDirections::Steps(s)) => {
                md.append("## Directions\n\n");
                push_steps(&mut md, s);
                md.append("\n\n");
            },
        }
        proof {
            assert(md@ =~= before + directions_markdown(self.directions));
            assert(md@ =~= imported_markdown_of(*self));
        }
        md
    }

    /// The front matter of an imported recipe: its name as the title, in the
    /// category "Imported", with no sources and no tags.
    pub fn metadata(&self) -> (r: MetaData)
        ensures
            r.spec_title() == self.name@,
            r.spec_category() == "Imported"@,
            r.spec_sources().len() == 0,
            r.spec_tags().len() == 0,
    {
        let r = MetaData::new(
            self.name.clone(),
            Category::new(String::from_str("Imported")),
            Vec::new(),
            Vec::new(),
        );
        proof {
            assert(r.spec_tags() =~= Seq::<Seq<char>>::empty());
        }
        r
    }
}

} // verus!
