//! Which modules a module refers to, read off the text of its descriptor.
//!
//! A descriptor is never parsed in full. Of each line that is not a comment and
//! mentions `project(`, the first quoted reference that starts with a colon is
//! taken; what else the line holds is ignored.
use crate::project::{Project, ProjectView};
use crate::text::{
    chars_of, has_prefix, has_substring, is_prefix, lines, lines_of, occurs, slice_of, string_of,
    trim_start, vec_views, views, without_leading_space,
};
use vstd::prelude::*;

verus! {

/// A single or a double quote.
pub open spec fn is_quote(c: char) -> bool {
    c == '\'' || c == '"'
}

/// A reference starts at position `i`: a quote, a colon, and at least one
/// character that is not a quote.
pub open spec fn reference_at(line: Seq<char>, i: int) -> bool {
    &&& 0 <= i
    &&& i + 2 < line.len()
    &&& is_quote(line[i])
    &&& line[i + 1] == ':'
    &&& !is_quote(line[i + 2])
}

/// The first position at or after `from` at which a reference starts, or the
/// length of the line if there is none.
pub open spec fn first_reference(line: Seq<char>, from: int) -> int
    decreases line.len() - from,
{
    if from < 0 || from + 2 >= line.len() {
        line.len() as int
    } else if reference_at(line, from) {
        from
    } else {
        first_reference(line, from + 1)
    }
}

/// The end of the run of characters that are not quotes and start at `from`.
pub open spec fn name_end(line: Seq<char>, from: int) -> int
    decreases line.len() - from,
{
    if from < 0 || from >= line.len() || is_quote(line[from]) {
        from
    } else {
        name_end(line, from + 1)
    }
}

/// The name that the first reference of a line gives: everything after its
/// colon up to the next quote or the end of the line.
pub open spec fn reference_in(line: Seq<char>) -> Option<Seq<char>> {
    let i = first_reference(line, 0);
    if 0 <= i < line.len() {
        Some(line.subrange(i + 2, name_end(line, i + 2)))
    } else {
        None
    }
}

/// A line counts if it is not a comment and mentions `project(`.
pub open spec fn is_reference_line(line: Seq<char>) -> bool {
    !is_prefix("//"@, without_leading_space(line)) && occurs(line, "project("@)
}

/// What a line adds to the dependencies of its module.
pub open spec fn dependency_of(line: Seq<char>) -> Option<Seq<char>> {
    if is_reference_line(line) {
        reference_in(line)
    } else {
        None
    }
}

/// What a sequence of lines adds, in their order.
pub open spec fn dependencies_in(lines: Seq<Seq<char>>) -> Seq<Seq<char>>
    decreases lines.len(),
{
    if lines.len() == 0 {
        Seq::empty()
    } else {
        let before = dependencies_in(lines.drop_last());
        match dependency_of(lines.last()) {
            Some(name) => before.push(name),
            None => before,
        }
    }
}

/// The names that the text of a descriptor refers to, one for each line that
/// counts and holds a reference, in the order of the lines.
pub open spec fn dependencies_of(text: Seq<char>) -> Seq<Seq<char>> {
    dependencies_in(lines_of(text))
}

/// The name that the first reference of a line gives, if it holds one.
pub fn find_reference(line: &Vec<char>) -> (r: Option<Vec<char>>)
    ensures
        r is Some <==> reference_in(line@) is Some,
        r matches Some(name) ==> name@ == reference_in(line@)->Some_0,
{
    let mut i: usize = 0;
    while i < line.len() && line.len() - i > 2
        invariant
            i <= line.len(),
            first_reference(line@, 0) == first_reference(line@, i as int),
        decreases line.len() - i,
    {
        let starts = (line[i] == '\'' || line[i] == '"') && line[i + 1] == ':' && !(line[i + 2]
            == '\'' || line[i + 2] == '"');
        if starts {
            let mut end: usize = i + 2;
            while end < line.len() && !(line[end] == '\'' || line[end] == '"')
                invariant
                    i + 2 <= end <= line.len(),
                    name_end(line@, i + 2) == name_end(line@, end as int),
                decreases line.len() - end,
            {
                end += 1;
            }
            return Some(slice_of(line, i + 2, end));
        }
        i += 1;
    }
    None
}

/// The names that the text of a descriptor refers to.
pub fn parse_dependencies(text: &str) -> (r: Vec<String>)
    ensures
        views(r@) == dependencies_of(text@),
{
    let chars = chars_of(text);
    let all = lines(&chars);
    let comment = chars_of("//");
    let marker = chars_of("project(");
    let mut r: Vec<String> = Vec::new();
    let mut i: usize = 0;
    while i < all.len()
        invariant
            i <= all.len(),
            comment@ == "//"@,
            marker@ == "project("@,
            views(r@) == dependencies_in(vec_views(all@).take(i as int)),
        decreases all.len() - i,
    {
        let ghost seen = vec_views(all@).take(i + 1);
        proof {
            assert(seen.drop_last() =~= vec_views(all@).take(i as int));
        }
        let line = &all[i];
        let start = trim_start(line);
        if !has_prefix(&start, &comment) && has_substring(line, &marker) {
            match find_reference(line) {
                Some(name) => {
                    let s = string_of(&name);
                    r.push(s);
                },
                None => {},
            }
        }
        i += 1;
    }
    assert(vec_views(all@).take(all.len() as int) =~= vec_views(all@));
    r
}

/// What a candidate is to the selection: the module, and the names that it
/// depends on.
pub struct ModuleView {
    pub project: ProjectView,
    pub dependencies: Seq<Seq<char>>,
}

/// A module found by the scan, with the text of its descriptor and the slot
/// that holds its dependencies once they were computed.
///
/// The dependencies of a candidate are what its slot holds. While the slot is
/// empty they are what the text of the descriptor gives; a candidate without a
/// readable descriptor has none.
#[derive(Debug)]
pub struct Candidate {
    pub project: Project,
    pub descriptor: Option<String>,
    pub dependencies: Option<Vec<String>>,
}

impl View for Candidate {
    type V = ModuleView;

    open spec fn view(&self) -> ModuleView {
        ModuleView {
            project: self.project@,
            dependencies: match self.dependencies {
                Some(names) => views(names@),
                None => match self.descriptor {
                    Some(text) => dependencies_of(text@),
                    None => Seq::empty(),
                },
            },
        }
    }
}

/// The views of a sequence of candidates.
pub open spec fn modules(v: Seq<Candidate>) -> Seq<ModuleView> {
    v.map_values(|c: Candidate| c@)
}

impl Candidate {
    /// A candidate whose dependencies are still to be computed.
    pub fn new(project: Project, descriptor: Option<String>) -> (c: Candidate)
        ensures
            c.project == project,
            c.descriptor == descriptor,
            c.dependencies is None,
    {
        Candidate { project, descriptor, dependencies: None }
    }

    /// Whether the dependencies were computed.
    pub open spec fn is_resolved(&self) -> bool {
        self.dependencies is Some
    }

    /// Computes the dependencies unless the slot holds them already.
    pub fn resolve(&mut self)
        ensures
            final(self)@ == old(self)@,
            final(self).is_resolved(),
            final(self).project == old(self).project,
            final(self).descriptor == old(self).descriptor,
            old(self).is_resolved() ==> final(self).dependencies == old(self).dependencies,
    {
        if self.dependencies.is_none() {
            let names = match &self.descriptor {
                Some(text) => parse_dependencies(text.as_str()),
                None => Vec::new(),
            };
            proof {
                if self.descriptor is None {
                    assert(views(names@) =~= Seq::<Seq<char>>::empty());
                }
            }
            self.dependencies = Some(names);
        }
    }
}

/// Computes the dependencies of every candidate that has none yet. Slots that
/// are filled stay as they are.
pub fn read_dependencies(ps: &mut Vec<Candidate>)
    ensures
        final(ps).len() == old(ps).len(),
        modules(final(ps)@) == modules(old(ps)@),
        forall|i: int|
            0 <= i < final(ps).len() ==> {
                &&& (#[trigger] final(ps)[i]).is_resolved()
                &&& final(ps)[i].project == old(ps)[i].project
                &&& final(ps)[i].descriptor == old(ps)[i].descriptor
                &&& old(ps)[i].is_resolved() ==> final(ps)[i].dependencies
                    == old(ps)[i].dependencies
            },
{
    let mut i: usize = 0;
    while i < ps.len()
        invariant
            i <= ps.len(),
            ps.len() == old(ps).len(),
            modules(ps@) == modules(old(ps)@),
            forall|k: int| 0 <= k < i ==> (#[trigger] ps[k]).is_resolved(),
            forall|k: int|
                0 <= k < ps.len() ==> {
                    &&& (#[trigger] ps[k]).project == old(ps)[k].project
                    &&& ps[k].descriptor == old(ps)[k].descriptor
                    &&& old(ps)[k].is_resolved() ==> ps[k].dependencies == old(ps)[k].dependencies
                    &&& k >= i ==> ps[k] == old(ps)[k]
                },
        decreases ps.len() - i,
    {
        let slot = &mut ps[i];
        slot.resolve();
        i += 1;
    }
}

} // verus!
