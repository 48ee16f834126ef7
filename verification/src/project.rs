//! Modules of the source tree and the names they are known by.
//!
//! A module is a directory that holds a descriptor file. Its name is made from
//! the segments of its path below the root that was scanned.
use crate::path::{chars_of_all, is_under, DirPath, PathView};
use crate::text::{
    chars_of, is_prefix, join, joined, lemma_first_index, replace, replaced, split_on, string_of,
};
use vstd::prelude::*;

verus! {

/// What a module is: where it lies and what it is called.
pub struct ProjectView {
    pub path: PathView,
    pub name: Seq<char>,
}

/// One independently buildable module.
#[derive(Debug)]
pub struct Project {
    pub path: DirPath,
    pub name: String,
}

impl View for Project {
    type V = ProjectView;

    open spec fn view(&self) -> ProjectView {
        ProjectView { path: self.path@, name: self.name@ }
    }
}

impl Clone for Project {
    fn clone(&self) -> (r: Self)
        ensures
            r@ == self@,
    {
        Project { path: self.path.clone(), name: self.name.clone() }
    }
}

/// The name of the module whose directory lies at `relative` below the root of
/// the scan: the segments joined by colons, with `:android` and then `:domain`
/// rewritten to start with a hyphen.
pub open spec fn module_name(relative: Seq<Seq<char>>) -> Seq<char> {
    replaced(
        replaced(joined(relative, seq![':']), ":android"@, "-android"@),
        ":domain"@,
        "-domain"@,
    )
}

/// The directory of a descriptor file lies at or below `root`.
pub open spec fn lies_below(descriptor: PathView, root: PathView) -> bool {
    descriptor.segments.len() > 0 && is_under(
        PathView { absolute: descriptor.absolute, segments: descriptor.segments.drop_last() },
        root,
    )
}

/// The module that the descriptor file at `descriptor` stands for when the scan
/// started at `root`.
pub open spec fn module_at(root: PathView, descriptor: PathView) -> ProjectView {
    let dir = descriptor.segments.drop_last();
    ProjectView {
        path: PathView { absolute: descriptor.absolute, segments: dir },
        name: module_name(dir.skip(root.segments.len() as int)),
    }
}

/// A segment that the naming scheme cannot confuse with another: it is not
/// empty and holds neither a colon nor a hyphen.
pub open spec fn is_plain(segment: Seq<char>) -> bool {
    &&& segment.len() > 0
    &&& !segment.contains(':')
    &&& !segment.contains('-')
}

/// Every segment is plain.
pub open spec fn all_plain(segments: Seq<Seq<char>>) -> bool {
    forall|i: int| 0 <= i < segments.len() ==> is_plain(#[trigger] segments[i])
}

/// `out` is `s` with some of its colons turned into hyphens.
pub open spec fn softened(s: Seq<char>, out: Seq<char>) -> bool {
    &&& out.len() == s.len()
    &&& forall|i: int|
        0 <= i < s.len() ==> #[trigger] out[i] == s[i] || (s[i] == ':' && out[i] == '-')
}

/// Replacing a text that starts with a colon by the same text with a hyphen in
/// the colon's place only turns colons into hyphens.
pub proof fn lemma_replaced_softens(s: Seq<char>, from: Seq<char>, to: Seq<char>)
    requires
        from.len() > 0,
        from.len() == to.len(),
        from[0] == ':',
        to[0] == '-',
        forall|k: int| 1 <= k < from.len() ==> from[k] == to[k],
    ensures
        softened(s, replaced(s, from, to)),
    decreases s.len(),
{
    if s.len() == 0 {
    } else if is_prefix(from, s) {
        let rest = s.skip(from.len() as int);
        lemma_replaced_softens(rest, from, to);
        let out = to + replaced(rest, from, to);
        assert forall|i: int| 0 <= i < s.len() implies #[trigger] out[i] == s[i] || (s[i] == ':'
            && out[i] == '-') by {}
    } else {
        let rest = s.skip(1);
        lemma_replaced_softens(rest, from, to);
        let out = seq![s[0]] + replaced(rest, from, to);
        assert forall|i: int| 0 <= i < s.len() implies #[trigger] out[i] == s[i] || (s[i] == ':'
            && out[i] == '-') by {}
    }
}

/// A name is its joined segments with some colons turned into hyphens.
pub proof fn lemma_name_softens(relative: Seq<Seq<char>>)
    ensures
        softened(joined(relative, seq![':']), module_name(relative)),
{
    let j = joined(relative, seq![':']);
    let mid = replaced(j, ":android"@, "-android"@);
    reveal_strlit(":android");
    reveal_strlit("-android");
    reveal_strlit(":domain");
    reveal_strlit("-domain");
    lemma_replaced_softens(j, ":android"@, "-android"@);
    lemma_replaced_softens(mid, ":domain"@, "-domain"@);
    let out = module_name(relative);
    assert forall|i: int| 0 <= i < j.len() implies #[trigger] out[i] == j[i] || (j[i] == ':'
        && out[i] == '-') by {}
}

/// Joined plain segments hold no hyphen.
pub proof fn lemma_joined_plain(parts: Seq<Seq<char>>)
    requires
        all_plain(parts),
    ensures
        !joined(parts, seq![':']).contains('-'),
    decreases parts.len(),
{
    let j = joined(parts, seq![':']);
    if parts.len() == 0 {
    } else if parts.len() == 1 {
    } else {
        let rest = parts.skip(1);
        assert forall|i: int| 0 <= i < rest.len() implies is_plain(#[trigger] rest[i]) by {}
        lemma_joined_plain(rest);
        assert forall|i: int| 0 <= i < j.len() implies j[i] != '-' by {}
    }
}

/// Splitting joined plain segments at the colons gives the segments back.
pub proof fn lemma_split_joined(parts: Seq<Seq<char>>)
    requires
        parts.len() > 0,
        all_plain(parts),
    ensures
        split_on(joined(parts, seq![':']), ':') == parts,
    decreases parts.len(),
{
    let j = joined(parts, seq![':']);
    let head = parts[0];
    assert forall|k: int| 0 <= k < head.len() implies head[k] != ':' by {}
    if parts.len() == 1 {
        lemma_first_index(j, ':', j.len() as int);
    } else {
        let rest = parts.skip(1);
        assert forall|i: int| 0 <= i < rest.len() implies is_plain(#[trigger] rest[i]) by {}
        lemma_split_joined(rest);
        let tail = joined(rest, seq![':']);
        assert forall|k: int| 0 <= k < head.len() implies j[k] != ':' by {}
        lemma_first_index(j, ':', head.len() as int);
        assert(j.take(head.len() as int) =~= head);
        assert(j.skip(head.len() as int + 1) =~= tail);
    }
}

/// Within one scan, two directories whose segments are plain never share a
/// name: different paths below the root give different names.
pub proof fn lemma_names_are_unique(a: Seq<Seq<char>>, b: Seq<Seq<char>>)
    requires
        all_plain(a),
        all_plain(b),
        a != b,
    ensures
        module_name(a) != module_name(b),
{
    let ja = joined(a, seq![':']);
    let jb = joined(b, seq![':']);
    if module_name(a) == module_name(b) {
        let n = module_name(a);
        lemma_name_softens(a);
        lemma_name_softens(b);
        lemma_joined_plain(a);
        lemma_joined_plain(b);
        assert forall|i: int| 0 <= i < ja.len() implies ja[i] == jb[i] by {
            assert(n[i] == ja[i] || (ja[i] == ':' && n[i] == '-'));
        }
        assert(ja =~= jb);
        if a.len() == 0 {
            assert(a =~= b);
        } else if b.len() == 0 {
        } else {
            lemma_split_joined(a);
            lemma_split_joined(b);
        }
    }
}

/// The name of the module whose directory lies at `relative` below the root of
/// the scan.
pub fn name_of(relative: &Vec<String>) -> (name: String)
    ensures
        name@ == module_name(crate::text::views(relative@)),
{
    let parts = chars_of_all(relative);
    let sep: Vec<char> = vec![':'];
    assert(sep@ =~= seq![':']);
    let j = join(&parts, &sep);
    let mid = replace(&j, &chars_of(":android"), &chars_of("-android"));
    let out = replace(&mid, &chars_of(":domain"), &chars_of("-domain"));
    string_of(&out)
}

/// Whether the directory of the descriptor file lies at or below `root`.
pub fn is_below(descriptor: &DirPath, root: &DirPath) -> (b: bool)
    ensures
        b == lies_below(descriptor@, root@),
{
    match descriptor.parent() {
        Some(dir) => dir.starts_with(root),
        None => false,
    }
}

impl Project {
    /// The module that the descriptor file at `descriptor` stands for when the
    /// scan started at `root`.
    pub fn locate(root: &DirPath, descriptor: &DirPath) -> (p: Project)
        requires
            lies_below(descriptor@, root@),
        ensures
            p@ == module_at(root@, descriptor@),
    {
        let dir = descriptor.parent().unwrap();
        let relative = dir.strip_prefix(root).unwrap();
        let name = name_of(&relative.segments);
        Project { path: dir, name }
    }
}

} // verus!
