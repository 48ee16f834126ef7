//! Paths as sequences of segments.
//!
//! A path is absolute or relative and holds the names that lie between its
//! separators. Whether one path lies under another is decided segment by
//! segment, never character by character.
use crate::text::{
    append_chars, chars_of, join, joined, split, split_on, string_of, vec_views, views,
};
use vstd::prelude::*;

verus! {

/// What a path is: whether it starts at the root of the file system, and its
/// segments from the outermost to the innermost.
pub struct PathView {
    pub absolute: bool,
    pub segments: Seq<Seq<char>>,
}

/// A path of the file system.
#[derive(Debug)]
pub struct DirPath {
    pub absolute: bool,
    pub segments: Vec<String>,
}

impl View for DirPath {
    type V = PathView;

    open spec fn view(&self) -> PathView {
        PathView { absolute: self.absolute, segments: views(self.segments@) }
    }
}

/// The views of a sequence of paths.
pub open spec fn path_views(v: Seq<DirPath>) -> Seq<PathView> {
    v.map_values(|p: DirPath| p@)
}

/// A piece between two separators names something unless it is empty or a
/// single dot.
pub open spec fn is_segment(p: Seq<char>) -> bool {
    p.len() > 0 && p != seq!['.']
}

/// The path that a text denotes: absolute if the text starts with a slash, with
/// the pieces between slashes that name something as its segments.
pub open spec fn parsed_path(s: Seq<char>) -> PathView {
    PathView {
        absolute: s.len() > 0 && s[0] == '/',
        segments: split_on(s, '/').filter(|p: Seq<char>| is_segment(p)),
    }
}

/// The text of a path: its segments with slashes between them, after a leading
/// slash if it is absolute.
pub open spec fn path_text(p: PathView) -> Seq<char> {
    if p.absolute {
        seq!['/'] + joined(p.segments, seq!['/'])
    } else {
        joined(p.segments, seq!['/'])
    }
}

/// `base` is `p` or one of the directories above it.
pub open spec fn is_under(p: PathView, base: PathView) -> bool {
    p.absolute == base.absolute && base.segments.is_prefix_of(p.segments)
}

/// How many leading segments two paths share.
pub open spec fn common_len(a: Seq<Seq<char>>, b: Seq<Seq<char>>) -> nat
    decreases a.len(),
{
    if a.len() > 0 && b.len() > 0 && a[0] == b[0] {
        1 + common_len(a.skip(1), b.skip(1))
    } else {
        0
    }
}

/// `n` steps up, each written as a slash and two dots.
pub open spec fn steps_up(n: nat) -> Seq<char>
    decreases n,
{
    if n == 0 {
        Seq::empty()
    } else {
        steps_up((n - 1) as nat) + seq!['/', '.', '.']
    }
}

/// The way from the directory `base` to `p`, as text: a dot, one step up for
/// each segment of `base` that `p` does not share, then a slash and what is
/// left of `p`.
pub open spec fn relative_text(p: PathView, base: PathView) -> Seq<char> {
    let c = common_len(p.segments, base.segments);
    seq!['.'] + steps_up((base.segments.len() - c) as nat) + seq!['/'] + joined(
        p.segments.skip(c as int),
        seq!['/'],
    )
}

/// `p` with the segments of `other` after its own; an absolute `other` stands
/// for itself.
pub open spec fn joined_path(p: PathView, other: PathView) -> PathView {
    if other.absolute {
        other
    } else {
        PathView { absolute: p.absolute, segments: p.segments + other.segments }
    }
}

/// [`common_len`] counts the positions up to the first at which the two
/// sequences differ or one of them ends.
pub proof fn lemma_common_len(a: Seq<Seq<char>>, b: Seq<Seq<char>>, n: int)
    requires
        0 <= n <= a.len(),
        n <= b.len(),
        forall|k: int| 0 <= k < n ==> a[k] == b[k],
        n < a.len() && n < b.len() ==> a[n] != b[n],
    ensures
        common_len(a, b) == n,
    decreases n,
{
    if n > 0 {
        let x = a.skip(1);
        let y = b.skip(1);
        assert forall|k: int| 0 <= k < n - 1 implies x[k] == y[k] by {}
        lemma_common_len(x, y, n - 1);
    }
}

/// A copy of a list of strings.
pub fn clone_strings(v: &Vec<String>) -> (r: Vec<String>)
    ensures
        views(r@) == views(v@),
{
    let mut r: Vec<String> = Vec::new();
    let mut i: usize = 0;
    while i < v.len()
        invariant
            i <= v.len(),
            views(r@) == views(v@).take(i as int),
        decreases v.len() - i,
    {
        let ghost before = r@;
        let s = v[i].clone();
        r.push(s);
        proof {
            assert(views(r@) =~= views(before).push(s@));
        }
        i += 1;
    }
    r
}

/// The characters of each string of a list.
pub fn chars_of_all(v: &Vec<String>) -> (r: Vec<Vec<char>>)
    ensures
        vec_views(r@) == views(v@),
{
    let mut r: Vec<Vec<char>> = Vec::new();
    let mut i: usize = 0;
    while i < v.len()
        invariant
            i <= v.len(),
            vec_views(r@) == views(v@).take(i as int),
        decreases v.len() - i,
    {
        let ghost before = r@;
        let s = chars_of(v[i].as_str());
        r.push(s);
        proof {
            assert(vec_views(r@) =~= vec_views(before).push(s@));
        }
        i += 1;
    }
    r
}

impl Clone for DirPath {
    fn clone(&self) -> (r: Self)
        ensures
            r@ == self@,
    {
        DirPath { absolute: self.absolute, segments: clone_strings(&self.segments) }
    }
}

impl DirPath {
    /// The path that `s` denotes.
    pub fn parse(s: &str) -> (r: DirPath)
        ensures
            r@ == parsed_path(s@),
    {
        let chars = chars_of(s);
        let pieces = split(&chars, '/');
        let mut segments: Vec<String> = Vec::new();
        let ghost keep = |p: Seq<char>| is_segment(p);
        let mut i: usize = 0;
        while i < pieces.len()
            invariant
                i <= pieces.len(),
                keep == |p: Seq<char>| is_segment(p),
                views(segments@) == vec_views(pieces@).take(i as int).filter(keep),
            decreases pieces.len() - i,
        {
            let ghost all = vec_views(pieces@);
            proof {
                assert(all.take(i + 1).drop_last() =~= all.take(i as int));
                reveal(Seq::filter);
            }
            let piece = &pieces[i];
            if piece.len() > 0 && !(piece.len() == 1 && piece[0] == '.') {
                let s = string_of(piece);
                segments.push(s);
                proof {
                    assert(piece@ != seq!['.']) by {}
                }
            } else {
                proof {
                    if piece.len() == 1 {
                        assert(piece@ =~= seq!['.']);
                    }
                }
            }
            i += 1;
        }
        assert(vec_views(pieces@).take(pieces.len() as int) =~= vec_views(pieces@));
        DirPath { absolute: chars.len() > 0 && chars[0] == '/', segments }
    }

    /// The text of the path.
    pub fn display(&self) -> (s: String)
        ensures
            s@ == path_text(self@),
    {
        let parts = chars_of_all(&self.segments);
        let sep: Vec<char> = vec!['/'];
        let body = join(&parts, &sep);
        let mut out: Vec<char> = Vec::new();
        if self.absolute {
            out.push('/');
        }
        assert(sep@ =~= seq!['/']);
        append_chars(&mut out, &body);
        string_of(&out)
    }

    /// How many leading segments this path shares with `other`.
    pub fn shared_segments(&self, other: &DirPath) -> (n: usize)
        ensures
            n == common_len(self@.segments, other@.segments),
            n <= self.segments.len(),
            n <= other.segments.len(),
    {
        let mut n: usize = 0;
        while n < self.segments.len() && n < other.segments.len() && self.segments[n]
            == other.segments[n]
            invariant
                n <= self.segments.len(),
                n <= other.segments.len(),
                forall|k: int| 0 <= k < n ==> self@.segments[k] == other@.segments[k],
            decreases self.segments.len() - n,
        {
            n += 1;
        }
        proof {
            lemma_common_len(self@.segments, other@.segments, n as int);
        }
        n
    }

    /// Whether `base` is this path or one of the directories above it.
    pub fn starts_with(&self, base: &DirPath) -> (b: bool)
        ensures
            b == is_under(self@, base@),
    {
        if self.absolute != base.absolute {
            return false;
        }
        let n = self.shared_segments(base);
        proof {
            let p = self@.segments;
            let q = base@.segments;
            lemma_common_len_agrees(p, q);
        }
        n == base.segments.len()
    }

    /// What is left of this path below `base`, if `base` is this path or one
    /// of the directories above it.
    pub fn strip_prefix(&self, base: &DirPath) -> (r: Option<DirPath>)
        ensures
            r is Some <==> is_under(self@, base@),
            r matches Some(rest) ==> rest@ == (PathView {
                absolute: false,
                segments: self@.segments.skip(base@.segments.len() as int),
            }),
    {
        if !self.starts_with(base) {
            return None;
        }
        let rest = self.segments_from(base.segments.len());
        Some(DirPath { absolute: false, segments: rest })
    }

    /// The directory that holds this path, if the path has a last segment.
    pub fn parent(&self) -> (r: Option<DirPath>)
        ensures
            r is Some <==> self@.segments.len() > 0,
            r matches Some(dir) ==> dir@ == (PathView {
                absolute: self@.absolute,
                segments: self@.segments.drop_last(),
            }),
    {
        if self.segments.len() == 0 {
            return None;
        }
        let mut segments: Vec<String> = Vec::new();
        let n = self.segments.len() - 1;
        let mut i: usize = 0;
        while i < n
            invariant
                i <= n,
                n == self.segments.len() - 1,
                views(segments@) == views(self.segments@).take(i as int),
            decreases n - i,
        {
            let ghost before = segments@;
            let s = self.segments[i].clone();
            segments.push(s);
            proof {
                assert(views(segments@) =~= views(before).push(s@));
            }
            i += 1;
        }
        Some(DirPath { absolute: self.absolute, segments })
    }

    /// This path with the segments of `other` after its own; an absolute
    /// `other` stands for itself.
    pub fn join(&self, other: &DirPath) -> (r: DirPath)
        ensures
            r@ == joined_path(self@, other@),
    {
        if other.absolute {
            return other.clone();
        }
        let mut segments = clone_strings(&self.segments);
        let mut i: usize = 0;
        while i < other.segments.len()
            invariant
                i <= other.segments.len(),
                views(segments@) == views(self.segments@) + views(other.segments@).take(i as int),
            decreases other.segments.len() - i,
        {
            let ghost before = segments@;
            let s = other.segments[i].clone();
            segments.push(s);
            proof {
                assert(views(segments@) =~= views(before).push(s@));
            }
            i += 1;
        }
        assert(views(other.segments@).take(other.segments.len() as int) =~= views(
            other.segments@,
        ));
        DirPath { absolute: self.absolute, segments }
    }

    /// This path with one more segment at its end.
    pub fn child(&self, name: &str) -> (r: DirPath)
        ensures
            r@ == (PathView { absolute: self@.absolute, segments: self@.segments.push(name@) }),
    {
        let mut segments = clone_strings(&self.segments);
        let ghost before = segments@;
        let s = string_of(&chars_of(name));
        segments.push(s);
        assert(views(segments@) =~= views(before).push(s@));
        DirPath { absolute: self.absolute, segments }
    }

    /// Whether two paths are the same.
    pub fn same_as(&self, other: &DirPath) -> (b: bool)
        ensures
            b == (self@ == other@),
    {
        if self.absolute != other.absolute || self.segments.len() != other.segments.len() {
            assert(self@.segments.len() == self.segments.len());
            return false;
        }
        let n = self.shared_segments(other);
        proof {
            lemma_common_len_agrees(self@.segments, other@.segments);
            if n == self.segments.len() {
                assert(self@.segments =~= other@.segments);
            }
        }
        n == self.segments.len()
    }

    /// The way from the directory `base` to this path, as text.
    pub fn relative_to(&self, base: &DirPath) -> (s: String)
        ensures
            s@ == relative_text(self@, base@),
    {
        let shared = self.shared_segments(base);
        let mut out: Vec<char> = vec!['.'];
        let ups = base.segments.len() - shared;
        let step: Vec<char> = vec!['/', '.', '.'];
        let mut k: usize = 0;
        while k < ups
            invariant
                k <= ups,
                step@ == seq!['/', '.', '.'],
                out@ == seq!['.'] + steps_up(k as nat),
            decreases ups - k,
        {
            append_chars(&mut out, &step);
            k += 1;
        }
        out.push('/');
        let rest = self.segments_from(shared);
        let parts = chars_of_all(&rest);
        let sep: Vec<char> = vec!['/'];
        assert(sep@ =~= seq!['/']);
        let tail = join(&parts, &sep);
        append_chars(&mut out, &tail);
        string_of(&out)
    }

    /// The segments of this path from position `from` on.
    fn segments_from(&self, from: usize) -> (r: Vec<String>)
        requires
            from <= self.segments.len(),
        ensures
            views(r@) == self@.segments.skip(from as int),
    {
        let mut r: Vec<String> = Vec::new();
        let mut i: usize = from;
        while i < self.segments.len()
            invariant
                from <= i <= self.segments.len(),
                views(r@) == views(self.segments@).subrange(from as int, i as int),
            decreases self.segments.len() - i,
        {
            let ghost before = r@;
            let s = self.segments[i].clone();
            r.push(s);
            proof {
                assert(views(r@) =~= views(before).push(s@));
            }
            i += 1;
        }
        r
    }
}

/// Two sequences agree on as many leading positions as [`common_len`] says, and
/// differ at the next one if both reach it.
pub proof fn lemma_common_len_agrees(a: Seq<Seq<char>>, b: Seq<Seq<char>>)
    ensures
        common_len(a, b) <= a.len(),
        common_len(a, b) <= b.len(),
        forall|k: int| 0 <= k < common_len(a, b) ==> a[k] == b[k],
        common_len(a, b) < a.len() && common_len(a, b) < b.len() ==> a[common_len(a, b) as int]
            != b[common_len(a, b) as int],
    decreases a.len(),
{
    if a.len() > 0 && b.len() > 0 && a[0] == b[0] {
        let x = a.skip(1);
        let y = b.skip(1);
        lemma_common_len_agrees(x, y);
        let n = common_len(a, b);
        assert forall|k: int| 0 <= k < n implies a[k] == b[k] by {
            if k > 0 {
                assert(x[k - 1] == a[k]);
            }
        }
    }
}

} // verus!
