//! Filters over modules: by name, and by what changed since a commit.
//!
//! A chain of filters accepts a module when every filter of the chain does. The
//! filters are plain data, so that a chain can be inspected and each filter can
//! be asked on its own.
use crate::error::Result;
use crate::path::{is_under, parsed_path, path_text, DirPath, PathView};
use crate::pattern::{pattern_compiles, pattern_matches, NamePattern};
use crate::project::{Project, ProjectView};
use crate::text::{
    chars_of, has_prefix, is_prefix, lines, lines_of, split, split_on, string_of, strings_of,
    trim_end_matches, vec_views, views, without_trailing,
};
use crate::vc::{gave_diff, gave_root, VersionControl};
use vstd::prelude::*;

verus! {

/// What a trigger rule is: the pattern that a module's path is held against,
/// and the paths that count as the module's own where the pattern matches.
pub struct RuleView {
    pub pattern: Seq<char>,
    pub paths: Seq<Seq<char>>,
}

/// One rule of the trigger table.
#[derive(Debug)]
pub struct TriggerRule {
    pub pattern: NamePattern,
    pub paths: Vec<String>,
}

impl View for TriggerRule {
    type V = RuleView;

    open spec fn view(&self) -> RuleView {
        RuleView { pattern: self.pattern@, paths: views(self.paths@) }
    }
}

/// The views of a sequence of rules.
pub open spec fn rule_views(v: Seq<TriggerRule>) -> Seq<RuleView> {
    v.map_values(|r: TriggerRule| r@)
}

/// What a change set is.
pub struct ChangeSetView {
    pub root: PathView,
    pub files: Seq<Seq<char>>,
    pub triggers: Seq<RuleView>,
}

/// The files that changed since a commit, as paths relative to the root of the
/// repository, and the trigger table.
#[derive(Debug)]
pub struct ChangeSet {
    pub root: DirPath,
    pub files: Vec<String>,
    pub triggers: Vec<TriggerRule>,
}

impl View for ChangeSet {
    type V = ChangeSetView;

    open spec fn view(&self) -> ChangeSetView {
        ChangeSetView {
            root: self.root@,
            files: views(self.files@),
            triggers: rule_views(self.triggers@),
        }
    }
}

/// The rule that a line of the trigger file states: a pattern, a colon, and
/// paths separated by commas. A line with no colon or with more than one
/// states none, nor does one whose pattern does not compile.
pub open spec fn rule_of(line: Seq<char>) -> Option<RuleView> {
    let fields = split_on(line, ':');
    if fields.len() == 2 && pattern_compiles(fields[0]) {
        Some(RuleView { pattern: fields[0], paths: split_on(fields[1], ',') })
    } else {
        None
    }
}

/// The rules that a sequence of lines states, in their order.
pub open spec fn rules_in(lines: Seq<Seq<char>>) -> Seq<RuleView>
    decreases lines.len(),
{
    if lines.len() == 0 {
        Seq::empty()
    } else {
        let before = rules_in(lines.drop_last());
        match rule_of(lines.last()) {
            Some(rule) => before.push(rule),
            None => before,
        }
    }
}

/// The trigger table that the text of a trigger file states. Without a file the
/// table is empty.
pub open spec fn trigger_rules(text: Option<Seq<char>>) -> Seq<RuleView> {
    match text {
        Some(t) => rules_in(lines_of(t)),
        None => Seq::empty(),
    }
}

/// The path of a module as the change set sees it: relative to the root of the
/// repository where the module lies below it, and as it stands otherwise.
pub open spec fn relative_to_root(p: PathView, root: PathView) -> PathView {
    if p.absolute && is_under(p, root) {
        PathView { absolute: false, segments: p.segments.skip(root.segments.len() as int) }
    } else {
        p
    }
}

/// A changed path touches a module if the path is the module's directory or
/// one above it, or if the module's name starts with the path, its trailing
/// slashes left aside.
pub open spec fn file_touches(root: PathView, file: Seq<char>, p: ProjectView) -> bool {
    is_under(relative_to_root(p.path, root), parsed_path(file)) || is_prefix(
        without_trailing(file, '/'),
        p.name,
    )
}

/// One of the rule's paths is the start of a changed path.
pub open spec fn path_triggered(rule: RuleView, files: Seq<Seq<char>>) -> bool {
    exists|j: int, k: int|
        0 <= j < rule.paths.len() && 0 <= k < files.len() && is_prefix(
            #[trigger] rule.paths[j],
            #[trigger] files[k],
        )
}

/// A rule fires for a module if its pattern matches the module's path and one
/// of its paths is the start of a changed path.
pub open spec fn rule_fires(rule: RuleView, location: Seq<char>, files: Seq<Seq<char>>) -> bool {
    pattern_matches(rule.pattern, location) && path_triggered(rule, files)
}

/// A module changed if a changed path touches it or a trigger rule fires for
/// it.
pub open spec fn is_changed(cs: ChangeSetView, p: ProjectView) -> bool {
    ||| exists|k: int| 0 <= k < cs.files.len() && file_touches(cs.root, #[trigger] cs.files[k], p)
    ||| exists|i: int|
        0 <= i < cs.triggers.len() && rule_fires(
            #[trigger] cs.triggers[i],
            path_text(relative_to_root(p.path, cs.root)),
            cs.files,
        )
}

/// What a filter is.
pub enum FilterView {
    NameInclude(Seq<char>),
    NameExclude(Seq<char>),
    ChangedSince(ChangeSetView),
}

/// One filter of a chain.
#[derive(Debug)]
pub enum Filter {
    /// Accepts the modules whose name the pattern matches.
    NameInclude(NamePattern),
    /// Accepts the modules whose name the pattern does not match.
    NameExclude(NamePattern),
    /// Accepts the modules that changed.
    ChangedSince(ChangeSet),
}

impl View for Filter {
    type V = FilterView;

    open spec fn view(&self) -> FilterView {
        match self {
            Filter::NameInclude(re) => FilterView::NameInclude(re@),
            Filter::NameExclude(re) => FilterView::NameExclude(re@),
            Filter::ChangedSince(cs) => FilterView::ChangedSince(cs@),
        }
    }
}

/// Whether a filter accepts a module.
pub open spec fn accepts(f: FilterView, p: ProjectView) -> bool {
    match f {
        FilterView::NameInclude(pattern) => pattern_matches(pattern, p.name),
        FilterView::NameExclude(pattern) => !pattern_matches(pattern, p.name),
        FilterView::ChangedSince(cs) => is_changed(cs, p),
    }
}

/// Whether every filter of a chain accepts a module.
pub open spec fn accepts_all(chain: Seq<FilterView>, p: ProjectView) -> bool {
    forall|i: int| 0 <= i < chain.len() ==> accepts(#[trigger] chain[i], p)
}

/// The chain with one more filter made from `pattern`, or the chain as it is
/// where the pattern does not compile.
pub open spec fn with_pattern(
    chain: Seq<FilterView>,
    pattern: Seq<char>,
    keep: bool,
) -> Seq<FilterView> {
    if !pattern_compiles(pattern) {
        chain
    } else if keep {
        chain.push(FilterView::NameInclude(pattern))
    } else {
        chain.push(FilterView::NameExclude(pattern))
    }
}

/// The chain with one more filter for what changed, or the chain as it is
/// where the changed files could not be had.
pub open spec fn with_changes(
    chain: Seq<FilterView>,
    root: PathView,
    files: Option<Seq<Seq<char>>>,
    triggers: Option<Seq<char>>,
) -> Seq<FilterView> {
    match files {
        Some(f) => chain.push(
            FilterView::ChangedSince(
                ChangeSetView { root, files: f, triggers: trigger_rules(triggers) },
            ),
        ),
        None => chain,
    }
}

/// `after` is the chain that comes of `before` when `vc` is asked for its root
/// and for the files that differ from `commit`: the chain that its answers
/// give, as [`with_changes`] says.
pub open spec fn made_since<V: VersionControl>(
    vc: &V,
    commit: Seq<char>,
    before: Seq<FilterView>,
    triggers: Option<Seq<char>>,
    after: Seq<FilterView>,
) -> bool {
    exists|hash: &str, root: DirPath, files: Result<Vec<String>>|
        #![trigger gave_root(vc, root), gave_diff(vc, hash, files)]
        hash@ == commit && gave_root(vc, root) && gave_diff(vc, hash, files) && after
            == with_changes(
            before,
            root@,
            match files {
                Ok(f) => Some(views(f@)),
                Err(_) => None,
            },
            triggers,
        )
}

/// A chain of filters.
#[derive(Debug)]
pub struct ProjectFilters(pub Vec<Filter>);

impl View for ProjectFilters {
    type V = Seq<FilterView>;

    open spec fn view(&self) -> Seq<FilterView> {
        self.0@.map_values(|f: Filter| f@)
    }
}

/// The rule that a line of the trigger file states, if it states one.
pub fn parse_rule(line: &Vec<char>) -> (r: Option<TriggerRule>)
    ensures
        r is Some <==> rule_of(line@) is Some,
        r matches Some(rule) ==> rule@ == rule_of(line@)->Some_0,
{
    let fields = split(line, ':');
    if fields.len() != 2 {
        return None;
    }
    let source = string_of(&fields[0]);
    match NamePattern::new(source.as_str()) {
        Some(pattern) => {
            let pieces = split(&fields[1], ',');
            let paths = strings_of(&pieces);
            Some(TriggerRule { pattern, paths })
        },
        None => None,
    }
}

/// The trigger table that the text of a trigger file states.
pub fn parse_triggers(text: &str) -> (r: Vec<TriggerRule>)
    ensures
        rule_views(r@) == trigger_rules(Some(text@)),
{
    let chars = chars_of(text);
    let all = lines(&chars);
    let mut r: Vec<TriggerRule> = Vec::new();
    let mut i: usize = 0;
    while i < all.len()
        invariant
            i <= all.len(),
            rule_views(r@) == rules_in(vec_views(all@).take(i as int)),
        decreases all.len() - i,
    {
        let ghost seen = vec_views(all@).take(i + 1);
        proof {
            assert(seen.drop_last() =~= vec_views(all@).take(i as int));
        }
        match parse_rule(&all[i]) {
            Some(rule) => {
                r.push(rule);
            },
            None => {},
        }
        i += 1;
    }
    assert(vec_views(all@).take(all.len() as int) =~= vec_views(all@));
    r
}

impl TriggerRule {
    /// Whether one of the rule's paths is the start of a changed path.
    pub fn is_triggered_by(&self, files: &Vec<String>) -> (b: bool)
        ensures
            b == path_triggered(self@, views(files@)),
    {
        let mut j: usize = 0;
        while j < self.paths.len()
            invariant
                j <= self.paths.len(),
                forall|a: int, k: int|
                    0 <= a < j && 0 <= k < files.len() ==> !is_prefix(
                        #[trigger] self@.paths[a],
                        #[trigger] views(files@)[k],
                    ),
            decreases self.paths.len() - j,
        {
            let start = chars_of(self.paths[j].as_str());
            let mut k: usize = 0;
            while k < files.len()
                invariant
                    k <= files.len(),
                    j < self.paths.len(),
                    start@ == self@.paths[j as int],
                    forall|b: int|
                        0 <= b < k ==> !is_prefix(self@.paths[j as int], #[trigger] views(files@)[b]),
                decreases files.len() - k,
            {
                let file = chars_of(files[k].as_str());
                if has_prefix(&file, &start) {
                    assert(is_prefix(self@.paths[j as int], views(files@)[k as int]));
                    return true;
                }
                k += 1;
            }
            j += 1;
        }
        false
    }
}

impl ChangeSet {
    /// The change set of `files` below `root`, with the trigger table that the
    /// text of the trigger file states.
    pub fn new(root: DirPath, files: Vec<String>, triggers: Option<&str>) -> (cs: ChangeSet)
        ensures
            cs@ == (ChangeSetView {
                root: root@,
                files: views(files@),
                triggers: trigger_rules(
                    match triggers {
                        Some(t) => Some(t@),
                        None => None,
                    },
                ),
            }),
    {
        let rules = match triggers {
            Some(t) => parse_triggers(t),
            None => Vec::new(),
        };
        proof {
            if triggers is None {
                assert(rule_views(rules@) =~= Seq::<RuleView>::empty());
            }
        }
        ChangeSet { root, files, triggers: rules }
    }

    /// The path of a module as the change set sees it.
    pub fn relative(&self, path: &DirPath) -> (r: DirPath)
        ensures
            r@ == relative_to_root(path@, self@.root),
    {
        if path.absolute {
            match path.strip_prefix(&self.root) {
                Some(rest) => rest,
                None => path.clone(),
            }
        } else {
            path.clone()
        }
    }

    /// Whether a changed path touches the module.
    fn touched(&self, p: &Project, relative: &DirPath) -> (b: bool)
        requires
            relative@ == relative_to_root(p@.path, self@.root),
        ensures
            b == exists|k: int|
                0 <= k < self@.files.len() && file_touches(
                    self@.root,
                    #[trigger] self@.files[k],
                    p@,
                ),
    {
        let name = chars_of(p.name.as_str());
        let mut k: usize = 0;
        while k < self.files.len()
            invariant
                k <= self.files.len(),
                name@ == p@.name,
                relative@ == relative_to_root(p@.path, self@.root),
                forall|b: int|
                    0 <= b < k ==> !file_touches(self@.root, #[trigger] self@.files[b], p@),
            decreases self.files.len() - k,
        {
            let file = &self.files[k];
            assert(self@.files[k as int] == file@);
            let above = DirPath::parse(file.as_str());
            if relative.starts_with(&above) {
                return true;
            }
            let start = trim_end_matches(&chars_of(file.as_str()), '/');
            if has_prefix(&name, &start) {
                return true;
            }
            k += 1;
        }
        false
    }

    /// Whether a trigger rule fires for the module.
    fn triggered(&self, relative: &DirPath) -> (b: bool)
        ensures
            b == exists|i: int|
                0 <= i < self@.triggers.len() && rule_fires(
                    #[trigger] self@.triggers[i],
                    path_text(relative@),
                    self@.files,
                ),
    {
        let text = relative.display();
        let mut i: usize = 0;
        while i < self.triggers.len()
            invariant
                i <= self.triggers.len(),
                text@ == path_text(relative@),
                forall|a: int|
                    0 <= a < i ==> !rule_fires(
                        #[trigger] self@.triggers[a],
                        path_text(relative@),
                        self@.files,
                    ),
            decreases self.triggers.len() - i,
        {
            let rule = &self.triggers[i];
            assert(self@.triggers[i as int] == rule@);
            if rule.pattern.matches(text.as_str()) && rule.is_triggered_by(&self.files) {
                return true;
            }
            i += 1;
        }
        false
    }

    /// Whether the module changed.
    pub fn is_changed(&self, p: &Project) -> (b: bool)
        ensures
            b == is_changed(self@, p@),
    {
        let relative = self.relative(&p.path);
        self.touched(p, &relative) || self.triggered(&relative)
    }
}

impl Filter {
    /// Whether the filter accepts the module.
    pub fn accepts(&self, p: &Project) -> (b: bool)
        ensures
            b == accepts(self@, p@),
    {
        match self {
            Filter::NameInclude(re) => re.matches(p.name.as_str()),
            Filter::NameExclude(re) => !re.matches(p.name.as_str()),
            Filter::ChangedSince(cs) => cs.is_changed(p),
        }
    }

    /// The pattern that a filter by name was made from.
    pub fn pattern(&self) -> (r: Option<&str>)
        ensures
            match self@ {
                FilterView::NameInclude(pattern) => r is Some && r->Some_0@ == pattern,
                FilterView::NameExclude(pattern) => r is Some && r->Some_0@ == pattern,
                FilterView::ChangedSince(_) => r is None,
            },
    {
        match self {
            Filter::NameInclude(re) => Some(re.source()),
            Filter::NameExclude(re) => Some(re.source()),
            Filter::ChangedSince(_) => None,
        }
    }
}

impl ProjectFilters {
    /// The chain without filters, which accepts every module.
    pub fn new() -> (r: Self)
        ensures
            r@ == Seq::<FilterView>::empty(),
    {
        ProjectFilters(Vec::new())
    }

    /// How many filters the chain holds.
    pub fn len(&self) -> (n: usize)
        ensures
            n == self@.len(),
    {
        self.0.len()
    }

    /// The chain with a filter that accepts the modules whose name `pattern`
    /// matches. A pattern that does not compile leaves the chain as it is.
    pub fn with_name_regex(self, pattern: &str) -> (r: Self)
        ensures
            r@ == with_pattern(self@, pattern@, true),
    {
        let mut chain = self;
        match NamePattern::new(pattern) {
            Some(re) => {
                chain.0.push(Filter::NameInclude(re));
            },
            None => {},
        }
        chain
    }

    /// The chain with a filter that accepts the modules whose name `pattern`
    /// does not match. A pattern that does not compile leaves the chain as it
    /// is.
    pub fn exclude_projects(self, pattern: &str) -> (r: Self)
        ensures
            r@ == with_pattern(self@, pattern@, false),
    {
        let mut chain = self;
        match NamePattern::new(pattern) {
            Some(re) => {
                chain.0.push(Filter::NameExclude(re));
            },
            None => {},
        }
        chain
    }

    /// The chain with a filter that accepts the modules that changed, given
    /// what the version control system said of the changed files. Where it
    /// failed the chain stays as it is.
    pub fn changed_since(
        self,
        root: DirPath,
        files: Result<Vec<String>>,
        triggers: Option<&str>,
    ) -> (r: Self)
        ensures
            r@ == with_changes(
                self@,
                root@,
                match files {
                    Ok(f) => Some(views(f@)),
                    Err(_) => None,
                },
                match triggers {
                    Some(t) => Some(t@),
                    None => None,
                },
            ),
    {
        let mut chain = self;
        match files {
            Ok(f) => {
                let cs = ChangeSet::new(root, f, triggers);
                chain.0.push(Filter::ChangedSince(cs));
            },
            Err(_) => {},
        }
        chain
    }

    /// The chain with a filter that accepts the modules that changed since
    /// `hash`. The version control system is asked for its root and for the
    /// files that differ from `hash`, and the result is the chain that
    /// [`ProjectFilters::changed_since`] makes of its answers: one filter more
    /// where it named the files, and the chain as it was where it failed.
    /// `triggers` is the text of the trigger file, if there is one.
    pub fn since_commit<V: VersionControl>(self, vc: &V, hash: &str, triggers: Option<&str>) -> (r:
        Self)
        ensures
            exists|root: DirPath, files: Result<Vec<String>>|
                #![trigger gave_root(vc, root), gave_diff(vc, hash, files)]
                gave_root(vc, root) && gave_diff(vc, hash, files) && r@ == with_changes(
                    self@,
                    root@,
                    match files {
                        Ok(f) => Some(views(f@)),
                        Err(_) => None,
                    },
                    match triggers {
                        Some(t) => Some(t@),
                        None => None,
                    },
                ),
    {
        let root = vc.root();
        let files = vc.diff_files(hash);
        let ghost asked = (root, files);
        let r = self.changed_since(root, files, triggers);
        assert(gave_root(vc, asked.0) && gave_diff(vc, hash, asked.1));
        r
    }

    /// Whether every filter of the chain accepts the module.
    pub fn accepts(&self, p: &Project) -> (b: bool)
        ensures
            b == accepts_all(self@, p@),
    {
        let mut i: usize = 0;
        while i < self.0.len()
            invariant
                i <= self.0.len(),
                forall|k: int| 0 <= k < i ==> accepts(#[trigger] self@[k], p@),
            decreases self.0.len() - i,
        {
            assert(self@[i as int] == self.0@[i as int]@);
            if !self.0[i].accepts(p) {
                return false;
            }
            i += 1;
        }
        true
    }
}

} // verus!
