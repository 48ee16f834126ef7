//! The modules of a repository: finding them, selecting them, and naming them
//! in the settings file.
//!
//! Walking directories and reading files is left to the caller. It hands over
//! the descriptor files that it found under each root, with their text, and
//! gets back the modules to build.
use crate::deps::{dependencies_of, modules, Candidate, ModuleView};
use crate::error::{Error, Result};
use crate::filter::{accepts_all, made_since, with_pattern, FilterView, ProjectFilters};
use crate::path::{joined_path, parsed_path, path_text, path_views, DirPath, PathView};
use crate::project::{lies_below, module_at, Project, ProjectView};
use crate::select::{select, selection};
use crate::settings::{
    entries_of, entries_text, project_views, render_entries, render_settings, settings_text,
};
use crate::text::{append_chars, chars_of, string_of, strings_of, views, words, words_of};
use crate::vc::{gave_remote_branch, VersionControl};
use vstd::prelude::*;

verus! {

/// What a descriptor file is to the scan: where it lies, and its text if it
/// could be read.
pub struct DescriptorView {
    pub file: PathView,
    pub text: Option<Seq<char>>,
}

/// A descriptor file that was found under a root.
#[derive(Debug)]
pub struct Descriptor {
    pub file: DirPath,
    pub text: Option<String>,
}

impl View for Descriptor {
    type V = DescriptorView;

    open spec fn view(&self) -> DescriptorView {
        DescriptorView {
            file: self.file@,
            text: match self.text {
                Some(t) => Some(t@),
                None => None,
            },
        }
    }
}

/// The views of a sequence of descriptors.
pub open spec fn descriptor_views(v: Seq<Descriptor>) -> Seq<DescriptorView> {
    v.map_values(|d: Descriptor| d@)
}

/// The views of the descriptors of each root.
pub open spec fn listing_views(v: Seq<Vec<Descriptor>>) -> Seq<Seq<DescriptorView>> {
    v.map_values(|l: Vec<Descriptor>| descriptor_views(l@))
}

/// The module that a descriptor stands for, with the dependencies that its
/// text gives. A descriptor that could not be read gives none.
pub open spec fn found_module(root: PathView, d: DescriptorView) -> ModuleView {
    ModuleView {
        project: module_at(root, d.file),
        dependencies: match d.text {
            Some(t) => dependencies_of(t),
            None => Seq::empty(),
        },
    }
}

/// The modules that the descriptors under one root stand for, in the order in
/// which they were found.
pub open spec fn found_modules(root: PathView, found: Seq<DescriptorView>) -> Seq<ModuleView> {
    found.map_values(|d: DescriptorView| found_module(root, d))
}

/// Every descriptor lies in a directory at or below the root.
pub open spec fn all_below(found: Seq<DescriptorView>, root: PathView) -> bool {
    forall|i: int| 0 <= i < found.len() ==> lies_below((#[trigger] found[i]).file, root)
}

/// The modules to build of one root: the modules that the chain accepts, grown
/// by the selection, as modules without their dependencies.
pub open spec fn scanned(
    root: PathView,
    found: Seq<DescriptorView>,
    chain: Seq<FilterView>,
    exclude: Seq<FilterView>,
    propagate: bool,
) -> Seq<ProjectView> {
    let all = found_modules(root, found);
    selection(
        all.filter(|m: ModuleView| accepts_all(chain, m.project)),
        all.filter(|m: ModuleView| !accepts_all(chain, m.project)),
        propagate,
        exclude,
    ).map_values(|m: ModuleView| m.project)
}

/// The modules to build of several roots: those of each root, one root after
/// the other. Modules of two roots that share a name both stay.
pub open spec fn scanned_all(
    roots: Seq<PathView>,
    found: Seq<Seq<DescriptorView>>,
    chain: Seq<FilterView>,
    exclude: Seq<FilterView>,
    propagate: bool,
) -> Seq<ProjectView>
    decreases roots.len(),
{
    if roots.len() == 0 || found.len() == 0 {
        Seq::empty()
    } else {
        scanned_all(roots.drop_last(), found.drop_last(), chain, exclude, propagate) + scanned(
            roots.last(),
            found.last(),
            chain,
            exclude,
            propagate,
        )
    }
}

/// Within one scan, descriptors in two different directories stand for modules
/// with different names, as long as the segments of the directories below the
/// root are plain.
pub proof fn lemma_found_names_are_unique(root: PathView, a: PathView, b: PathView)
    requires
        lies_below(a, root),
        lies_below(b, root),
        a.segments.drop_last() != b.segments.drop_last(),
        crate::project::all_plain(a.segments.drop_last().skip(root.segments.len() as int)),
        crate::project::all_plain(b.segments.drop_last().skip(root.segments.len() as int)),
    ensures
        module_at(root, a).name != module_at(root, b).name,
{
    let n = root.segments.len() as int;
    let da = a.segments.drop_last();
    let db = b.segments.drop_last();
    if da.skip(n) == db.skip(n) {
        assert(da =~= da.subrange(0, n) + da.skip(n));
        assert(db =~= db.subrange(0, n) + db.skip(n));
    }
    crate::project::lemma_names_are_unique(da.skip(n), db.skip(n));
}

/// The roots of a scan: the root of the repository, and after it each path
/// that the configuration names, taken from the root of the repository.
pub open spec fn roots_of(root: PathView, extra: Seq<Seq<char>>) -> Seq<PathView> {
    seq![root] + extra.map_values(|alt: Seq<char>| joined_path(root, parsed_path(alt)))
}

/// What the configuration of a scan is.
pub struct ProjectsView {
    pub excluded_projects: Seq<char>,
    pub include_projects: Seq<char>,
    pub gradle_cmd: Option<Seq<char>>,
    pub projects: Seq<ProjectView>,
    pub root: PathView,
}

/// The configuration of a scan and the modules that the last scan selected.
#[derive(Debug)]
pub struct Projects {
    excluded_projects: String,
    include_projects: String,
    gradle_cmd: Option<String>,
    projects: Vec<Project>,
    root: DirPath,
}

impl View for Projects {
    type V = ProjectsView;

    closed spec fn view(&self) -> ProjectsView {
        ProjectsView {
            excluded_projects: self.excluded_projects@,
            include_projects: self.include_projects@,
            gradle_cmd: match self.gradle_cmd {
                Some(c) => Some(c@),
                None => None,
            },
            projects: project_views(self.projects@),
            root: self.root@,
        }
    }
}

/// The chain that decides which impacted modules may come in: it refuses the
/// modules whose name the exclusion pattern matches.
pub open spec fn exclusion(p: ProjectsView) -> Seq<FilterView> {
    with_pattern(Seq::empty(), p.excluded_projects, false)
}

/// The roots that a scan of `p` covers.
pub open spec fn scan_roots_of(p: ProjectsView) -> Seq<PathView> {
    roots_of(p.root, words_of(p.include_projects))
}

/// The command that runs the build tool: the configured one, or the wrapper
/// script in the root.
pub open spec fn build_command(p: ProjectsView) -> Seq<char> {
    match p.gradle_cmd {
        Some(c) => c,
        None => path_text(PathView { absolute: p.root.absolute, segments: p.root.segments.push(
            "gradlew"@,
        ) }),
    }
}

/// The settings file that the IDE opens.
pub open spec fn default_settings_path(p: ProjectsView) -> PathView {
    PathView { absolute: p.root.absolute, segments: p.root.segments.push("settings.gradle.kts"@) }
}

impl Projects {
    /// A configuration with no module selected yet.
    pub fn new(
        excluded_projects: &str,
        include_projects: &str,
        gradle_cmd: Option<String>,
        root: DirPath,
    ) -> (r: Self)
        ensures
            r@ == (ProjectsView {
                excluded_projects: excluded_projects@,
                include_projects: include_projects@,
                gradle_cmd: match gradle_cmd {
                    Some(c) => Some(c@),
                    None => None,
                },
                projects: Seq::empty(),
                root: root@,
            }),
    {
        let r = Self {
            excluded_projects: string_of(&chars_of(excluded_projects)),
            include_projects: string_of(&chars_of(include_projects)),
            gradle_cmd,
            projects: Vec::new(),
            root,
        };
        assert(project_views(r.projects@) =~= Seq::<ProjectView>::empty());
        r
    }

    /// The command that runs the build tool.
    pub fn gradle_cmd(&self) -> (c: String)
        ensures
            c@ == build_command(self@),
    {
        match &self.gradle_cmd {
            Some(c) => c.clone(),
            None => self.root.child("gradlew").display(),
        }
    }

    /// The chain that every scan starts from: it refuses the modules whose name
    /// the exclusion pattern matches.
    pub fn create_filters(&self) -> (f: ProjectFilters)
        ensures
            f@ == exclusion(self@),
    {
        ProjectFilters::new().exclude_projects(self.excluded_projects.as_str())
    }

    /// The modules that the last scan selected.
    pub fn projects(&self) -> (r: &Vec<Project>)
        ensures
            project_views(r@) == self@.projects,
    {
        &self.projects
    }

    /// How many modules the last scan selected.
    pub fn len(&self) -> (n: usize)
        ensures
            n == self@.projects.len(),
    {
        self.projects.len()
    }

    /// Whether the last scan selected nothing.
    pub fn is_empty(&self) -> (b: bool)
        ensures
            b == (self@.projects.len() == 0),
    {
        self.projects.len() == 0
    }

    /// The root of the repository.
    pub fn root(&self) -> (r: DirPath)
        ensures
            r@ == self@.root,
    {
        self.root.clone()
    }

    /// The root directory of the build.
    pub fn root_project(&self) -> (r: DirPath)
        ensures
            r@ == self@.root,
    {
        self.root.clone()
    }

    /// The roots that a scan covers: the root of the repository, and each path
    /// of the configuration, which are separated by white space.
    pub fn scan_roots(&self) -> (r: Vec<DirPath>)
        ensures
            path_views(r@) == scan_roots_of(self@),
    {
        let alts = words(&chars_of(self.include_projects.as_str()));
        let names = strings_of(&alts);
        let mut r: Vec<DirPath> = Vec::new();
        r.push(self.root.clone());
        let ghost extra = views(names@);
        let ghost root = self@.root;
        let ghost place = |alt: Seq<char>| joined_path(root, parsed_path(alt));
        let mut i: usize = 0;
        while i < names.len()
            invariant
                i <= names.len(),
                extra == views(names@),
                root == self@.root,
                place == |alt: Seq<char>| joined_path(root, parsed_path(alt)),
                path_views(r@) == seq![root] + extra.take(i as int).map_values(place),
            decreases names.len() - i,
        {
            let ghost before = r@;
            let p = self.root.join(&DirPath::parse(names[i].as_str()));
            r.push(p);
            proof {
                assert(path_views(r@) =~= path_views(before).push(p@));
            }
            i += 1;
        }
        r
    }

    /// Whether `found` can be scanned: it holds one list of descriptors for
    /// each root of the scan, and every descriptor lies at or below its root.
    pub fn is_listing(&self, found: &Vec<Vec<Descriptor>>) -> (b: bool)
        ensures
            b == (found.len() == scan_roots_of(self@).len() && forall|i: int|
                0 <= i < found.len() ==> all_below(
                    descriptor_views(#[trigger] found[i]@),
                    scan_roots_of(self@)[i],
                )),
    {
        let roots = self.scan_roots();
        if roots.len() != found.len() {
            return false;
        }
        let mut i: usize = 0;
        while i < found.len()
            invariant
                i <= found.len(),
                roots.len() == found.len(),
                path_views(roots@) == scan_roots_of(self@),
                forall|k: int|
                    0 <= k < i ==> all_below(
                        descriptor_views(#[trigger] found[k]@),
                        scan_roots_of(self@)[k],
                    ),
            decreases found.len() - i,
        {
            let list = &found[i];
            let root = &roots[i];
            let mut k: usize = 0;
            while k < list.len()
                invariant
                    k <= list.len(),
                    i < found.len(),
                    list == found[i as int],
                    root@ == scan_roots_of(self@)[i as int],
                    forall|j: int|
                        0 <= j < k ==> lies_below(
                            (#[trigger] descriptor_views(list@)[j]).file,
                            root@,
                        ),
                decreases list.len() - k,
            {
                assert(descriptor_views(list@)[k as int] == list@[k as int]@);
                if !crate::project::is_below(&list[k].file, root) {
                    return false;
                }
                k += 1;
            }
            i += 1;
        }
        true
    }

    /// The modules to build among those found under `from`.
    ///
    /// Each descriptor stands for the module in its directory. The modules that
    /// `filters` accepts are selected. With `scan_impacted_projects` the modules
    /// that depend on them come in too, unless the exclusion pattern matches
    /// their name. Whatever a selected module depends on comes in at last.
    pub fn scan_from(
        &self,
        from: &DirPath,
        found: &Vec<Descriptor>,
        filters: &ProjectFilters,
        scan_impacted_projects: bool,
    ) -> (r: Vec<Project>)
        requires
            all_below(descriptor_views(found@), from@),
        ensures
            project_views(r@) == scanned(
                from@,
                descriptor_views(found@),
                filters@,
                exclusion(self@),
                scan_impacted_projects,
            ),
    {
        let ghost all = found_modules(from@, descriptor_views(found@));
        let ghost yes = |m: ModuleView| accepts_all(filters@, m.project);
        let ghost no = |m: ModuleView| !accepts_all(filters@, m.project);
        let mut matched: Vec<Candidate> = Vec::new();
        let mut others: Vec<Candidate> = Vec::new();
        let mut i: usize = 0;
        while i < found.len()
            invariant
                i <= found.len(),
                all_below(descriptor_views(found@), from@),
                all == found_modules(from@, descriptor_views(found@)),
                yes == |m: ModuleView| accepts_all(filters@, m.project),
                no == |m: ModuleView| !accepts_all(filters@, m.project),
                modules(matched@) == all.take(i as int).filter(yes),
                modules(others@) == all.take(i as int).filter(no),
            decreases found.len() - i,
        {
            let d = &found[i];
            assert(descriptor_views(found@)[i as int] == d@);
            let project = Project::locate(from, &d.file);
            let text = match &d.text {
                Some(t) => Some(t.clone()),
                None => None,
            };
            let accepted = filters.accepts(&project);
            let c = Candidate::new(project, text);
            proof {
                assert(all.take(i + 1).drop_last() =~= all.take(i as int));
                reveal(Seq::filter);
            }
            if accepted {
                matched.push(c);
            } else {
                others.push(c);
            }
            i += 1;
        }
        assert(all.take(found.len() as int) =~= all);
        let exclude = self.create_filters();
        let chosen = select(matched, others, scan_impacted_projects, &exclude);
        let ghost pick = |m: ModuleView| m.project;
        let mut r: Vec<Project> = Vec::new();
        let mut k: usize = 0;
        while k < chosen.len()
            invariant
                k <= chosen.len(),
                pick == |m: ModuleView| m.project,
                project_views(r@) == modules(chosen@).take(k as int).map_values(pick),
            decreases chosen.len() - k,
        {
            let ghost before = r@;
            let p = chosen[k].project.clone();
            r.push(p);
            proof {
                assert(project_views(r@) =~= project_views(before).push(p@));
            }
            k += 1;
        }
        r
    }

    /// Scans every root and keeps the modules to build: those of the root of
    /// the repository first, then those of each configured path in turn.
    ///
    /// `found` holds, for each root that [`Projects::scan_roots`] names and in
    /// that order, the descriptors found under it. Modules of two roots that
    /// share a name are both kept.
    pub fn scan(
        &mut self,
        filters: &ProjectFilters,
        scan_impacted_projects: bool,
        found: &Vec<Vec<Descriptor>>,
    )
        requires
            found.len() == scan_roots_of(old(self)@).len(),
            forall|i: int|
                0 <= i < found.len() ==> all_below(
                    descriptor_views(#[trigger] found[i]@),
                    scan_roots_of(old(self)@)[i],
                ),
        ensures
            final(self)@ == (ProjectsView {
                projects: scanned_all(
                    scan_roots_of(old(self)@),
                    listing_views(found@),
                    filters@,
                    exclusion(old(self)@),
                    scan_impacted_projects,
                ),
                ..old(self)@
            }),
    {
        let roots = self.scan_roots();
        let ghost root_views = scan_roots_of(self@);
        let ghost lists = listing_views(found@);
        let ghost exclude = exclusion(self@);
        let mut r: Vec<Project> = Vec::new();
        let mut i: usize = 0;
        while i < roots.len()
            invariant
                i <= roots.len(),
                roots.len() == found.len(),
                self@ == old(self)@,
                root_views == scan_roots_of(self@),
                root_views == path_views(roots@),
                lists == listing_views(found@),
                exclude == exclusion(self@),
                forall|k: int|
                    0 <= k < found.len() ==> all_below(
                        descriptor_views(#[trigger] found[k]@),
                        root_views[k],
                    ),
                project_views(r@) == scanned_all(
                    root_views.take(i as int),
                    lists.take(i as int),
                    filters@,
                    exclude,
                    scan_impacted_projects,
                ),
            decreases roots.len() - i,
        {
            let part = self.scan_from(&roots[i], &found[i], filters, scan_impacted_projects);
            let ghost before = r@;
            let mut k: usize = 0;
            while k < part.len()
                invariant
                    k <= part.len(),
                    project_views(r@) == project_views(before) + project_views(part@).take(
                        k as int,
                    ),
                decreases part.len() - k,
            {
                let ghost prev = r@;
                let p = part[k].clone();
                r.push(p);
                proof {
                    assert(project_views(r@) =~= project_views(prev).push(p@));
                }
                k += 1;
            }
            proof {
                assert(root_views.take(i + 1).drop_last() =~= root_views.take(i as int));
                assert(lists.take(i + 1).drop_last() =~= lists.take(i as int));
            }
            i += 1;
        }
        proof {
            assert(root_views.take(roots.len() as int) =~= root_views);
            assert(lists.take(roots.len() as int) =~= lists);
        }
        self.projects = r;
    }

    /// The chain for a scan: the modules that the exclusion pattern leaves and
    /// whose name `name_pattern` matches and, unless `all` is set, that changed
    /// since a commit. The commit is `after_commit` or, where none is given,
    /// the branch that the current one follows, as the version control system
    /// names it. Where it names none, change is not asked about; where it does
    /// not name the changed files, neither.
    pub fn scan_filters<V: VersionControl>(
        &self,
        vc: &V,
        all: bool,
        after_commit: Option<String>,
        name_pattern: &str,
        triggers: Option<&str>,
    ) -> (r: ProjectFilters)
        ensures
            ({
                let named = with_pattern(exclusion(self@), name_pattern@, true);
                let table = match triggers {
                    Some(t) => Some(t@),
                    None => None,
                };
                if all {
                    r@ == named
                } else {
                    match after_commit {
                        Some(c) => made_since(vc, c@, named, table, r@),
                        None => exists|remote: Result<String>| #[trigger]
                            gave_remote_branch(vc, remote) && match remote {
                                Ok(branch) => made_since(vc, branch@, named, table, r@),
                                Err(_) => r@ == named,
                            },
                    }
                }
            }),
    {
        let filters = self.create_filters().with_name_regex(name_pattern);
        if all {
            return filters;
        }
        match after_commit {
            Some(c) => filters.since_commit(vc, c.as_str(), triggers),
            None => {
                let remote = vc.remote_branch();
                assert(gave_remote_branch(vc, remote));
                match remote {
                    Ok(branch) => filters.since_commit(vc, branch.as_str(), triggers),
                    Err(_) => filters,
                }
            },
        }
    }

    /// The settings file that the IDE opens: `settings.gradle.kts` in the root.
    pub fn default_settings_file(&self) -> (f: DirPath)
        ensures
            f@ == default_settings_path(self@),
    {
        self.root.child("settings.gradle.kts")
    }

    /// The customization file whose text is copied into every settings file:
    /// `settings.pre.gradle.kts` in the root.
    pub fn prologue_file(&self) -> (f: DirPath)
        ensures
            f@ == (PathView {
                absolute: self@.root.absolute,
                segments: self@.root.segments.push("settings.pre.gradle.kts"@),
            }),
    {
        self.root.child("settings.pre.gradle.kts")
    }

    /// The trigger file: `build.triggers` in the root.
    pub fn triggers_file(&self) -> (f: DirPath)
        ensures
            f@ == (PathView {
                absolute: self@.root.absolute,
                segments: self@.root.segments.push("build.triggers"@),
            }),
    {
        self.root.child("build.triggers")
    }

    /// The text of the settings file that names the selected modules.
    /// `prologue` is the text of the customization file, if there is one.
    pub fn create_settings(&self, prologue: Option<&str>) -> (text: String)
        ensures
            text@ == settings_text(
                match prologue {
                    Some(t) => Some(t@),
                    None => None,
                },
                entries_of(self@.projects, self@.root),
            ),
    {
        render_settings(&self.projects, &self.root, prologue)
    }

    /// The text of the settings file that names `subprojects`.
    pub fn create_settings_for_subprojects(
        &self,
        subprojects: &Vec<Project>,
        prologue: Option<&str>,
    ) -> (text: String)
        ensures
            text@ == settings_text(
                match prologue {
                    Some(t) => Some(t@),
                    None => None,
                },
                entries_of(project_views(subprojects@), self@.root),
            ),
    {
        render_settings(subprojects, &self.root, prologue)
    }

    /// The settings file that the IDE opens, and the text to write to it.
    pub fn add_to_default_settings_file(&self, prologue: Option<&str>) -> (r: (DirPath, String))
        ensures
            r.0@ == default_settings_path(self@),
            r.1@ == settings_text(
                match prologue {
                    Some(t) => Some(t@),
                    None => None,
                },
                entries_of(self@.projects, self@.root),
            ),
    {
        (self.default_settings_file(), self.create_settings(prologue))
    }

    /// The settings file that the IDE opens, and the entries of the selected
    /// modules to append to it. Without such a file this is an error that
    /// names where the file was expected.
    pub fn append_to_default_settings_file(&self, exists: bool) -> (r: Result<(DirPath, String)>)
        ensures
            exists ==> r is Ok && r->Ok_0.0@ == default_settings_path(self@) && r->Ok_0.1@
                == entries_text(entries_of(self@.projects, self@.root)),
            !exists ==> r is Err && r->Err_0@.cause is None && r->Err_0@.description
                == "There is no settings file exists at "@ + path_text(default_settings_path(self@)),
    {
        let file = self.default_settings_file();
        if exists {
            Ok((file, render_entries(&self.projects, &self.root)))
        } else {
            let mut text = chars_of("There is no settings file exists at ");
            append_chars(&mut text, &chars_of(file.display().as_str()));
            Err(Error::from_str(string_of(&text).as_str()))
        }
    }
}

} // verus!
