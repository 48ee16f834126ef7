//! Planning the run of the build tool and judging how it ended.
//!
//! The library starts no process. It says what is to be written and run, and
//! the caller reports what happened.
use crate::error::{Error, Result};
use crate::path::{path_text, DirPath, PathView};
use crate::project::{Project, ProjectView};
use crate::projects::{build_command, Projects, ProjectsView};
use crate::settings::{entries_of, project_views, settings_text};
use crate::text::{
    chars_of, same_chars, slice_of, string_of, strings_of, trim_start_matches, views,
    without_leading, words, words_of,
};
use vstd::prelude::*;

verus! {

/// What a command is: the program and its arguments.
pub struct CommandView {
    pub program: Seq<char>,
    pub args: Seq<Seq<char>>,
}

/// A command to run.
#[derive(Debug)]
pub struct Command {
    pub program: String,
    pub args: Vec<String>,
}

impl View for Command {
    type V = CommandView;

    open spec fn view(&self) -> CommandView {
        CommandView { program: self.program@, args: views(self.args@) }
    }
}

/// What is to be done for a build.
#[derive(Debug)]
pub enum BuildStep {
    /// No module is selected: nothing is written and nothing is run.
    Nothing,
    /// Write `settings` to `settings_file`, then run `command` and wait for it.
    Run { settings_file: DirPath, settings: String, command: Command },
}

/// How the run of the build tool ended.
#[derive(Debug)]
pub enum BuildEvent {
    /// The process could not be started; the text says why.
    SpawnFailed(String),
    /// Waiting for the process failed; the text says why.
    WaitFailed(String),
    /// The process ended, with or without success.
    Exited { success: bool },
}

/// The position of the last `c` in `s`, or -1 if there is none.
pub open spec fn last_index(s: Seq<char>, c: char) -> int
    decreases s.len(),
{
    if s.len() == 0 {
        -1
    } else if s.last() == c {
        s.len() - 1
    } else {
        last_index(s.drop_last(), c)
    }
}

/// The module that a task belongs to: what stands before the last colon of
/// the task, without the colons at its start.
pub open spec fn task_module(task: Seq<char>) -> Seq<char> {
    without_leading(task.take(last_index(task, ':')), ':')
}

/// Whether one of the modules has this name.
pub open spec fn is_selected(name: Seq<char>, projects: Seq<ProjectView>) -> bool {
    exists|i: int| 0 <= i < projects.len() && (#[trigger] projects[i]).name == name
}

/// A task is run if it names no module, or if the module it names is selected.
pub open spec fn is_runnable(task: Seq<char>, projects: Seq<ProjectView>) -> bool {
    last_index(task, ':') < 0 || is_selected(task_module(task), projects)
}

/// The tasks that are handed to the build tool: the runnable ones among those
/// asked for, or the task that lists the modules if none is left.
pub open spec fn tasks_to_run(tasks: Seq<Seq<char>>, projects: Seq<ProjectView>) -> Seq<Seq<char>> {
    let kept = tasks.filter(|t: Seq<char>| is_runnable(t, projects));
    if kept.len() == 0 {
        seq!["projects"@]
    } else {
        kept
    }
}

/// The flag for a verbosity level: quiet at 0, none at 1, informative at 2,
/// and debugging above.
pub open spec fn verbosity_flag(verbose: usize) -> Seq<Seq<char>> {
    if verbose == 0 {
        seq!["-w"@]
    } else if verbose == 1 {
        Seq::empty()
    } else if verbose == 2 {
        seq!["-i"@]
    } else {
        seq!["-d"@]
    }
}

/// The settings file of a build: `build.settings.gradle.kts` in the root.
pub open spec fn build_settings_path(root: PathView) -> PathView {
    PathView { absolute: root.absolute, segments: root.segments.push("build.settings.gradle.kts"@) }
}

/// The command of a build: the first word of the configured command as the
/// program; as arguments the verbosity flag, the settings file, the other
/// words of the configured command, and the tasks.
pub open spec fn command_for(
    words: Seq<Seq<char>>,
    settings_file: PathView,
    tasks: Seq<Seq<char>>,
    verbose: usize,
) -> CommandView {
    CommandView {
        program: words[0],
        args: verbosity_flag(verbose) + seq!["-c"@, path_text(settings_file)] + words.skip(1)
            + tasks,
    }
}

/// The position of the last `c` in `s`, if there is one.
fn find_last(s: &Vec<char>, c: char) -> (r: Option<usize>)
    ensures
        match r {
            Some(i) => i == last_index(s@, c) && i < s.len(),
            None => last_index(s@, c) == -1,
        },
{
    let mut n: usize = s.len();
    assert(s@.take(n as int) =~= s@);
    while n > 0
        invariant
            n <= s.len(),
            last_index(s@, c) == last_index(s@.take(n as int), c),
        decreases n,
    {
        let ghost head = s@.take(n as int);
        if s[n - 1] == c {
            return Some(n - 1);
        }
        assert(head.drop_last() =~= s@.take(n - 1));
        n -= 1;
    }
    None
}

/// Whether one of the modules has this name.
fn has_module(projects: &Vec<Project>, name: &Vec<char>) -> (b: bool)
    ensures
        b == is_selected(name@, project_views(projects@)),
{
    let mut i: usize = 0;
    while i < projects.len()
        invariant
            i <= projects.len(),
            forall|k: int| 0 <= k < i ==> (#[trigger] project_views(projects@)[k]).name != name@,
        decreases projects.len() - i,
    {
        assert(project_views(projects@)[i as int] == projects@[i as int]@);
        let candidate = chars_of(projects[i].name.as_str());
        if same_chars(&candidate, name) {
            return true;
        }
        i += 1;
    }
    false
}

/// Whether a task is run.
fn runnable(task: &Vec<char>, projects: &Vec<Project>) -> (b: bool)
    ensures
        b == is_runnable(task@, project_views(projects@)),
{
    match find_last(task, ':') {
        None => true,
        Some(at) => {
            let before = slice_of(task, 0, at);
            let name = trim_start_matches(&before, ':');
            has_module(projects, &name)
        },
    }
}

/// The tasks that are handed to the build tool.
pub fn filter_tasks(tasks: &Vec<String>, projects: &Vec<Project>) -> (r: Vec<String>)
    ensures
        views(r@) == tasks_to_run(views(tasks@), project_views(projects@)),
{
    let ghost all = views(tasks@);
    let ghost keep = |t: Seq<char>| is_runnable(t, project_views(projects@));
    let mut r: Vec<String> = Vec::new();
    let mut i: usize = 0;
    while i < tasks.len()
        invariant
            i <= tasks.len(),
            all == views(tasks@),
            keep == |t: Seq<char>| is_runnable(t, project_views(projects@)),
            views(r@) == all.take(i as int).filter(keep),
        decreases tasks.len() - i,
    {
        proof {
            assert(all.take(i + 1).drop_last() =~= all.take(i as int));
            reveal(Seq::filter);
        }
        let task = chars_of(tasks[i].as_str());
        if runnable(&task, projects) {
            let s = tasks[i].clone();
            r.push(s);
        }
        i += 1;
    }
    assert(all.take(tasks.len() as int) =~= all);
    if r.len() == 0 {
        let s = string_of(&chars_of("projects"));
        r.push(s);
    }
    r
}

/// The command of a build.
pub fn plan_command(
    words: &Vec<String>,
    settings_file: &DirPath,
    tasks: &Vec<String>,
    verbose: usize,
) -> (c: Command)
    requires
        words.len() > 0,
    ensures
        c@ == command_for(views(words@), settings_file@, views(tasks@), verbose),
{
    let mut args: Vec<String> = Vec::new();
    if verbose == 0 {
        args.push(string_of(&chars_of("-w")));
    } else if verbose == 1 {
    } else if verbose == 2 {
        args.push(string_of(&chars_of("-i")));
    } else {
        args.push(string_of(&chars_of("-d")));
    }
    args.push(string_of(&chars_of("-c")));
    args.push(settings_file.display());
    let ghost head = verbosity_flag(verbose) + seq!["-c"@, path_text(settings_file@)];
    let mut i: usize = 1;
    while i < words.len()
        invariant
            1 <= i <= words.len(),
            views(args@) == head + views(words@).subrange(1, i as int),
        decreases words.len() - i,
    {
        let ghost before = args@;
        let s = words[i].clone();
        args.push(s);
        proof {
            assert(views(args@) =~= views(before).push(s@));
        }
        i += 1;
    }
    let ghost front = views(args@);
    let mut k: usize = 0;
    while k < tasks.len()
        invariant
            k <= tasks.len(),
            views(args@) == front + views(tasks@).take(k as int),
        decreases tasks.len() - k,
    {
        let ghost before = args@;
        let s = tasks[k].clone();
        args.push(s);
        proof {
            assert(views(args@) =~= views(before).push(s@));
        }
        k += 1;
    }
    assert(views(tasks@).take(tasks.len() as int) =~= views(tasks@));
    Command { program: words[0].clone(), args }
}

/// What [`Projects::build`] plans, given the selection.
pub open spec fn planned(
    p: ProjectsView,
    tasks: Seq<Seq<char>>,
    verbose: usize,
    prologue: Option<Seq<char>>,
    step: BuildStep,
) -> bool {
    match step {
        BuildStep::Nothing => p.projects.len() == 0,
        BuildStep::Run { settings_file, settings, command } => {
            &&& p.projects.len() > 0
            &&& settings_file@ == build_settings_path(p.root)
            &&& settings@ == settings_text(prologue, entries_of(p.projects, p.root))
            &&& command@ == command_for(
                words_of(build_command(p)),
                build_settings_path(p.root),
                tasks_to_run(tasks, p.projects),
                verbose,
            )
        },
    }
}

impl Projects {
    /// Plans the build of the selected modules.
    ///
    /// With no module selected there is nothing to do, whatever the tasks and
    /// the verbosity are. Otherwise the settings file of the build is to be
    /// written and the build tool run on it. There is no plan where modules are
    /// selected and the configured command holds no word.
    pub fn build(&self, gradle_commands: &Vec<String>, verbose: usize, prologue: Option<&str>) -> (r:
        Option<BuildStep>)
        ensures
            r is None <==> self@.projects.len() > 0 && words_of(build_command(self@)).len() == 0,
            r matches Some(step) ==> planned(
                self@,
                views(gradle_commands@),
                verbose,
                match prologue {
                    Some(t) => Some(t@),
                    None => None,
                },
                step,
            ),
    {
        if self.is_empty() {
            return Some(BuildStep::Nothing);
        }
        let cmd = self.gradle_cmd();
        let pieces = words(&chars_of(cmd.as_str()));
        let parts = strings_of(&pieces);
        if parts.len() == 0 {
            return None;
        }
        let settings_file = self.root().child("build.settings.gradle.kts");
        let settings = self.create_settings_for_subprojects(self.projects(), prologue);
        let tasks = filter_tasks(gradle_commands, self.projects());
        let command = plan_command(&parts, &settings_file, &tasks, verbose);
        Some(BuildStep::Run { settings_file, settings, command })
    }
}

/// What a build comes to, given how the run of the build tool ended: success
/// if the process ended with success, and otherwise an error that says at
/// which point it failed.
pub fn build_result(event: BuildEvent) -> (r: Result<()>)
    ensures
        match event {
            BuildEvent::SpawnFailed(cause) => r is Err && r->Err_0@.description
                == "Can't start build process"@ && r->Err_0@.cause == Some(cause@),
            BuildEvent::WaitFailed(cause) => r is Err && r->Err_0@.description
                == "Build process stop failed"@ && r->Err_0@.cause == Some(cause@),
            BuildEvent::Exited { success } => if success {
                r is Ok
            } else {
                r is Err && r->Err_0@.description == "Build process failed"@ && r->Err_0@.cause
                    is None
            },
        },
{
    match event {
        BuildEvent::SpawnFailed(cause) => Err(
            Error::new("Can't start build process", cause.as_str()),
        ),
        BuildEvent::WaitFailed(cause) => Err(
            Error::new("Build process stop failed", cause.as_str()),
        ),
        BuildEvent::Exited { success } => {
            if success {
                Ok(())
            } else {
                Err(Error::from_str("Build process failed"))
            }
        },
    }
}

} // verus!
