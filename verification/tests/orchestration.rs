use abt::orchestrate::{build_result, filter_tasks, plan_command, BuildEvent, BuildStep};
use abt::path::DirPath;
use abt::project::Project;
use abt::projects::{Descriptor, Projects};

fn module(path: &str, name: &str) -> Project {
    Project { path: DirPath::parse(path), name: name.to_string() }
}

fn strings(items: &[&str]) -> Vec<String> {
    items.iter().map(|s| s.to_string()).collect()
}

fn scanned(cmd: Option<&str>, files: &[&str]) -> Projects {
    let mut ps = Projects::new("^$", "", cmd.map(|c| c.to_string()), DirPath::parse("/repo"));
    let filters = ps.create_filters();
    let found = vec![files
        .iter()
        .map(|f| Descriptor { file: DirPath::parse(f), text: None })
        .collect()];
    ps.scan(&filters, false, &found);
    ps
}

#[test]
fn empty_selection_plans_nothing() {
    let ps = scanned(None, &[]);
    for verbose in 0..4 {
        let step = ps.build(&strings(&["build", "publishModule"]), verbose, None).unwrap();
        assert!(matches!(step, BuildStep::Nothing));
    }
    let blank = scanned(Some("   "), &[]);
    assert!(matches!(blank.build(&Vec::new(), 0, Some("pre")).unwrap(), BuildStep::Nothing));
}

#[test]
fn build_plans_the_settings_file_and_the_command() {
    let ps = scanned(None, &["/repo/app/build.gradle", "/repo/libs/core/build.gradle"]);
    let step = ps.build(&strings(&["build"]), 1, Some("pre\n")).unwrap();
    match step {
        BuildStep::Run { settings_file, settings, command } => {
            assert_eq!(settings_file.display(), "/repo/build.settings.gradle.kts");
            assert_eq!(settings, ps.create_settings(Some("pre\n")));
            assert_eq!(command.program, "/repo/gradlew");
            assert_eq!(command.args, strings(&["-c", "/repo/build.settings.gradle.kts", "build"]));
        }
        BuildStep::Nothing => panic!("a build was expected"),
    }
}

#[test]
fn build_uses_the_configured_command_and_its_arguments() {
    let ps = scanned(Some("  gradle --offline  -Pfast "), &["/repo/app/build.gradle"]);
    match ps.build(&strings(&["check"]), 0, None).unwrap() {
        BuildStep::Run { command, .. } => {
            assert_eq!(command.program, "gradle");
            assert_eq!(
                command.args,
                strings(&["-w", "-c", "/repo/build.settings.gradle.kts", "--offline", "-Pfast", "check"])
            );
        }
        BuildStep::Nothing => panic!("a build was expected"),
    }
}

#[test]
fn build_without_a_command_has_no_plan() {
    let ps = scanned(Some(" \t"), &["/repo/app/build.gradle"]);
    assert!(ps.build(&strings(&["build"]), 1, None).is_none());
}

#[test]
fn verbosity_has_four_tiers() {
    let words = strings(&["gradle"]);
    let file = DirPath::parse("/s");
    let tasks = strings(&["t"]);
    assert_eq!(plan_command(&words, &file, &tasks, 0).args, strings(&["-w", "-c", "/s", "t"]));
    assert_eq!(plan_command(&words, &file, &tasks, 1).args, strings(&["-c", "/s", "t"]));
    assert_eq!(plan_command(&words, &file, &tasks, 2).args, strings(&["-i", "-c", "/s", "t"]));
    assert_eq!(plan_command(&words, &file, &tasks, 3).args, strings(&["-d", "-c", "/s", "t"]));
    assert_eq!(plan_command(&words, &file, &tasks, 17).args, strings(&["-d", "-c", "/s", "t"]));
}

#[test]
fn tasks_of_modules_that_are_not_selected_are_dropped() {
    let selected = vec![module("/repo/app", "app"), module("/repo/f/login", "f:login")];
    assert_eq!(
        filter_tasks(&strings(&["build", ":app:test", "core:test", "f:login:lint", ":f:login:x"]), &selected),
        strings(&["build", ":app:test", "f:login:lint", ":f:login:x"])
    );
    assert_eq!(filter_tasks(&strings(&["::app:test"]), &selected), strings(&["::app:test"]));
    assert_eq!(filter_tasks(&strings(&["app:"]), &selected), strings(&["app:"]));
}

#[test]
fn without_a_task_left_the_modules_are_listed() {
    let selected = vec![module("/repo/app", "app")];
    assert_eq!(filter_tasks(&strings(&["core:test"]), &selected), strings(&["projects"]));
    assert_eq!(filter_tasks(&Vec::new(), &selected), strings(&["projects"]));
    assert_eq!(filter_tasks(&strings(&[":test"]), &selected), strings(&["projects"]));
}

#[test]
fn a_task_of_the_root_module_needs_a_module_with_the_empty_name() {
    let with_root = vec![module("/repo", "")];
    assert_eq!(filter_tasks(&strings(&[":test"]), &with_root), strings(&[":test"]));
}

#[test]
fn build_result_tells_the_failures_apart() {
    assert!(build_result(BuildEvent::Exited { success: true }).is_ok());
    let failed = build_result(BuildEvent::Exited { success: false }).unwrap_err();
    assert_eq!(failed.message(), "Build process failed");
    let spawn = build_result(BuildEvent::SpawnFailed("not found".to_string())).unwrap_err();
    assert_eq!(spawn.message(), "Can't start build process caused by: not found");
    let wait = build_result(BuildEvent::WaitFailed("interrupted".to_string())).unwrap_err();
    assert_eq!(wait.message(), "Build process stop failed caused by: interrupted");
}
