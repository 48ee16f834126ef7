use abt::path::DirPath;
use abt::project::Project;
use abt::projects::{Descriptor, Projects};
use abt::settings::{parse_settings, render_entries, render_settings, write_failed};

const HEADER: &str = "// this is auto generated, please don't edit.\n// You can add logic in settings.pre.gradle.kts instead.\n// Ue `abt -v open` can regenerate this file.\n";

fn module(path: &str, name: &str) -> Project {
    Project { path: DirPath::parse(path), name: name.to_string() }
}

fn sample() -> Vec<Project> {
    vec![
        module("/repo/feature/login", "feature:login"),
        module("/libs/core", "core"),
        module("/repo", ""),
    ]
}

#[test]
fn settings_start_with_the_header() {
    let text = render_settings(&Vec::new(), &DirPath::parse("/repo"), None);
    assert_eq!(text, HEADER);
}

#[test]
fn settings_hold_two_lines_and_a_blank_for_each_module() {
    let text = render_settings(&sample(), &DirPath::parse("/repo"), None);
    let expected = format!(
        "{}{}{}{}",
        HEADER,
        "include(\":feature:login\")\nproject(\":feature:login\").projectDir = file(\"./feature/login\")\n\n",
        "include(\":core\")\nproject(\":core\").projectDir = file(\"./../libs/core\")\n\n",
        "include(\":\")\nproject(\":\").projectDir = file(\"./\")\n\n",
    );
    assert_eq!(text, expected);
}

#[test]
fn settings_copy_the_prologue_after_the_header() {
    let modules = vec![module("/repo/a", "a")];
    let text = render_settings(&modules, &DirPath::parse("/repo"), Some("rootProject.name = \"x\"\n"));
    let expected = format!(
        "{}rootProject.name = \"x\"\n{}",
        HEADER,
        "include(\":a\")\nproject(\":a\").projectDir = file(\"./a\")\n\n",
    );
    assert_eq!(text, expected);
}

#[test]
fn entries_alone_have_no_header() {
    let modules = vec![module("/repo/a", "a")];
    assert_eq!(
        render_entries(&modules, &DirPath::parse("/repo")),
        "include(\":a\")\nproject(\":a\").projectDir = file(\"./a\")\n\n"
    );
    assert_eq!(render_entries(&Vec::new(), &DirPath::parse("/repo")), "");
}

#[test]
fn settings_read_back_as_the_modules_that_were_written() {
    let modules = sample();
    let root = DirPath::parse("/repo");
    let text = render_settings(&modules, &root, None);
    let entries = parse_settings(&text);
    assert_eq!(entries.len(), modules.len());
    for (e, m) in entries.iter().zip(modules.iter()) {
        assert_eq!(e.name, m.name);
        assert_eq!(e.dir, m.path.relative_to(&root));
    }
    assert_eq!(entries[1].dir, "./../libs/core");
}

#[test]
fn settings_with_awkward_names_read_back() {
    let modules = vec![
        module("/repo/we\"ird", "we\"ird\")"),
        module("/repo/x y", "include(\":x\")"),
    ];
    let root = DirPath::parse("/repo");
    let entries = parse_settings(&render_settings(&modules, &root, None));
    assert_eq!(entries.len(), 2);
    assert_eq!(entries[0].name, "we\"ird\")");
    assert_eq!(entries[0].dir, "./we\"ird");
    assert_eq!(entries[1].name, "include(\":x\")");
    assert_eq!(entries[1].dir, "./x y");
}

#[test]
fn reading_passes_over_other_lines() {
    let text = "\
// comment
include(\":a\")
project(\":a\").projectDir = file(\"./a\")

rootProject.name = \"x\"
include(\":lonely\")
include(\":b\")
project(\":other\").projectDir = file(\"./other\")
include(\":c\")
project(\":c\").projectDir = file(\"./deep/c\")";
    let entries = parse_settings(text);
    assert_eq!(entries.len(), 2);
    assert_eq!(entries[0].name, "a");
    assert_eq!(entries[0].dir, "./a");
    assert_eq!(entries[1].name, "c");
    assert_eq!(entries[1].dir, "./deep/c");
    assert!(parse_settings("").is_empty());
    assert!(parse_settings("include(\":a\")").is_empty());
}

#[test]
fn projects_write_what_they_selected() {
    let mut ps = Projects::new("^$", "", None, DirPath::parse("/repo"));
    let filters = ps.create_filters();
    let found = vec![vec![Descriptor { file: DirPath::parse("/repo/a/b/build.gradle"), text: None }]];
    ps.scan(&filters, false, &found);
    let entry = "include(\":a:b\")\nproject(\":a:b\").projectDir = file(\"./a/b\")\n\n";
    assert_eq!(ps.create_settings(None), format!("{}{}", HEADER, entry));
    assert_eq!(ps.create_settings(Some("pre\n")), format!("{}pre\n{}", HEADER, entry));
    let (file, text) = ps.add_to_default_settings_file(None);
    assert_eq!(file.display(), "/repo/settings.gradle.kts");
    assert_eq!(text, format!("{}{}", HEADER, entry));
    let subset = vec![module("/repo/z", "z")];
    assert_eq!(
        ps.create_settings_for_subprojects(&subset, None),
        format!("{}{}", HEADER, "include(\":z\")\nproject(\":z\").projectDir = file(\"./z\")\n\n")
    );
}

#[test]
fn appending_needs_a_settings_file() {
    let mut ps = Projects::new("^$", "", None, DirPath::parse("/repo"));
    let filters = ps.create_filters();
    let found = vec![vec![Descriptor { file: DirPath::parse("/repo/a/build.gradle"), text: None }]];
    ps.scan(&filters, false, &found);
    let (file, text) = ps.append_to_default_settings_file(true).unwrap();
    assert_eq!(file.display(), "/repo/settings.gradle.kts");
    assert_eq!(text, "include(\":a\")\nproject(\":a\").projectDir = file(\"./a\")\n\n");
    let e = ps.append_to_default_settings_file(false).unwrap_err();
    assert_eq!(e.message(), "There is no settings file exists at /repo/settings.gradle.kts");
}

#[test]
fn write_error_names_the_file() {
    let e = write_failed(&DirPath::parse("/repo/build.settings.gradle.kts"), "disk full");
    assert_eq!(e.description(), "Can't write to /repo/build.settings.gradle.kts");
    assert_eq!(e.cause(), Some("disk full"));
    assert_eq!(e.message(), "Can't write to /repo/build.settings.gradle.kts caused by: disk full");
}
