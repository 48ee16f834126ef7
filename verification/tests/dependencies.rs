use abt::deps::{find_reference, parse_dependencies, read_dependencies, Candidate};
use abt::path::DirPath;
use abt::project::Project;
use abt::text::{chars_of, string_of};

fn reference(line: &str) -> Option<String> {
    find_reference(&chars_of(line)).map(|v| string_of(&v))
}

fn candidate(name: &str, text: Option<&str>) -> Candidate {
    Candidate::new(
        Project { path: DirPath::parse(name), name: name.to_string() },
        text.map(|t| t.to_string()),
    )
}

#[test]
fn reference_is_what_follows_the_colon() {
    assert_eq!(reference("implementation project(':core')"), Some("core".to_string()));
    assert_eq!(reference("api(project(\":feature:login\"))"), Some("feature:login".to_string()));
    assert_eq!(reference("project(':a"), Some("a".to_string()));
}

#[test]
fn reference_needs_a_quote_a_colon_and_a_name() {
    assert_eq!(reference("project('core')"), None);
    assert_eq!(reference("project(:core)"), None);
    assert_eq!(reference("project(':')"), None);
    assert_eq!(reference("':"), None);
    assert_eq!(reference(""), None);
}

#[test]
fn reference_is_the_first_of_a_line() {
    assert_eq!(reference("a project(':x'), project(':y')"), Some("x".to_string()));
    assert_eq!(reference("':' then ':z'"), Some("z".to_string()));
}

#[test]
fn reference_may_start_at_any_quote() {
    assert_eq!(reference("'':a'"), Some("a".to_string()));
    assert_eq!(reference("\"':b\""), Some("b".to_string()));
}

#[test]
fn dependencies_skip_comments_and_lines_without_marker() {
    let text = "\
dependencies {
    implementation project(':core')
    // implementation project(':old')
      //project(':older')
    implementation 'com.example:lib:1.0'
    api project(\":feature:login\")
    implementation project(':a') // project(':b')
}
";
    assert_eq!(parse_dependencies(text), vec!["core", "feature:login", "a"]);
}

#[test]
fn dependencies_take_one_reference_for_each_line() {
    assert_eq!(parse_dependencies("x project(':a'); y project(':b')"), vec!["a"]);
}

#[test]
fn dependencies_of_nothing_are_none() {
    assert_eq!(parse_dependencies(""), Vec::<String>::new());
    assert_eq!(parse_dependencies("plugins { id 'x' }\n"), Vec::<String>::new());
}

#[test]
fn dependencies_may_repeat() {
    assert_eq!(parse_dependencies("project(':a')\nproject(':a')\n"), vec!["a", "a"]);
}

#[test]
fn dependencies_handle_carriage_returns() {
    assert_eq!(parse_dependencies("project(':a')\r\nproject(':b')\r\n"), vec!["a", "b"]);
}

#[test]
fn resolve_fills_the_slot_once() {
    let mut c = candidate("a", Some("project(':b')"));
    assert!(c.dependencies.is_none());
    c.resolve();
    assert_eq!(c.dependencies, Some(vec!["b".to_string()]));
    c.descriptor = Some("project(':other')".to_string());
    c.resolve();
    assert_eq!(c.dependencies, Some(vec!["b".to_string()]));
}

#[test]
fn resolve_without_a_descriptor_gives_no_dependencies() {
    let mut c = candidate("a", None);
    c.resolve();
    assert_eq!(c.dependencies, Some(Vec::new()));
}

#[test]
fn read_dependencies_fills_every_empty_slot() {
    let mut all = vec![
        candidate("a", Some("project(':b')")),
        candidate("b", None),
        candidate("c", Some("project(':a')\nproject(':b')")),
    ];
    all[1].dependencies = Some(vec!["kept".to_string()]);
    read_dependencies(&mut all);
    assert_eq!(all.len(), 3);
    assert_eq!(all[0].dependencies, Some(vec!["b".to_string()]));
    assert_eq!(all[1].dependencies, Some(vec!["kept".to_string()]));
    assert_eq!(all[2].dependencies, Some(vec!["a".to_string(), "b".to_string()]));
    assert_eq!(all[0].project.name, "a");
}
