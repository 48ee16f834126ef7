use abt::error::{Error, Result};
use abt::filter::{parse_rule, parse_triggers, ChangeSet, Filter, ProjectFilters};
use abt::path::DirPath;
use abt::pattern::NamePattern;
use abt::project::Project;
use abt::text::chars_of;
use abt::vc::VersionControl;

fn module(path: &str, name: &str) -> Project {
    Project { path: DirPath::parse(path), name: name.to_string() }
}

fn files(names: &[&str]) -> Vec<String> {
    names.iter().map(|s| s.to_string()).collect()
}

fn changes(names: &[&str], triggers: Option<&str>) -> ChangeSet {
    ChangeSet::new(DirPath::parse("/repo"), files(names), triggers)
}

struct Recorded {
    diff: Option<Vec<String>>,
}

impl VersionControl for Recorded {
    fn root(&self) -> DirPath {
        DirPath::parse("/repo")
    }

    fn remote_branch(&self) -> Result<String> {
        Ok("origin/feature".to_string())
    }

    fn diff_files(&self, _commit: &str) -> Result<Vec<String>> {
        match &self.diff {
            Some(f) => Ok(f.clone()),
            None => Err(Error::from_str("no such commit")),
        }
    }

    fn add_path(&self, _path: &DirPath) -> Result<()> {
        Ok(())
    }

    fn commit(&self, _message: &str) -> Result<()> {
        Ok(())
    }

    fn get_push_url(&self) -> Result<String> {
        Ok("ssh://git@host/p/r.git".to_string())
    }

    fn log(&self, _range: &str, _include_body: bool) -> Result<Vec<String>> {
        Ok(Vec::new())
    }

    fn fetch(&self, _branch: &str) -> Result<()> {
        Ok(())
    }

    fn push(&self, _branch: &str) -> Result<()> {
        Ok(())
    }

    fn merge(&self, _remote_branch: &str, _dry_run: bool) -> Result<()> {
        Ok(())
    }
}

#[test]
fn empty_chain_accepts_everything() {
    let chain = ProjectFilters::new();
    assert_eq!(chain.len(), 0);
    assert!(chain.accepts(&module("/repo/a", "a")));
}

#[test]
fn name_regex_accepts_matching_names() {
    let chain = ProjectFilters::new().with_name_regex("^feature");
    assert_eq!(chain.len(), 1);
    assert!(chain.accepts(&module("/repo/feature/login", "feature:login")));
    assert!(!chain.accepts(&module("/repo/core", "core")));
}

#[test]
fn name_regex_searches_the_whole_name() {
    let chain = ProjectFilters::new().with_name_regex("log");
    assert!(chain.accepts(&module("/repo/feature/login", "feature:login")));
}

#[test]
fn exclude_projects_refuses_matching_names() {
    let chain = ProjectFilters::new().exclude_projects("build-tools|^$");
    assert_eq!(chain.len(), 1);
    assert!(!chain.accepts(&module("/repo/build-tools", "build-tools")));
    assert!(!chain.accepts(&module("/repo", "")));
    assert!(chain.accepts(&module("/repo/core", "core")));
}

#[test]
fn bad_pattern_is_dropped() {
    let chain = ProjectFilters::new().with_name_regex("(unclosed");
    assert_eq!(chain.len(), 0);
    let chain = chain.exclude_projects("[a-");
    assert_eq!(chain.len(), 0);
    assert!(chain.accepts(&module("/repo/a", "a")));
    let chain = chain.with_name_regex("a").exclude_projects("(");
    assert_eq!(chain.len(), 1);
}

#[test]
fn filters_remember_their_pattern() {
    let chain = ProjectFilters::new().with_name_regex("^a.*$").exclude_projects("b|c");
    assert_eq!(chain.0[0].pattern(), Some("^a.*$"));
    assert_eq!(chain.0[1].pattern(), Some("b|c"));
    assert!(matches!(chain.0[0], Filter::NameInclude(_)));
    assert!(matches!(chain.0[1], Filter::NameExclude(_)));
}

#[test]
fn chain_accepts_only_what_every_filter_accepts() {
    let chain = ProjectFilters::new().exclude_projects("^core$").with_name_regex("^c");
    assert!(!chain.accepts(&module("/repo/core", "core")));
    assert!(chain.accepts(&module("/repo/common", "common")));
    assert!(!chain.accepts(&module("/repo/app", "app")));
}

#[test]
fn changed_path_at_or_above_the_module_touches_it() {
    let m = module("/repo/feature/login", "feature:login");
    assert!(changes(&["feature/login"], None).is_changed(&m));
    assert!(changes(&["feature/login/"], None).is_changed(&m));
    assert!(changes(&["feature/"], None).is_changed(&m));
    assert!(!changes(&["feature/logout/"], None).is_changed(&m));
    assert!(!changes(&["other"], None).is_changed(&m));
    assert!(!changes(&[], None).is_changed(&m));
}

#[test]
fn changed_path_goes_by_whole_segments() {
    let m = module("/repo/feature-login", "x");
    assert!(!changes(&["feature"], None).is_changed(&m));
    assert!(changes(&["feature-login"], None).is_changed(&m));
}

#[test]
fn module_name_that_starts_with_a_changed_path_is_touched() {
    let m = module("/elsewhere/x", "feature-login");
    assert!(changes(&["feature/"], None).is_changed(&m));
    assert!(changes(&["feature-login"], None).is_changed(&m));
    assert!(changes(&["feat//"], None).is_changed(&m));
    assert!(!changes(&["feature-logout"], None).is_changed(&m));
}

#[test]
fn relative_module_paths_are_taken_as_they_stand() {
    let m = module("libs/core", "zzz");
    assert!(changes(&["libs"], None).is_changed(&m));
    assert!(!changes(&["core"], None).is_changed(&m));
}

#[test]
fn module_outside_the_root_keeps_its_path() {
    let cs = changes(&["libs"], None);
    let outside = module("/other/libs/core", "zzz");
    assert!(!cs.is_changed(&outside));
    assert_eq!(cs.relative(&outside.path).display(), "/other/libs/core");
    assert_eq!(cs.relative(&DirPath::parse("/repo/libs/core")).display(), "libs/core");
}

#[test]
fn trigger_rule_fires_for_the_module_its_pattern_matches() {
    let triggers = "^service-x$:infra,shared/config\n";
    let m = module("/repo/service-x", "zzz");
    assert!(changes(&["infra/config.yml"], Some(triggers)).is_changed(&m));
    assert!(changes(&["shared/config/a.yml"], Some(triggers)).is_changed(&m));
    assert!(!changes(&["shared/other.yml"], Some(triggers)).is_changed(&m));
    assert!(!changes(&[], Some(triggers)).is_changed(&m));
    let other = module("/repo/service-y", "zzz");
    assert!(!changes(&["infra/config.yml"], Some(triggers)).is_changed(&other));
}

#[test]
fn trigger_pattern_is_held_against_the_module_not_the_changed_file() {
    let triggers = "^infra/.*:service-x\n";
    let m = module("/repo/service-x", "service-x");
    assert!(!changes(&["infra/config.yml"], Some(triggers)).is_changed(&m));
    let infra = module("/repo/infra/db", "zzz");
    assert!(changes(&["service-x/main.kt"], Some(triggers)).is_changed(&infra));
}

#[test]
fn trigger_paths_are_starts_of_texts_not_of_segments() {
    let triggers = "^m$:inf\n";
    let m = module("/repo/m", "zzz");
    assert!(changes(&["infra/config.yml"], Some(triggers)).is_changed(&m));
}

#[test]
fn trigger_lines_need_exactly_one_colon() {
    assert!(parse_rule(&chars_of("no colon")).is_none());
    assert!(parse_rule(&chars_of("a:b:c")).is_none());
    assert!(parse_rule(&chars_of("(bad:path")).is_none());
    let rule = parse_rule(&chars_of("^a$:x,y/z,")).unwrap();
    assert_eq!(rule.pattern.source(), "^a$");
    assert_eq!(rule.paths, vec!["x", "y/z", ""]);
}

#[test]
fn trigger_table_keeps_the_good_lines_in_order() {
    let table = parse_triggers("^a$:x\nbroken\n(:y\n^b$:y,z\r\n");
    assert_eq!(table.len(), 2);
    assert_eq!(table[0].pattern.source(), "^a$");
    assert_eq!(table[0].paths, vec!["x"]);
    assert_eq!(table[1].pattern.source(), "^b$");
    assert_eq!(table[1].paths, vec!["y", "z"]);
    assert!(parse_triggers("").is_empty());
}

#[test]
fn rule_is_triggered_by_a_file_under_one_of_its_paths() {
    let rule = parse_rule(&chars_of("x:a,b")).unwrap();
    assert!(rule.is_triggered_by(&files(&["c", "b/d"])));
    assert!(!rule.is_triggered_by(&files(&["c", "d/b"])));
    assert!(!rule.is_triggered_by(&files(&[])));
}

#[test]
fn changed_since_adds_one_filter_for_known_changes() {
    let chain = ProjectFilters::new().changed_since(
        DirPath::parse("/repo"),
        Ok(files(&["a/"])),
        None,
    );
    assert_eq!(chain.len(), 1);
    assert!(chain.accepts(&module("/repo/a", "a")));
    assert!(!chain.accepts(&module("/repo/b", "b")));
    assert!(chain.0[0].pattern().is_none());
}

#[test]
fn changed_since_leaves_the_chain_when_changes_are_unknown() {
    let chain = ProjectFilters::new().with_name_regex("a").changed_since(
        DirPath::parse("/repo"),
        Err(Error::from_str("no diff")),
        None,
    );
    assert_eq!(chain.len(), 1);
    assert!(chain.accepts(&module("/repo/a", "a")));
}

#[test]
fn since_commit_asks_the_version_control_system() {
    let vc = Recorded { diff: Some(files(&["a/"])) };
    let chain = ProjectFilters::new().since_commit(&vc, "HEAD~1", None);
    assert_eq!(chain.len(), 1);
    assert!(chain.accepts(&module("/repo/a", "a")));
    assert!(!chain.accepts(&module("/repo/b", "b")));
    let failing = Recorded { diff: None };
    let chain = ProjectFilters::new().since_commit(&failing, "HEAD~1", None);
    assert_eq!(chain.len(), 0);
}

#[test]
fn since_commit_reads_the_trigger_table() {
    let vc = Recorded { diff: Some(files(&["infra/config.yml"])) };
    let chain = ProjectFilters::new().since_commit(&vc, "HEAD~1", Some("^service-x$:infra\n"));
    assert!(chain.accepts(&module("/repo/service-x", "zzz")));
    assert!(!chain.accepts(&module("/repo/service-y", "zzz")));
}

#[test]
fn pattern_keeps_its_text_and_matches_by_it() {
    let p = NamePattern::new("^a+b$").unwrap();
    assert_eq!(p.source(), "^a+b$");
    assert!(p.matches("aaab"));
    assert!(!p.matches("^a+b$"));
    assert!(!p.matches("b"));
    assert!(NamePattern::new("a{").is_none());
    assert!(NamePattern::new("").unwrap().matches("anything"));
}
