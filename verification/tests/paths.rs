use abt::path::{clone_strings, DirPath};

fn path(s: &str) -> DirPath {
    DirPath::parse(s)
}

#[test]
fn parse_drops_empty_and_dot_segments() {
    let p = path("/a//b/./c/");
    assert!(p.absolute);
    assert_eq!(p.segments, vec!["a".to_string(), "b".to_string(), "c".to_string()]);
    assert_eq!(p.display(), "/a/b/c");
}

#[test]
fn parse_keeps_relative_paths_relative() {
    let p = path("libs/core");
    assert!(!p.absolute);
    assert_eq!(p.segments, vec!["libs".to_string(), "core".to_string()]);
    assert_eq!(p.display(), "libs/core");
}

#[test]
fn parse_of_nothing_is_the_empty_relative_path() {
    let p = path("");
    assert!(!p.absolute);
    assert!(p.segments.is_empty());
    assert_eq!(p.display(), "");
}

#[test]
fn parse_keeps_two_dots() {
    let p = path("a/../b");
    assert_eq!(p.segments, vec!["a".to_string(), "..".to_string(), "b".to_string()]);
}

#[test]
fn relative_to_walks_up() {
    let root = path("/repo/main");
    let inside = path("/repo/main/feature/login");
    let outside = path("/repo/libs/core");
    assert_eq!(inside.relative_to(&root), "./feature/login");
    assert_eq!(outside.relative_to(&root), "./../libs/core");
    assert_eq!(root.relative_to(&root), "./");
}

#[test]
fn relative_to_walks_up_to_the_top() {
    let root = path("/a/b/c");
    let other = path("/x");
    assert_eq!(other.relative_to(&root), "./../../../x");
}

#[test]
fn starts_with_goes_by_segments() {
    let p = path("/repo/feature-login/src");
    assert!(p.starts_with(&path("/repo/feature-login")));
    assert!(p.starts_with(&path("/repo")));
    assert!(p.starts_with(&path("/")));
    assert!(p.starts_with(&p));
    assert!(!p.starts_with(&path("/repo/feature")));
    assert!(!p.starts_with(&path("repo")));
    assert!(!p.starts_with(&path("/repo/feature-login/src/main")));
}

#[test]
fn strip_prefix_gives_the_rest() {
    let p = path("/repo/a/b");
    let rest = p.strip_prefix(&path("/repo")).unwrap();
    assert!(!rest.absolute);
    assert_eq!(rest.segments, vec!["a".to_string(), "b".to_string()]);
    assert!(p.strip_prefix(&path("/other")).is_none());
    let all = p.strip_prefix(&p).unwrap();
    assert!(all.segments.is_empty());
}

#[test]
fn parent_drops_the_last_segment() {
    let p = path("/repo/a/build.gradle");
    let dir = p.parent().unwrap();
    assert_eq!(dir.display(), "/repo/a");
    assert!(path("/").parent().is_none());
    assert!(path("").parent().is_none());
    assert_eq!(path("a").parent().unwrap().display(), "");
}

#[test]
fn join_appends_or_replaces() {
    let root = path("/repo");
    assert_eq!(root.join(&path("libs/core")).display(), "/repo/libs/core");
    assert_eq!(root.join(&path("/elsewhere")).display(), "/elsewhere");
    assert_eq!(root.join(&path("")).display(), "/repo");
}

#[test]
fn child_adds_one_segment() {
    let root = path("/repo");
    assert_eq!(root.child("gradlew").display(), "/repo/gradlew");
    assert_eq!(path("").child("x").display(), "x");
}

#[test]
fn same_as_compares_whole_paths() {
    assert!(path("/a/b").same_as(&path("/a//b/")));
    assert!(!path("/a/b").same_as(&path("a/b")));
    assert!(!path("/a/b").same_as(&path("/a")));
    assert!(!path("/a/b").same_as(&path("/a/c")));
}

#[test]
fn shared_segments_counts_the_common_start() {
    assert_eq!(path("/a/b/c").shared_segments(&path("/a/b/d")), 2);
    assert_eq!(path("/a").shared_segments(&path("/b")), 0);
    assert_eq!(path("/a/b").shared_segments(&path("/a/b")), 2);
}

#[test]
fn clone_keeps_the_path() {
    let p = path("/a/b");
    let q = p.clone();
    assert!(p.same_as(&q));
    assert_eq!(clone_strings(&p.segments), p.segments);
}
