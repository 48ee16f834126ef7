use abt::error::{Error, Result};
use abt::path::DirPath;
use abt::pullrequest::{
    adopt_remote_branch, check_branch_name, check_conflicts, check_request, fill_from_log,
    join_log, log_range, push_changes, refuse_reserved, strip_prefixes, submit_pull_request,
    Request,
};
use abt::text::{chars_of, string_of};
use abt::vc::VersionControl;
use std::cell::RefCell;

struct Script {
    branch: Option<String>,
    fetch_ok: bool,
    merge_ok: bool,
    calls: RefCell<Vec<String>>,
}

fn script(branch: Option<&str>) -> Script {
    Script { branch: branch.map(|b| b.to_string()), fetch_ok: true, merge_ok: true, calls: RefCell::new(Vec::new()) }
}

impl Script {
    fn note(&self, what: String) {
        self.calls.borrow_mut().push(what);
    }

    fn answer(&self, ok: bool, what: &str) -> Result<()> {
        if ok {
            Ok(())
        } else {
            Err(Error::from_str(what))
        }
    }
}

impl VersionControl for Script {
    fn root(&self) -> DirPath {
        DirPath::parse("/repo")
    }

    fn remote_branch(&self) -> Result<String> {
        self.note("remote_branch".to_string());
        match &self.branch {
            Some(b) => Ok(b.clone()),
            None => Err(Error::from_str("no upstream")),
        }
    }

    fn diff_files(&self, _commit: &str) -> Result<Vec<String>> {
        Ok(Vec::new())
    }

    fn add_path(&self, _path: &DirPath) -> Result<()> {
        Ok(())
    }

    fn commit(&self, _message: &str) -> Result<()> {
        Ok(())
    }

    fn get_push_url(&self) -> Result<String> {
        Ok("ssh://git@h/p/r.git".to_string())
    }

    fn log(&self, range: &str, include_body: bool) -> Result<Vec<String>> {
        self.note(format!("log {} {}", range, include_body));
        if include_body {
            Ok(vec!["first\n\nbody".to_string(), "second".to_string()])
        } else {
            Ok(vec!["summary".to_string()])
        }
    }

    fn fetch(&self, branch: &str) -> Result<()> {
        self.note(format!("fetch {}", branch));
        self.answer(self.fetch_ok, "fetch failed")
    }

    fn push(&self, branch: &str) -> Result<()> {
        self.note(format!("push {}", branch));
        Ok(())
    }

    fn merge(&self, remote_branch: &str, dry_run: bool) -> Result<()> {
        self.note(format!("merge {} {}", remote_branch, dry_run));
        self.answer(self.merge_ok, "conflict")
    }
}

fn request(title: &str, description: &str, branch: &str) -> Request {
    Request {
        title: title.to_string(),
        description: description.to_string(),
        branch_name: branch.to_string(),
        to_branch: "develop".to_string(),
        reviewers: vec!["ann".to_string()],
    }
}

#[test]
fn prefixes_are_stripped_as_often_as_they_come() {
    let strip = |s: &str, p: &str| string_of(&strip_prefixes(&chars_of(s), &chars_of(p)));
    assert_eq!(strip("origin/feature/x", "origin/"), "feature/x");
    assert_eq!(strip("origin/origin/x", "origin/"), "x");
    assert_eq!(strip("feature/origin/x", "origin/"), "feature/origin/x");
    assert_eq!(strip("origin/", "origin/"), "");
    assert_eq!(strip("abc", ""), "abc");
    assert_eq!(strip("", "origin/"), "");
}

#[test]
fn reserved_branches_are_refused() {
    assert!(refuse_reserved("feature/x").is_ok());
    assert!(refuse_reserved("").is_ok());
    assert!(refuse_reserved("masters").is_ok());
    assert_eq!(refuse_reserved("master").unwrap_err().message(), "Bad remote branch name: master");
    assert_eq!(refuse_reserved("develop").unwrap_err().message(), "Bad remote branch name: develop");
}

#[test]
fn remote_branch_is_adopted_without_the_remote() {
    let mut r = request("t", "d", "");
    assert!(adopt_remote_branch(&mut r, Ok("origin/feature/x".to_string())).is_ok());
    assert_eq!(r.branch_name, "feature/x");
    let mut r = request("t", "d", "");
    let e = adopt_remote_branch(&mut r, Err(Error::from_str("no upstream"))).unwrap_err();
    assert_eq!(e.message(), "no upstream");
    assert_eq!(r.branch_name, "");
}

#[test]
fn given_branch_name_is_kept_and_the_version_control_system_is_not_asked() {
    let vc = script(Some("origin/other"));
    let mut r = request("t", "d", "feature/x");
    assert!(check_branch_name(&mut r, &vc).is_ok());
    assert_eq!(r.branch_name, "feature/x");
    assert!(vc.calls.borrow().is_empty());
}

#[test]
fn missing_branch_name_comes_from_the_branch_that_is_followed() {
    let vc = script(Some("origin/feature/y"));
    let mut r = request("t", "d", "");
    assert!(check_branch_name(&mut r, &vc).is_ok());
    assert_eq!(r.branch_name, "feature/y");
    let none = script(None);
    let mut r = request("t", "d", "");
    assert_eq!(check_branch_name(&mut r, &none).unwrap_err().message(), "no upstream");
}

#[test]
fn reserved_branch_name_fails_the_check() {
    let vc = script(Some("origin/master"));
    let mut r = request("t", "d", "");
    let e = check_branch_name(&mut r, &vc).unwrap_err();
    assert_eq!(e.message(), "Bad remote branch name: master");
    let mut r = request("t", "d", "develop");
    assert!(check_branch_name(&mut r, &vc).is_err());
}

#[test]
fn log_is_joined_with_line_feeds() {
    assert_eq!(join_log(&vec!["a".to_string(), "b".to_string()]), "a\nb");
    assert_eq!(join_log(&Vec::new()), "");
    assert_eq!(log_range("develop"), "origin/develop..HEAD");
}

#[test]
fn empty_text_is_filled_from_the_log() {
    let mut text = String::new();
    assert!(fill_from_log(&mut text, Ok(vec!["a".to_string(), "b".to_string()])).is_ok());
    assert_eq!(text, "a\nb");
    let mut given = "mine".to_string();
    assert!(fill_from_log(&mut given, Ok(vec!["a".to_string()])).is_ok());
    assert_eq!(given, "mine");
    let mut text = String::new();
    assert!(fill_from_log(&mut text, Err(Error::from_str("no log"))).is_err());
    assert_eq!(text, "");
}

#[test]
fn complete_request_is_left_alone() {
    let vc = script(Some("origin/other"));
    let mut r = request("title", "description", "feature/x");
    assert!(check_request(&mut r, &vc).is_ok());
    assert_eq!(r.title, "title");
    assert_eq!(r.description, "description");
    assert_eq!(r.branch_name, "feature/x");
    assert!(vc.calls.borrow().is_empty());
}

#[test]
fn open_request_is_filled_in() {
    let vc = script(Some("origin/feature/z"));
    let mut r = request("", "", "");
    assert!(check_request(&mut r, &vc).is_ok());
    assert_eq!(r.branch_name, "feature/z");
    assert_eq!(r.title, "summary");
    assert_eq!(r.description, "first\n\nbody\nsecond");
    assert_eq!(r.to_branch, "develop");
    assert_eq!(r.reviewers, vec!["ann".to_string()]);
    assert_eq!(
        *vc.calls.borrow(),
        vec![
            "remote_branch".to_string(),
            "log HEAD~..HEAD false".to_string(),
            "log origin/develop..HEAD true".to_string(),
        ]
    );
}

#[test]
fn reserved_branch_stops_the_request() {
    let vc = script(Some("origin/x"));
    let mut r = request("", "", "master");
    assert!(check_request(&mut r, &vc).is_err());
    assert_eq!(r.title, "");
    assert!(vc.calls.borrow().is_empty());
}

#[test]
fn conflicts_are_checked_after_the_fetch() {
    let vc = script(None);
    assert!(check_conflicts("develop", &vc).is_ok());
    assert_eq!(*vc.calls.borrow(), vec!["fetch develop".to_string(), "merge develop true".to_string()]);
    let mut failing = script(None);
    failing.fetch_ok = false;
    assert_eq!(check_conflicts("develop", &failing).unwrap_err().message(), "fetch failed");
    assert_eq!(*failing.calls.borrow(), vec!["fetch develop".to_string()]);
    let mut conflict = script(None);
    conflict.merge_ok = false;
    assert_eq!(check_conflicts("develop", &conflict).unwrap_err().message(), "conflict");
}

#[test]
fn changes_are_pushed_to_the_branch() {
    let vc = script(None);
    assert!(push_changes("feature/x", &vc).is_ok());
    assert_eq!(*vc.calls.borrow(), vec!["push feature/x".to_string()]);
}

#[test]
fn created_pull_request_may_be_opened() {
    assert_eq!(submit_pull_request(Ok("https://h/pr/1".to_string()), false).unwrap(), None);
    assert_eq!(
        submit_pull_request(Ok("https://h/pr/1".to_string()), true).unwrap(),
        Some("open 'https://h/pr/1'".to_string())
    );
}

#[test]
fn failed_pull_request_keeps_its_cause() {
    let e = submit_pull_request(Err(Error::new("Request failed", "timeout")), true).unwrap_err();
    assert_eq!(e.description(), "Can't create a pull request");
    assert_eq!(e.cause(), Some("Request failed caused by: timeout"));
    assert_eq!(e.message(), "Can't create a pull request caused by: Request failed caused by: timeout");
}
