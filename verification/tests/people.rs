use abt::auth::Auth;
use abt::error::Error;
use abt::open::open_result;
use abt::path::DirPath;
use abt::projects::{Descriptor, Projects};
use abt::users::{names_line, query_filters, User};

fn user(name: &str) -> User {
    User { name: name.to_string(), display_name: format!("{} D", name), email: format!("{}@x", name) }
}

#[test]
fn query_is_split_into_filters() {
    assert_eq!(query_filters("ann; bob ;;carl"), vec!["ann", "bob", "carl"]);
    assert!(query_filters(" ; ").is_empty());
    assert!(query_filters("").is_empty());
}

#[test]
fn names_line_ends_each_name_with_a_semicolon() {
    assert_eq!(names_line(&vec![user("ann"), user("bob")]), "ann;bob;\n");
    assert_eq!(names_line(&vec![user("ann")]), "ann;\n");
    assert_eq!(names_line(&Vec::new()), ";\n");
}

#[test]
fn user_clone_keeps_every_field() {
    let u = user("ann");
    let c = u.clone();
    assert_eq!(c.name, "ann");
    assert_eq!(c.display_name, "ann D");
    assert_eq!(c.email, "ann@x");
}

#[test]
fn password_is_asked_only_when_missing() {
    let known = Auth { user: "ann".to_string(), password: Some("secret".to_string()) };
    assert!(!known.needs_password());
    let kept = known.ask_password_if_none(Some("typed".to_string()));
    assert_eq!(kept.password, Some("secret".to_string()));
    assert_eq!(kept.user, "ann");
    let missing = Auth { user: "bob".to_string(), password: None };
    assert!(missing.needs_password());
    let asked = missing.ask_password_if_none(Some("typed".to_string()));
    assert_eq!(asked.password, Some("typed".to_string()));
    let silent = Auth { user: "carl".to_string(), password: None }.ask_password_if_none(None);
    assert_eq!(silent.password, None);
}

#[test]
fn error_text_holds_the_cause() {
    let plain = Error::from_str("went wrong");
    assert_eq!(plain.description(), "went wrong");
    assert_eq!(plain.cause(), None);
    assert_eq!(plain.message(), "went wrong");
    let caused = Error::new("Can't create the file", "permission denied");
    assert_eq!(caused.description(), "Can't create the file");
    assert_eq!(caused.cause(), Some("permission denied"));
    assert_eq!(caused.message(), "Can't create the file caused by: permission denied");
}

#[test]
fn open_writes_the_settings_and_cleans_on_demand() {
    let mut ps = Projects::new("^$", "", None, DirPath::parse("/repo"));
    let filters = ps.create_filters();
    let found = vec![vec![Descriptor { file: DirPath::parse("/repo/a/build.gradle"), text: None }]];
    ps.scan(&filters, false, &found);
    let plain = ps.open(false, None);
    assert_eq!(plain.settings_file.display(), "/repo/settings.gradle.kts");
    assert_eq!(plain.settings, ps.create_settings(None));
    assert!(plain.remove.is_empty());
    let clean = ps.open(true, Some("pre\n"));
    assert_eq!(clean.settings, ps.create_settings(Some("pre\n")));
    let removed: Vec<String> = clean.remove.iter().map(|p| p.display()).collect();
    assert_eq!(removed, vec!["/repo/.idea", "/repo/root-project.iml", "/repo/build"]);
}

#[test]
fn open_fails_when_cleaning_failed() {
    assert!(open_result(false).is_ok());
    assert_eq!(open_result(true).unwrap_err().message(), "Can't clean the cache");
}
