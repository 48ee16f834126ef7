use abt::create::{
    create_tokens, feature_name, fill_tokens, lower, module_types, name_pattern, package_name,
    package_path, parse_list, plan_copies, target_path, to_ascii_lower, to_ascii_upper, Token,
};
use abt::path::DirPath;
use abt::projects::{Descriptor, Projects};
use abt::text::{chars_of, string_of};

fn strings(items: &[&str]) -> Vec<String> {
    items.iter().map(|s| s.to_string()).collect()
}

#[test]
fn ascii_case_of_characters() {
    assert_eq!(to_ascii_upper('a'), 'A');
    assert_eq!(to_ascii_upper('z'), 'Z');
    assert_eq!(to_ascii_upper('A'), 'A');
    assert_eq!(to_ascii_upper('1'), '1');
    assert_eq!(to_ascii_upper('é'), 'é');
    assert_eq!(to_ascii_lower('A'), 'a');
    assert_eq!(to_ascii_lower('Z'), 'z');
    assert_eq!(to_ascii_lower('['), '[');
    assert_eq!(to_ascii_lower('É'), 'É');
    assert_eq!(string_of(&lower(&chars_of("Feature-LOGIN/é"))), "feature-login/é");
}

#[test]
fn case_agrees_with_the_standard_library() {
    for code in 0u32..300 {
        if let Some(c) = char::from_u32(code) {
            assert_eq!(to_ascii_upper(c), c.to_ascii_uppercase());
            assert_eq!(to_ascii_lower(c), c.to_ascii_lowercase());
        }
    }
}

#[test]
fn feature_name_is_camel_case() {
    assert_eq!(feature_name("feature-login"), "FeatureLogin");
    assert_eq!(feature_name("feature/user-profile/domain"), "FeatureUserProfileDomain");
    assert_eq!(feature_name("x"), "X");
    assert_eq!(feature_name("Already-Upper"), "AlreadyUpper");
    assert_eq!(feature_name("a1-2b"), "A12b");
}

#[test]
fn package_name_is_dotted_lower_case() {
    assert_eq!(package_name("feature-login"), "feature.login");
    assert_eq!(package_name("feature-user-profile"), "feature.userprofile");
    assert_eq!(package_name("Feature-Login/domain"), "feature.login");
    assert_eq!(package_name("libs/core-utils"), "libs.coreutils");
    assert_eq!(package_name("a/domain-x"), "ax");
    assert_eq!(package_name(""), "");
    assert_eq!(package_path("feature-login/android"), "feature/login/android");
}

#[test]
fn tokens_are_feature_then_package() {
    let tokens = create_tokens("feature-login");
    assert_eq!(tokens.len(), 2);
    assert_eq!(tokens[0].token, "#{featureName}");
    assert_eq!(tokens[0].text, "FeatureLogin");
    assert_eq!(tokens[1].token, "#{packageName}");
    assert_eq!(tokens[1].text, "feature.login");
}

#[test]
fn tokens_are_filled_in_their_order() {
    let tokens = create_tokens("feature-login");
    assert_eq!(
        fill_tokens("package #{packageName}\nclass #{featureName}View // #{featureName}", &tokens),
        "package feature.login\nclass FeatureLoginView // FeatureLogin"
    );
    assert_eq!(fill_tokens("nothing here", &tokens), "nothing here");
    let chained = vec![
        Token { token: "a".to_string(), text: "b".to_string() },
        Token { token: "b".to_string(), text: "c".to_string() },
    ];
    assert_eq!(fill_tokens("ab", &chained), "cc");
    assert_eq!(fill_tokens("ab", &Vec::new()), "ab");
}

#[test]
fn target_path_renames_each_component() {
    let target = DirPath::parse("/repo/feature-login");
    let relative = strings(&["src", "template-feature", "FeatureNameView.kt"]);
    let r = target_path(&target, &relative, "FeatureLogin", "feature/login");
    assert_eq!(r.display(), "/repo/feature-login/src/feature/login/FeatureLoginView.kt");
    assert_eq!(target_path(&target, &Vec::new(), "F", "p").display(), "/repo/feature-login");
}

#[test]
fn lists_are_split_at_commas() {
    assert_eq!(parse_list("android, domain ,,data"), strings(&["android", "domain", "data"]));
    assert!(parse_list("").is_empty());
    assert!(parse_list(" , ").is_empty());
}

#[test]
fn module_types_default_to_every_entry() {
    let entries = strings(&["android", "domain", "README.md"]);
    let dirs = strings(&["android", "domain"]);
    assert_eq!(module_types("  ", &entries, &dirs), entries);
    assert_eq!(module_types("android,README.md, nothing", &entries, &dirs), strings(&["android"]));
    assert_eq!(module_types("domain , android", &entries, &dirs), strings(&["domain", "android"]));
    assert!(module_types("x", &entries, &dirs).is_empty());
}

#[test]
fn name_pattern_for_one_kind_is_the_target() {
    assert_eq!(name_pattern("feature-login", &strings(&["android"])), "^feature-login$");
}

#[test]
fn name_pattern_for_several_kinds_names_each() {
    assert_eq!(
        name_pattern("feature-login", &strings(&["android", "domain"])),
        "^feature-login-android|feature-login-domain$"
    );
    assert_eq!(name_pattern("x", &strings(&["a", "", "b"])), "^x-a|x-b$");
    assert_eq!(name_pattern("x", &Vec::new()), "^$");
}

#[test]
fn copies_for_one_kind_go_to_the_target() {
    let copies = plan_copies(
        &DirPath::parse("/repo/module-templates"),
        &DirPath::parse("/repo/feature/login"),
        &strings(&["android"]),
    );
    assert_eq!(copies.len(), 1);
    assert_eq!(copies[0].template.display(), "/repo/module-templates/android");
    assert_eq!(copies[0].target.display(), "/repo/feature/login");
}

#[test]
fn copies_for_several_kinds_go_below_the_target() {
    let copies = plan_copies(
        &DirPath::parse("/repo/module-templates"),
        &DirPath::parse("/repo/feature/login"),
        &strings(&["android", "domain"]),
    );
    assert_eq!(copies.len(), 2);
    assert_eq!(copies[0].template.display(), "/repo/module-templates/android");
    assert_eq!(copies[0].target.display(), "/repo/feature/login/android");
    assert_eq!(copies[1].template.display(), "/repo/module-templates/domain");
    assert_eq!(copies[1].target.display(), "/repo/feature/login/domain");
}

#[test]
fn create_plans_names_copies_and_excludes() {
    let ps = Projects::new("^$", "", None, DirPath::parse("/repo"));
    let entries = strings(&["android", "domain"]);
    let plan = ps
        .create("feature/login", "module-templates", "", ".DS_Store,build", &entries, &entries)
        .unwrap();
    assert_eq!(plan.name_pattern, "^feature-login-android|feature-login-domain$");
    assert_eq!(plan.copies.len(), 2);
    assert_eq!(plan.copies[1].target.display(), "/repo/feature/login/domain");
    assert_eq!(plan.excludes, strings(&[".DS_Store", "build"]));
    let one = ps
        .create("/repo/feature/login", "/templates", "domain", "", &entries, &entries)
        .unwrap();
    assert_eq!(one.name_pattern, "^feature-login$");
    assert_eq!(one.copies[0].template.display(), "/templates/domain");
    assert_eq!(one.copies[0].target.display(), "/repo/feature/login");
    assert_eq!(one.excludes, strings(&[""]));
}

#[test]
fn create_needs_a_kind_of_template() {
    let ps = Projects::new("^$", "", None, DirPath::parse("/repo"));
    let e = ps
        .create("feature/login", "module-templates", "nothing", "", &strings(&["a"]), &strings(&["a"]))
        .unwrap_err();
    assert_eq!(e.message(), "There is no module template in /repo/module-templates");
    assert!(ps.create("x", "t", "", "", &Vec::new(), &Vec::new()).is_err());
}

#[test]
fn relative_to_root_keeps_absolute_paths() {
    let ps = Projects::new("^$", "", None, DirPath::parse("/repo"));
    assert_eq!(ps.relative_to_root("a/b").display(), "/repo/a/b");
    assert_eq!(ps.relative_to_root("/x/y").display(), "/x/y");
}

#[test]
fn existing_modules_are_refused() {
    let mut ps = Projects::new("^$", "", None, DirPath::parse("/repo"));
    assert!(ps.refuse_existing().is_ok());
    let filters = ps.create_filters();
    let found = vec![vec![
        Descriptor { file: DirPath::parse("/repo/a/build.gradle"), text: None },
        Descriptor { file: DirPath::parse("/repo/b/build.gradle"), text: None },
    ]];
    ps.scan(&filters, false, &found);
    let e = ps.refuse_existing().unwrap_err();
    assert_eq!(e.message(), "Projects with same name already exist: a, b");
}
