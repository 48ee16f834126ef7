use abt::text::{
    chars_of, find_char, has_prefix, has_substring, join, lines, matches_at, replace, same_text,
    slice_of, split, string_of, strings_of, trim, trim_end, trim_end_matches, trim_start,
    trim_start_matches, words,
};

fn cs(s: &str) -> Vec<char> {
    chars_of(s)
}

fn strs(v: Vec<Vec<char>>) -> Vec<String> {
    strings_of(&v)
}

#[test]
fn chars_and_strings_convert_both_ways() {
    let v = chars_of("héllo");
    assert_eq!(v, vec!['h', 'é', 'l', 'l', 'o']);
    assert_eq!(string_of(&v), "héllo");
    assert_eq!(string_of(&Vec::new()), "");
}

#[test]
fn slice_takes_a_range() {
    assert_eq!(string_of(&slice_of(&cs("abcdef"), 2, 4)), "cd");
    assert_eq!(string_of(&slice_of(&cs("abcdef"), 3, 3)), "");
}

#[test]
fn prefix_and_substring() {
    assert!(has_prefix(&cs("// comment"), &cs("//")));
    assert!(!has_prefix(&cs("/ comment"), &cs("//")));
    assert!(has_prefix(&cs("abc"), &cs("")));
    assert!(!has_prefix(&cs("ab"), &cs("abc")));
    assert!(has_substring(&cs("api project(':a')"), &cs("project(")));
    assert!(!has_substring(&cs("api projec(':a')"), &cs("project(")));
    assert!(has_substring(&cs(""), &cs("")));
    assert!(has_substring(&cs("abc"), &cs("c")));
    assert!(matches_at(&cs("abc"), &cs("bc"), 1));
    assert!(!matches_at(&cs("abc"), &cs("bc"), 2));
}

#[test]
fn find_char_returns_the_first_position_or_the_length() {
    assert_eq!(find_char(&cs("a:b:c"), ':', 0), 1);
    assert_eq!(find_char(&cs("a:b:c"), ':', 2), 3);
    assert_eq!(find_char(&cs("a:b:c"), ':', 4), 5);
}

#[test]
fn split_keeps_empty_pieces() {
    assert_eq!(strs(split(&cs("a,b,,c"), ',')), vec!["a", "b", "", "c"]);
    assert_eq!(strs(split(&cs(""), ',')), vec![""]);
    assert_eq!(strs(split(&cs(","), ',')), vec!["", ""]);
    assert_eq!(strs(split(&cs("abc"), ',')), vec!["abc"]);
}

#[test]
fn join_puts_the_separator_between() {
    let parts = vec![cs("a"), cs("b"), cs("c")];
    assert_eq!(string_of(&join(&parts, &cs(":"))), "a:b:c");
    assert_eq!(string_of(&join(&vec![cs("a")], &cs(":"))), "a");
    assert_eq!(string_of(&join(&Vec::new(), &cs(":"))), "");
    assert_eq!(string_of(&join(&vec![cs(""), cs("")], &cs("-"))), "-");
}

#[test]
fn replace_goes_from_the_left_without_overlap() {
    assert_eq!(string_of(&replace(&cs("aaa"), &cs("aa"), &cs("b"))), "ba");
    assert_eq!(string_of(&replace(&cs("a:android:android"), &cs(":android"), &cs("-android"))), "a-android-android");
    assert_eq!(string_of(&replace(&cs("abc"), &cs(""), &cs("x"))), "abc");
    assert_eq!(string_of(&replace(&cs("a-b-c"), &cs("-"), &cs(""))), "abc");
    assert_eq!(string_of(&replace(&cs(""), &cs("a"), &cs("b"))), "");
}

#[test]
fn trimming_white_space() {
    assert_eq!(string_of(&trim_start(&cs("  \t x y "))), "x y ");
    assert_eq!(string_of(&trim_end(&cs("  x y \n"))), "  x y");
    assert_eq!(string_of(&trim(&cs(" \u{a0} x y \r\n"))), "x y");
    assert_eq!(string_of(&trim(&cs("   "))), "");
    assert_eq!(string_of(&trim(&cs(""))), "");
}

#[test]
fn trimming_one_character() {
    assert_eq!(string_of(&trim_end_matches(&cs("dir///"), '/')), "dir");
    assert_eq!(string_of(&trim_end_matches(&cs("///"), '/')), "");
    assert_eq!(string_of(&trim_end_matches(&cs("a/b"), '/')), "a/b");
    assert_eq!(string_of(&trim_start_matches(&cs("::a:b"), ':')), "a:b");
    assert_eq!(string_of(&trim_start_matches(&cs("a"), ':')), "a");
}

#[test]
fn lines_end_at_line_feeds() {
    assert_eq!(strs(lines(&cs("a\nb\r\nc"))), vec!["a", "b", "c"]);
    assert_eq!(strs(lines(&cs("a\nb\n"))), vec!["a", "b"]);
    assert_eq!(strs(lines(&cs("a\n\nb"))), vec!["a", "", "b"]);
    assert_eq!(strs(lines(&cs(""))), Vec::<String>::new());
    assert_eq!(strs(lines(&cs("\n"))), vec![""]);
    assert_eq!(strs(lines(&cs("a\rb"))), vec!["a\rb"]);
    assert_eq!(strs(lines(&cs("a\r"))), vec!["a\r"]);
}

#[test]
fn lines_agree_with_the_standard_library() {
    let samples = ["", "\n", "a", "a\n", "a\r\n", "a\r", "\r\n\r\n", "a\n\rb\n", "x\r\r\ny"];
    for s in samples.iter() {
        let expected: Vec<String> = s.lines().map(|l| l.to_string()).collect();
        assert_eq!(strs(lines(&cs(s))), expected);
    }
}

#[test]
fn words_are_runs_without_white_space() {
    assert_eq!(strs(words(&cs("  libs/a \t libs/b\n"))), vec!["libs/a", "libs/b"]);
    assert_eq!(strs(words(&cs(""))), Vec::<String>::new());
    assert_eq!(strs(words(&cs("   "))), Vec::<String>::new());
    assert_eq!(strs(words(&cs("one"))), vec!["one"]);
}

#[test]
fn same_text_compares_characters() {
    assert!(same_text("master", "master"));
    assert!(!same_text("master", "masters"));
    assert!(!same_text("master", "mastex"));
    assert!(same_text("", ""));
}
