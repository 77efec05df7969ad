use issue_marionette::strutil::{
    ends_with, find_char, i32_to_string, join_with_sep, parse_i32, rfind_char, split_lines,
    starts_with, str_eq, strip_prefix_repeatedly, trim, u32_to_string,
};

#[test]
fn str_eq_compares_characters() {
    assert!(str_eq("abc", "abc"));
    assert!(!str_eq("abc", "abd"));
    assert!(!str_eq("abc", "ab"));
    assert!(str_eq("", ""));
    assert!(str_eq("héllo", "héllo"));
}

#[test]
fn prefixes_and_suffixes() {
    assert!(starts_with("worktree /a/b", "worktree "));
    assert!(!starts_with("work", "worktree "));
    assert!(ends_with("repo-worktrees", "-worktrees"));
    assert!(!ends_with("repo-worktree", "-worktrees"));
    assert!(starts_with("anything", ""));
    assert!(ends_with("anything", ""));
}

#[test]
fn char_searches() {
    assert_eq!(find_char("a-b-c", '-'), Some(1));
    assert_eq!(rfind_char("a-b-c", '-'), Some(3));
    assert_eq!(find_char("abc", '-'), None);
    assert_eq!(rfind_char("abc", '-'), None);
}

#[test]
fn parse_i32_accepts_signed_decimals() {
    assert_eq!(parse_i32("12"), Some(12));
    assert_eq!(parse_i32("+3"), Some(3));
    assert_eq!(parse_i32("-5"), Some(-5));
    assert_eq!(parse_i32("0"), Some(0));
    assert_eq!(parse_i32("2147483647"), Some(i32::MAX));
    assert_eq!(parse_i32("-2147483648"), Some(i32::MIN));
    assert_eq!(parse_i32("000000000000000000000001"), Some(1));
}

#[test]
fn parse_i32_rejects_everything_else() {
    assert_eq!(parse_i32(""), None);
    assert_eq!(parse_i32("+"), None);
    assert_eq!(parse_i32("-"), None);
    assert_eq!(parse_i32("12a"), None);
    assert_eq!(parse_i32("1 2"), None);
    assert_eq!(parse_i32("2147483648"), None);
    assert_eq!(parse_i32("-2147483649"), None);
    assert_eq!(parse_i32("99999999999999999999999999"), None);
    assert_eq!(parse_i32("--3"), None);
}

#[test]
fn numbers_render_in_decimal() {
    assert_eq!(u32_to_string(0), "0");
    assert_eq!(u32_to_string(7), "7");
    assert_eq!(u32_to_string(4096), "4096");
    assert_eq!(u32_to_string(u32::MAX), "4294967295");
    assert_eq!(i32_to_string(42), "42");
    assert_eq!(i32_to_string(-42), "-42");
    assert_eq!(i32_to_string(i32::MIN), "-2147483648");
    assert_eq!(i32_to_string(0), "0");
}

#[test]
fn joining_with_separators() {
    let parts: Vec<String> = vec!["repo".to_string(), "user".to_string()];
    assert_eq!(join_with_sep(&parts, " "), "repo user");
    assert_eq!(join_with_sep(&parts, "&"), "repo&user");
    let one: Vec<String> = vec!["solo".to_string()];
    assert_eq!(join_with_sep(&one, "&"), "solo");
    let none: Vec<String> = Vec::new();
    assert_eq!(join_with_sep(&none, "&"), "");
}

#[test]
fn splitting_lines() {
    assert_eq!(split_lines(""), Vec::<String>::new());
    assert_eq!(split_lines("a"), vec!["a"]);
    assert_eq!(split_lines("a\n"), vec!["a"]);
    assert_eq!(split_lines("a\nb"), vec!["a", "b"]);
    assert_eq!(split_lines("a\r\nb\r\n"), vec!["a", "b"]);
    assert_eq!(split_lines("a\n\nb"), vec!["a", "", "b"]);
    assert_eq!(split_lines("\n"), vec![""]);
    // a stray carriage return without a newline stays
    assert_eq!(split_lines("a\r"), vec!["a\r"]);
}

#[test]
fn trimming_whitespace() {
    assert_eq!(trim("  main\n"), "main");
    assert_eq!(trim("\t x y \r\n"), "x y");
    assert_eq!(trim(""), "");
    assert_eq!(trim("   "), "");
    assert_eq!(trim("solid"), "solid");
}

#[test]
fn stripping_repeated_prefixes() {
    assert_eq!(strip_prefix_repeatedly("origin/main", "origin/"), "main");
    assert_eq!(strip_prefix_repeatedly("origin/origin/main", "origin/"), "main");
    assert_eq!(strip_prefix_repeatedly("main", "origin/"), "main");
    assert_eq!(strip_prefix_repeatedly("origin/", "origin/"), "");
}
