use nodecask::text::{
    clean_markdown_json, contains, cut, decimal, is_name_valid, is_valid_username, join_strs,
    parse_loose_bool, priority_language, replace_all, same_text, site_base_url, str_less, trim,
    trim_end_matches, trim_start_matches,
};

#[test]
fn trim_removes_unicode_white_space() {
    assert_eq!(trim("  \t hello world \n"), "hello world");
    assert_eq!(trim("\u{3000}全角\u{3000}"), "全角");
    assert_eq!(trim("   "), "");
    assert_eq!(trim(""), "");
}

#[test]
fn contains_finds_substrings() {
    assert!(contains("来点色图吧", "色图"));
    assert!(contains("abc", ""));
    assert!(!contains("abc", "abd"));
    assert!(!contains("", "a"));
}

#[test]
fn clean_markdown_json_strips_fences() {
    assert_eq!(
        clean_markdown_json("```json\n{\"action\":\"pass\"}\n```"),
        "{\"action\":\"pass\"}"
    );
    assert_eq!(clean_markdown_json("```\n{}\n```"), "{}");
    assert_eq!(clean_markdown_json("  {\"a\":1}  "), "{\"a\":1}");
    assert_eq!(clean_markdown_json("``````json"), "json");
}

#[test]
fn cut_keeps_first_characters() {
    assert_eq!(cut("你好世界".to_string(), 2), "你好");
    assert_eq!(cut("hello".to_string(), 0), "hello");
    assert_eq!(cut("hello".to_string(), 10), "hello");
    assert_eq!(cut("hello".to_string(), 5), "hello");
}

#[test]
fn usernames_are_words_joined_by_underscores() {
    assert!(is_valid_username("a_b1"));
    assert!(is_valid_username("用户_1"));
    assert!(!is_valid_username("_a"));
    assert!(!is_valid_username("a__b"));
    assert!(!is_valid_username("a_"));
    assert!(!is_valid_username("a-b"));
    assert!(!is_valid_username(""));
}

#[test]
fn slugs_are_ascii_words_joined_by_hyphens() {
    assert!(is_name_valid("tech"));
    assert!(is_name_valid("a-1"));
    assert!(!is_name_valid("-a"));
    assert!(!is_name_valid("a--b"));
    assert!(!is_name_valid("a_b"));
    assert!(!is_name_valid("科技"));
    assert!(!is_name_valid(""));
}

#[test]
fn loose_booleans() {
    assert_eq!(parse_loose_bool(" YES "), Some(true));
    assert_eq!(parse_loose_bool("1"), Some(true));
    assert_eq!(parse_loose_bool("Off"), Some(false));
    assert_eq!(parse_loose_bool("maybe"), None);
}

#[test]
fn language_from_accept_language() {
    assert_eq!(priority_language(""), "en_US");
    assert_eq!(priority_language("en-US,zh-CN;q=0.8"), "en_US");
    assert_eq!(priority_language("zh-CN,en-US;q=0.8"), "zh_CN");
    assert_eq!(priority_language("fr-FR"), "zh_CN");
    assert_eq!(priority_language("zh-TW"), "zh_CN");
}

#[test]
fn site_base_url_forms() {
    assert_eq!(site_base_url(""), "http://localhost:3000");
    assert_eq!(site_base_url("https://a.com"), "https://a.com");
    assert_eq!(site_base_url("a.com"), "https://a.com");
}

#[test]
fn replace_all_left_to_right() {
    assert_eq!(replace_all("aaa", "aa", "b"), "ba");
    assert_eq!(replace_all("x%T%y%T%", "%T%", "1"), "x1y1");
    assert_eq!(replace_all("none", "%T%", "1"), "none");
}

#[test]
fn strings_compare_by_code_point() {
    assert!(str_less("a", "b"));
    assert!(str_less("a", "ab"));
    assert!(!str_less("b", "a"));
    assert!(!str_less("a", "a"));
    assert!(str_less("Z", "a"));
    assert!(same_text("数", "数"));
}

#[test]
fn trimming_matches() {
    assert_eq!(trim_start_matches("///a/b", "/"), "a/b");
    assert_eq!(trim_end_matches("dir///", "/"), "dir");
    assert_eq!(trim_start_matches("abc", ""), "abc");
}

#[test]
fn decimal_numbers() {
    assert_eq!(decimal(0), "0");
    assert_eq!(decimal(42), "42");
    assert_eq!(decimal(-7), "-7");
    assert_eq!(decimal(i64::MIN), "-9223372036854775808");
    assert_eq!(decimal(i64::MAX), "9223372036854775807");
}

#[test]
fn join_with_separator() {
    assert_eq!(join_strs(&vec!["a", "b", "c"], ","), "a,b,c");
    assert_eq!(join_strs(&vec!["a"], ","), "a");
    assert_eq!(join_strs(&vec![], ","), "");
}
