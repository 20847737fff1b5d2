use kip::gen::generate;
use kip::order::{sort_names, str_leq};
use kip::store::confirms;
use kip::strutil::{bold, contains_sub, fmt_usize, parse_usize, starts_with, trim};

#[test]
fn generate_has_requested_length() {
    let charset = "abcdefghijklmnopqrstuvwxyzABCDEFGHIJKLMNOPQRSTUVWXYZ0123456789";
    let pw = generate(charset, 19);
    assert_eq!(pw.chars().count(), 19);
}

#[test]
fn generate_draws_only_from_charset() {
    let charset = "abc123";
    let pw = generate(charset, 6);
    for c in pw.chars() {
        assert!(charset.contains(c));
    }
}

#[test]
fn generate_zero_length_is_empty() {
    assert_eq!(generate("abcdef", 0), "");
}

#[test]
fn generate_longer_than_charset_repeats_characters() {
    let pw = generate("xyz", 10);
    assert_eq!(pw.chars().count(), 10);
    for c in pw.chars() {
        assert!("xyz".contains(c));
    }
}

#[test]
fn bold_wraps_in_escape_codes() {
    assert_eq!(bold("hello"), "\u{1b}[1mhello\u{1b}[0m");
}

#[test]
fn trim_strips_both_ends() {
    assert_eq!(trim("  hi there \n"), "hi there");
    assert_eq!(trim("\t\r\n  \n"), "");
    assert_eq!(trim("plain"), "plain");
}

#[test]
fn parse_usize_accepts_digits_only() {
    assert_eq!(parse_usize("0"), Some(0));
    assert_eq!(parse_usize("42"), Some(42));
    assert_eq!(parse_usize(""), None);
    assert_eq!(parse_usize("4x"), None);
    assert_eq!(parse_usize("-1"), None);
    assert_eq!(parse_usize("99999999999999999999999999"), None);
}

#[test]
fn fmt_usize_renders_decimal() {
    assert_eq!(fmt_usize(0), "0");
    assert_eq!(fmt_usize(7), "7");
    assert_eq!(fmt_usize(10), "10");
    assert_eq!(fmt_usize(1234), "1234");
}

#[test]
fn contains_sub_is_substring_containment() {
    assert!(contains_sub("ebay-shop.com", "ebay"));
    assert!(contains_sub("ebay", ""));
    assert!(!contains_sub("amazon.com", "ebay"));
    assert!(contains_sub("abc", "abc"));
    assert!(!contains_sub("ab", "abc"));
}

#[test]
fn starts_with_is_prefix_test() {
    assert!(starts_with("ebay.com", "eb"));
    assert!(starts_with("ebay.com", ""));
    assert!(!starts_with("ebay.com", "bay"));
}

#[test]
fn str_leq_orders_by_code_point() {
    assert!(str_leq("a", "b"));
    assert!(!str_leq("b", "a"));
    assert!(str_leq("a", "ab"));
    assert!(!str_leq("ab", "a"));
    assert!(str_leq("same", "same"));
    assert!(str_leq("ebay-shop.com", "ebay.com"));
}

#[test]
fn sort_names_orders_lexicographically() {
    let v = vec![
        "ebay.com".to_string(),
        "amazon.com".to_string(),
        "ebay-shop.com".to_string(),
    ];
    let s = sort_names(&v);
    assert_eq!(s, vec!["amazon.com", "ebay-shop.com", "ebay.com"]);
}

#[test]
fn confirms_accepts_only_y() {
    assert!(confirms("y"));
    assert!(confirms("Y"));
    assert!(confirms(" y \n"));
    assert!(!confirms("yes"));
    assert!(!confirms("n"));
    assert!(!confirms(""));
    assert!(!confirms("  "));
}
