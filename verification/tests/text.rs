//! Checks of the verified string operations and the CSV row encoder.

use nix_data::records::PackageRecord;
use nix_data::store::{csv_field, csv_record};
use nix_data::strutil::{
    contains_char, eq_str, find_str, join_from, last_segment, replace_all, split_str,
    starts_with_str, strip_prefix_str, trim_str,
};

#[test]
fn equality_and_prefixes() {
    assert!(eq_str("abc", "abc"));
    assert!(!eq_str("abc", "abd"));
    assert!(!eq_str("abc", "ab"));
    assert!(starts_with_str("flake:nixpkgs", "flake:"));
    assert!(!starts_with_str("flake", "flake:"));
    assert_eq!(strip_prefix_str("pkgs.hello", "pkgs.").as_deref(), Some("hello"));
    assert_eq!(strip_prefix_str("hello", "pkgs."), None);
}

#[test]
fn searching() {
    assert_eq!(find_str("a?ref=x&rev=abc", "&rev="), Some(7));
    assert_eq!(find_str("plain", "&rev="), None);
    assert_eq!(find_str("aaa", "aa"), Some(0));
    assert!(contains_char("a,b", ','));
    assert!(!contains_char("ab", ','));
}

#[test]
fn splitting_and_joining() {
    let parts = split_str("a.b.c", '.');
    assert_eq!(parts, vec!["a".to_string(), "b".to_string(), "c".to_string()]);
    assert_eq!(split_str("", '.'), vec!["".to_string()]);
    assert_eq!(split_str(".a.", '.'), vec!["".to_string(), "a".to_string(), "".to_string()]);
    assert_eq!(join_from(&parts, 0, '.'), "a.b.c");
    assert_eq!(join_from(&parts, 1, '.'), "b.c");
    assert_eq!(join_from(&parts, 3, '.'), "");
    assert_eq!(last_segment("24.05.1234.abcdef", '.'), "abcdef");
    assert_eq!(last_segment("nodots", '.'), "nodots");
}

#[test]
fn replacing_and_trimming() {
    assert_eq!(replace_all("a   b   c", "   ", " "), "a b c");
    assert_eq!(replace_all("github:NixOS/nixpkgs/24.05", "github:NixOS/nixpkgs/", ""), "24.05");
    assert_eq!(replace_all("aaaa", "aa", "b"), "bb");
    assert_eq!(replace_all("abc", "", "x"), "abc");
    assert_eq!(trim_str("  error text \n"), "error text");
    assert_eq!(trim_str("\t\r\n "), "");
    assert_eq!(trim_str("clean"), "clean");
}

#[test]
fn csv_quoting() {
    assert_eq!(csv_field("plain"), "plain");
    assert_eq!(csv_field("he,llo"), "\"he,llo\"");
    assert_eq!(csv_field("say \"hi\""), "\"say \"\"hi\"\"\"");
    assert_eq!(csv_field("line\nbreak"), "\"line\nbreak\"");
    let rec = PackageRecord {
        attribute: "hello".to_string(),
        pname: "hello".to_string(),
        version: "1.0".to_string(),
        system: None,
        meta: None,
    };
    assert_eq!(csv_record(&rec), "hello,,hello,1.0\n");
    let rec = PackageRecord {
        attribute: "we,ird".to_string(),
        pname: "weird".to_string(),
        version: "1.0".to_string(),
        system: Some("x86_64-linux".to_string()),
        meta: None,
    };
    assert_eq!(csv_record(&rec), "\"we,ird\",x86_64-linux,weird,1.0\n");
}
