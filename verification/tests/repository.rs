use sentry_mosaic::error::ClipError;
use sentry_mosaic::paths::{file_name, find_last, join, parent};
use sentry_mosaic::repository::{order_folders, precedes_or_same};
use sentry_mosaic::text::{render_int, render_nat, same_text};

fn names(list: &[&str]) -> Vec<String> {
    list.iter().map(|s| s.to_string()).collect()
}

#[test]
fn folders_are_taken_in_the_order_of_their_names() {
    let listed = names(&[
        "2020-10-22_10-37-28",
        "2019-01-01_00-00-00",
        "holiday",
        "2020-10-22_10-37-05",
        "2020-10-21_23-59-59",
        "Zebra",
        "2020-10-22_10-37-28",
        "",
    ]);
    let mut expected = listed.clone();
    expected.sort();
    assert_eq!(order_folders(&listed), expected);
}

#[test]
fn ordering_nothing_gives_nothing() {
    assert_eq!(order_folders(&Vec::new()), Vec::<String>::new());
}

#[test]
fn ordering_agrees_with_the_order_of_strings() {
    let samples = vec!["", "a", "ab", "b", "B", "a\u{e9}", "aa", "\u{10348}", "2020", "2021"];
    for a in &samples {
        for b in &samples {
            assert_eq!(precedes_or_same(a, b), a <= b, "{:?} {:?}", a, b);
        }
    }
}

#[test]
fn texts_are_compared_character_by_character() {
    assert!(same_text("back", "back"));
    assert!(same_text("", ""));
    assert!(!same_text("back", "Back"));
    assert!(!same_text("back", "backs"));
    assert!(!same_text("backs", "back"));
    assert!(same_text("\u{e9}t\u{e9}", "\u{e9}t\u{e9}"));
}

#[test]
fn numbers_are_written_in_decimal() {
    assert_eq!(render_nat(0), "0");
    assert_eq!(render_nat(7), "7");
    assert_eq!(render_nat(10), "10");
    assert_eq!(render_nat(1603363048), "1603363048");
    assert_eq!(render_nat(u64::MAX), "18446744073709551615");
    assert_eq!(render_int(0), "0");
    assert_eq!(render_int(-1), "-1");
    assert_eq!(render_int(-62167219200), "-62167219200");
    assert_eq!(render_int(i64::MAX), "9223372036854775807");
    assert_eq!(render_int(i64::MIN), "-9223372036854775808");
}

#[test]
fn a_path_is_parted_at_its_last_slash() {
    assert_eq!(file_name("/clips/2020-10-22_10-37-28"), "2020-10-22_10-37-28");
    assert_eq!(file_name("name"), "name");
    assert_eq!(file_name("/clips/"), "");
    assert_eq!(parent("/clips/2020-10-22_10-37-28"), Some("/clips".to_string()));
    assert_eq!(parent("/x"), Some("/".to_string()));
    assert_eq!(parent("a/b/c"), Some("a/b".to_string()));
    assert_eq!(parent("name"), None);
    assert_eq!(parent(""), None);
    assert_eq!(find_last("a/b/c", '/'), Some(3));
    assert_eq!(find_last("abc", '/'), None);
    assert_eq!(find_last("\u{e9}/x", '/'), Some(1));
}

#[test]
fn a_name_is_set_under_a_folder() {
    assert_eq!(join("/clips", "x.mp4"), "/clips/x.mp4");
    assert_eq!(join("/clips/", "x.mp4"), "/clips/x.mp4");
    assert_eq!(join("/", "x.mp4"), "/x.mp4");
    assert_eq!(join("", "x.mp4"), "x.mp4");
    assert_eq!(join("a", ".x"), "a/.x");
}

#[test]
fn every_error_has_its_sentence() {
    let all = vec![
        ClipError::TimestampParse,
        ClipError::FilenameGrammar,
        ClipError::UnknownCameraToken,
        ClipError::Filesystem,
        ClipError::ExternalTool,
        ClipError::PathConstruction,
    ];
    for i in 0..all.len() {
        assert!(!all[i].message().is_empty());
        for j in 0..i {
            assert_ne!(all[i].message(), all[j].message());
        }
    }
    assert_eq!(ClipError::ExternalTool.message(), "the video tool failed");
}
