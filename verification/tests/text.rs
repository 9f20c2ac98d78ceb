use colek::error::ColekError;
use colek::text::{
    bytes_equal, chars_of, followed_by, decimal_string, join_path, starts_with, str_contains, str_equal,
};

#[test]
fn bytes_are_compared_one_by_one() {
    assert!(bytes_equal(b"", b""));
    assert!(bytes_equal(b"abc", b"abc"));
    assert!(!bytes_equal(b"abc", b"abd"));
    assert!(!bytes_equal(b"abc", b"ab"));
    assert!(!bytes_equal(b"", b"a"));
}

#[test]
fn prefixes_are_recognised() {
    assert!(starts_with(b"abc", b""));
    assert!(starts_with(b"abc", b"ab"));
    assert!(starts_with(b"abc", b"abc"));
    assert!(!starts_with(b"abc", b"abcd"));
    assert!(!starts_with(b"abc", b"bc"));
    assert!(starts_with(b"", b""));
}

#[test]
fn strings_are_compared_by_their_characters() {
    assert!(str_equal("", ""));
    assert!(str_equal("jpg", "jpg"));
    assert!(!str_equal("jpg", "jpeg"));
    assert!(!str_equal("jpg", "JPG"));
    assert!(str_equal("gr\u{fc}n", "gr\u{fc}n"));
    assert!(!str_equal("gr\u{fc}n", "grun"));
}

#[test]
fn characters_come_out_in_order() {
    assert_eq!(chars_of(""), Vec::<char>::new());
    assert_eq!(chars_of("a\u{fc}b"), vec!['a', '\u{fc}', 'b']);
}

#[test]
fn substrings_are_found() {
    assert!(str_contains("", ""));
    assert!(str_contains("abc", ""));
    assert!(str_contains("abc", "a"));
    assert!(str_contains("abc", "bc"));
    assert!(str_contains("abc", "abc"));
    assert!(!str_contains("abc", "abcd"));
    assert!(!str_contains("abc", "ac"));
    assert!(!str_contains("", "a"));
    assert!(str_contains("aab", "ab"));
    assert!(str_contains("/boot/\u{e9}fi", "fi"));
}

#[test]
fn numerals_are_decimal() {
    assert_eq!(decimal_string(0), "0");
    assert_eq!(decimal_string(9), "9");
    assert_eq!(decimal_string(10), "10");
    assert_eq!(decimal_string(1234567890), "1234567890");
    assert_eq!(decimal_string(100200300), "100200300");
    assert_eq!(decimal_string(u128::MAX), "340282366920938463463374607431768211455");
    for n in 0..2000u128 {
        assert_eq!(decimal_string(n), n.to_string());
    }
}

#[test]
fn strings_are_joined() {
    assert_eq!(followed_by("", ""), "");
    assert_eq!(followed_by("ab", "cd"), "abcd");
}

#[test]
fn paths_are_joined_with_one_separator() {
    assert_eq!(join_path("/media/usb", "out"), "/media/usb/out");
    assert_eq!(join_path("/media/usb/", "out"), "/media/usb/out");
    assert_eq!(join_path("", "out"), "out");
    assert_eq!(join_path("/", "out"), "/out");
    assert_eq!(join_path("a", ""), "a/");
    assert_eq!(join_path("/media/usb", "/abs"), "/abs");
    for (base, name) in [("/media/usb", "out"), ("/a/", "b"), ("", "c"), ("a", "/b"), ("a", "")] {
        assert_eq!(
            join_path(base, name),
            std::path::Path::new(base).join(name).to_str().unwrap()
        );
    }
}

#[test]
fn errors_have_messages() {
    assert_eq!(ColekError::NoGenericDrive.to_string(), "No Generic Drive Detected");
    assert_eq!(ColekError::Message("plain".to_string()).to_string(), "plain");
    assert_eq!(ColekError::StaticErr("fixed").to_string(), "fixed");
    assert_eq!(ColekError::IoError("denied".to_string()).to_string(), "IO: denied");
    assert_eq!(ColekError::Ignore("loop".to_string()).to_string(), "walkdir: loop");
    assert_eq!(ColekError::Zip("full".to_string()).to_string(), "zip: full");
}

#[test]
fn errors_come_from_messages() {
    assert_eq!(ColekError::from("fixed"), ColekError::StaticErr("fixed"));
    assert_eq!(ColekError::from("owned".to_string()), ColekError::Message("owned".to_string()));
}
