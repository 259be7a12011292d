use protonup::text::{
    bytes_of, chars_of, has_substring, has_suffix, join_path, last_segment_of, push_decimal,
    same_text,
};

#[test]
fn chars_of_keeps_order_and_non_ascii() {
    assert_eq!(chars_of("aé/z"), vec!['a', 'é', '/', 'z']);
    assert_eq!(chars_of(""), Vec::<char>::new());
}

#[test]
fn same_text_compares_characters() {
    assert!(same_text("Steam", "Steam"));
    assert!(!same_text("Steam", "steam"));
    assert!(!same_text("Steam", "Steam "));
    assert!(same_text("", ""));
}

#[test]
fn suffix_tests() {
    assert!(has_suffix("pkg.tar.gz", ".tar.gz"));
    assert!(!has_suffix("pkg.tar.gz", ".tar.xz"));
    assert!(has_suffix("pkg", ""));
    assert!(has_suffix("", ""));
    assert!(!has_suffix("gz", ".tar.gz"));
    assert!(has_suffix(".tar.gz", ".tar.gz"));
    assert!(!has_suffix("pkg.tar.gz.sha512sum", ".tar.gz"));
}

#[test]
fn substring_tests() {
    assert!(has_substring("wine-spritz-10.tar.xz", "spritz"));
    assert!(!has_substring("wine-Spritz-10.tar.xz", "spritz"));
    assert!(has_substring("abc", ""));
    assert!(has_substring("", ""));
    assert!(!has_substring("", "a"));
    assert!(has_substring("abc", "abc"));
    assert!(has_substring("abc", "c"));
    assert!(!has_substring("abc", "abcd"));
    assert!(has_substring("aab", "ab"));
}

#[test]
fn decimal_numerals() {
    let mut s = String::from("n=");
    push_decimal(&mut s, 0);
    assert_eq!(s, "n=0");
    let mut s = String::new();
    push_decimal(&mut s, 4);
    assert_eq!(s, "4");
    let mut s = String::new();
    push_decimal(&mut s, 10);
    assert_eq!(s, "10");
    let mut s = String::new();
    push_decimal(&mut s, 1700000000);
    assert_eq!(s, "1700000000");
    let mut s = String::new();
    push_decimal(&mut s, u64::MAX);
    assert_eq!(s, "18446744073709551615");
}

#[test]
fn last_segment_of_locators() {
    assert_eq!(last_segment_of("https://x/pkg.tar.gz"), "pkg.tar.gz");
    assert_eq!(last_segment_of("pkg.tar.gz"), "pkg.tar.gz");
    assert_eq!(last_segment_of("https://x/dir/"), "");
    assert_eq!(last_segment_of(""), "");
    assert_eq!(last_segment_of("/"), "");
    assert_eq!(last_segment_of("a/é.tgz"), "é.tgz");
}

fn joined(base: &str, rel: &str) -> Vec<u8> {
    join_path(&base.as_bytes().to_vec(), &rel.as_bytes().to_vec())
}

#[test]
fn join_path_puts_one_separator() {
    assert_eq!(joined("/home/u", ".steam/root"), b"/home/u/.steam/root");
    assert_eq!(joined("/home/u/", ".steam/root"), b"/home/u/.steam/root");
    assert_eq!(joined("", "rel"), b"rel");
    assert_eq!(joined("/home/u", "/abs"), b"/abs");
    assert_eq!(joined("a", ""), b"a/");
    assert_eq!(joined("/", "x"), b"/x");
}

#[test]
fn join_path_keeps_bytes_that_are_not_unicode() {
    let home = vec![b'/', b'h', 0xff, 0xfe];
    assert_eq!(join_path(&home, &b"x".to_vec()), vec![b'/', b'h', 0xff, 0xfe, b'/', b'x']);
}

#[test]
fn bytes_of_text_are_its_utf8() {
    assert_eq!(bytes_of("a/é"), "a/é".as_bytes());
    assert_eq!(bytes_of(""), b"");
}
