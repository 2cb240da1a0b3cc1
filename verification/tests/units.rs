use debcontrol_archive::byteutil::{contains_bytes, replace_first};
use debcontrol_archive::config::{repository_type, VcsKind};
use debcontrol_archive::hexfmt::to_hex;
use debcontrol_archive::numfmt::u64_to_dec;
use debcontrol_archive::wordwrap::split_by_chars;

#[test]
fn decimal_rendering() {
    assert_eq!(u64_to_dec(0), "0");
    assert_eq!(u64_to_dec(7), "7");
    assert_eq!(u64_to_dec(1024), "1024");
    assert_eq!(u64_to_dec(u64::MAX), "18446744073709551615");
}

#[test]
fn hex_rendering_is_lowercase_two_digits_per_byte() {
    assert_eq!(to_hex(&vec![]), b"".to_vec());
    assert_eq!(to_hex(&vec![0x00, 0x0f, 0xa5, 0xff]), b"000fa5ff".to_vec());
}

#[test]
fn repository_kind_recognition() {
    assert_eq!(repository_type("https://github.com/example/foo"), Some(VcsKind::Git));
    assert_eq!(repository_type("git+ssh://example.org/foo"), Some(VcsKind::Git));
    assert_eq!(repository_type("https://example.org/foo.git"), Some(VcsKind::Git));
    assert_eq!(repository_type("https://gitlab.com/example/foo"), Some(VcsKind::Git));
    assert_eq!(repository_type("hg+https://example.org/foo"), Some(VcsKind::Hg));
    assert_eq!(repository_type("https://bitbucket.org/example/foo"), Some(VcsKind::Hg));
    assert_eq!(repository_type("https://example.org/svn/foo"), None);
}

#[test]
fn byte_search_and_replacement() {
    let s = b"#!/bin/sh\n#DEBHELPER#\nexit 0\n".to_vec();
    let marker = b"#DEBHELPER#".to_vec();
    assert!(contains_bytes(&s, &marker));
    let replaced = replace_first(&s, &marker, &b"echo hook\n".to_vec());
    assert_eq!(replaced, b"#!/bin/sh\necho hook\n\nexit 0\n".to_vec());
    let absent = b"#!/bin/sh\nexit 0\n".to_vec();
    assert!(!contains_bytes(&absent, &marker));
    assert_eq!(replace_first(&absent, &marker, &b"x".to_vec()), absent);
}

#[test]
fn short_description_is_one_line() {
    let lines = split_by_chars("a tiny tool", 79);
    assert_eq!(lines, vec!["a tiny tool".to_string()]);
}

#[test]
fn long_description_wraps_within_width_and_rejoins() {
    let word = "abcdefghij";
    let words: Vec<String> = (0..12).map(|_| word.to_string()).collect();
    let original = words.join(" ");
    assert!(original.len() > 79);
    let lines = split_by_chars(&original, 79);
    assert!(lines.len() > 1);
    for line in &lines {
        assert!(line.chars().count() <= 79);
    }
    assert_eq!(lines.join(" "), original);
}

#[test]
fn wrap_is_greedy_at_the_boundary() {
    let lines = split_by_chars("aaaa bbbb cc", 9);
    assert_eq!(lines, vec!["aaaa bbbb".to_string(), "cc".to_string()]);
}

#[test]
fn oversized_word_stands_alone() {
    let big = "x".repeat(15);
    let text = format!("ab {} cd", big);
    let lines = split_by_chars(&text, 9);
    assert_eq!(lines, vec!["ab".to_string(), big.clone(), "cd".to_string()]);
}

#[test]
fn whitespace_runs_collapse_when_splitting() {
    let lines = split_by_chars("  a\t\tb \n c  ", 79);
    assert_eq!(lines, vec!["a b c".to_string()]);
}
