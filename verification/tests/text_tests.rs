use memoire::text::{chars_of_str, contains_sub, join, split, str_eq, string_from_chars, trim};

#[test]
fn contains_sub_finds_substrings() {
    assert!(contains_sub("grep -r foo", "grep"));
    assert!(contains_sub("grep -r foo", "-r f"));
    assert!(contains_sub("grep -r foo", ""));
    assert!(contains_sub("", ""));
    assert!(!contains_sub("", "a"));
    assert!(!contains_sub("grep", "grepx"));
    assert!(!contains_sub("grep -r foo", "zzz"));
}

#[test]
fn contains_sub_is_case_sensitive() {
    assert!(!contains_sub("Grep", "grep"));
    assert!(contains_sub("Grep", "Grep"));
}

#[test]
fn trim_removes_ascii_whitespace() {
    assert_eq!(trim("  a b  "), "a b");
    assert_eq!(trim("\t x\r\n"), "x");
    assert_eq!(trim(""), "");
    assert_eq!(trim("   "), "");
    assert_eq!(trim("ab"), "ab");
}

#[test]
fn split_keeps_empty_pieces() {
    let r = split("a, b ,c", ',');
    assert_eq!(r, vec!["a".to_string(), " b ".to_string(), "c".to_string()]);
    let r = split("", ',');
    assert_eq!(r, vec!["".to_string()]);
    let r = split(",a,", ',');
    assert_eq!(r, vec!["".to_string(), "a".to_string(), "".to_string()]);
    let r = split("a  b", ' ');
    assert_eq!(r, vec!["a".to_string(), "".to_string(), "b".to_string()]);
}

#[test]
fn join_inserts_delimiter_between_pieces() {
    let pieces = vec!["a".to_string(), "b".to_string(), "c".to_string()];
    assert_eq!(join(&pieces, ", "), "a, b, c");
    let one = vec!["solo".to_string()];
    assert_eq!(join(&one, ", "), "solo");
    let none: Vec<String> = Vec::new();
    assert_eq!(join(&none, ", "), "");
}

#[test]
fn string_char_round_trips() {
    let chars = chars_of_str("héllo");
    assert_eq!(chars.len(), 5);
    assert_eq!(string_from_chars(&chars), "héllo");
}

#[test]
fn str_eq_compares_by_characters() {
    assert!(str_eq("abc", "abc"));
    assert!(!str_eq("abc", "abd"));
    assert!(!str_eq("abc", "ab"));
    assert!(str_eq("", ""));
}
