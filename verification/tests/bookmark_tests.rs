use memoire::bookmark::Bookmark;

fn tags(items: &[&str]) -> Vec<String> {
    items.iter().map(|t| t.to_string()).collect()
}

#[test]
fn new_keeps_all_fields() {
    let b = Bookmark::new("grep -r", "recursive search", &tags(&["search", "text"]), "tools");
    assert_eq!(b.get_command(), "grep -r");
    assert_eq!(b.get_annotation(), "recursive search");
    assert_eq!(b.get_tags(), &tags(&["search", "text"]));
    assert_eq!(b.get_collection(), "tools");
}

#[test]
fn blank_collection_falls_back_to_default() {
    let b = Bookmark::new("ls", "", &tags(&[]), "");
    assert_eq!(b.get_collection(), "default");
    let d = Bookmark::default("ls", "", &tags(&[]));
    assert_eq!(d.get_collection(), "default");
}

#[test]
fn setters_replace_single_fields() {
    let mut b = Bookmark::new("old", "note", &tags(&["t"]), "c");
    b.set_command("new");
    assert_eq!(b.get_command(), "new");
    b.set_annotation("other");
    assert_eq!(b.get_annotation(), "other");
    b.set_tags(&tags(&["x", "y"]));
    assert_eq!(b.get_tags(), &tags(&["x", "y"]));
    assert_eq!(b.get_collection(), "c");
}

#[test]
fn contains_checks_each_field() {
    let b = Bookmark::new("grep -r foo", "search text", &tags(&["files", "cli"]), "default");
    assert!(b.command_contains("rep"));
    assert!(!b.command_contains("zzz"));
    assert!(b.annotation_contains("text"));
    assert!(!b.annotation_contains("grep"));
    assert!(b.tags_contains("cli"));
    assert!(b.tags_contains("ile"));
    assert!(!b.tags_contains("nope"));
    assert!(b.matches_keyword("default"));
    assert!(!b.matches_keyword("nothing-here"));
}

#[test]
fn to_vec_lists_display_fields_in_order() {
    let b = Bookmark::new("cmd", "note", &tags(&["a", "b"]), "coll");
    let v = b.to_vec();
    assert_eq!(v, vec![
        "cmd".to_string(),
        "note".to_string(),
        "a, b".to_string(),
        "coll".to_string(),
    ]);
}

#[test]
fn to_tuple_vec_pairs_labels_with_values() {
    let b = Bookmark::new("cmd", "note", &tags(&["a", "b"]), "coll");
    let v = b.to_tuple_vec();
    assert_eq!(v.len(), 3);
    assert_eq!(v[0], ("command".to_string(), "cmd".to_string()));
    assert_eq!(v[1], ("annotation".to_string(), "note".to_string()));
    assert_eq!(v[2], ("tags".to_string(), "a, b".to_string()));
}

#[test]
fn get_tags_as_string_uses_the_delimiter() {
    let b = Bookmark::new("c", "", &tags(&["x", "y", "z"]), "d");
    assert_eq!(b.get_tags_as_string(" "), "x y z");
    assert_eq!(b.get_tags_as_string(", "), "x, y, z");
    let empty = Bookmark::new("c", "", &tags(&[]), "d");
    assert_eq!(empty.get_tags_as_string(", "), "");
}

#[test]
fn equality_is_structural_over_all_fields() {
    let a = Bookmark::new("c", "n", &tags(&["t"]), "d");
    let b = Bookmark::new("c", "n", &tags(&["t"]), "d");
    assert_eq!(a, b);
    assert_eq!(a, a.clone());
    let c = Bookmark::new("c", "n", &tags(&["t", "u"]), "d");
    assert_ne!(a, c);
    let d = Bookmark::new("c2", "n", &tags(&["t"]), "d");
    assert_ne!(a, d);
}
