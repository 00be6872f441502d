use memoire::bookmark::Bookmark;
use memoire::store::{add, delete, search, Memoire, StoreError};

fn bm(command: &str, annotation: &str, tags: &[&str], collection: &str) -> Bookmark {
    let tags: Vec<String> = tags.iter().map(|t| t.to_string()).collect();
    Bookmark::new(command, annotation, &tags, collection)
}

fn keywords(words: &[&str]) -> Vec<String> {
    words.iter().map(|w| w.to_string()).collect()
}

#[test]
fn add_then_search_finds_exactly_one_match() {
    // Adding a fresh bookmark, then searching for its command, yields
    // exactly one entry whose bookmark equals the added one.
    let mut store = Memoire::new();
    add(&mut store, &bm("ls", "list", &["files"], "default"), None);
    let added = bm("grep -r foo", "recursive", &["search"], "default");
    add(&mut store, &added, None);
    let results = search(&store, &keywords(&["grep -r foo"]));
    let equal: Vec<_> = results.iter().filter(|r| *r.get_bookmark() == added).collect();
    assert_eq!(equal.len(), 1);
}

#[test]
fn delete_shrinks_full_listing_by_one() {
    // Deleting a record makes an empty-keyword search return one fewer
    // result, and the deleted content no longer appears.
    let mut store = Memoire::new();
    add(&mut store, &bm("one", "", &[], "default"), None);
    add(&mut store, &bm("two", "", &[], "default"), None);
    add(&mut store, &bm("three", "", &[], "work"), None);
    let before = search(&store, &keywords(&[""]));
    assert_eq!(before.len(), 3);
    let victim = bm("two", "", &[], "default");
    let outcome = delete(&mut store, "default", 1);
    assert!(outcome.is_ok());
    let after = search(&store, &keywords(&[""]));
    assert_eq!(after.len(), 2);
    assert!(after.iter().all(|r| *r.get_bookmark() != victim));
}

#[test]
fn add_search_delete_round_trip_removes_content() {
    // Add, find by content, delete the found index, search again: gone.
    let mut store = Memoire::new();
    add(&mut store, &bm("keep", "", &[], "default"), None);
    let added = bm("transient", "here briefly", &[], "default");
    add(&mut store, &added, None);
    let results = search(&store, &keywords(&["transient"]));
    let hit = results.iter().find(|r| *r.get_bookmark() == added).expect("added bookmark found");
    let outcome = delete(&mut store, hit.get_bookmark().get_collection(), hit.get_index());
    assert!(outcome.is_ok());
    let again = search(&store, &keywords(&["transient"]));
    assert!(again.iter().all(|r| *r.get_bookmark() != added));
    assert!(search(&store, &keywords(&[""])).iter().all(|r| *r.get_bookmark() != added));
}

#[test]
fn search_matches_any_field_and_any_keyword() {
    let mut store = Memoire::new();
    add(&mut store, &bm("grep -r foo", "", &[], "default"), None);
    add(&mut store, &bm("ls", "grep logs", &[], "default"), None);
    add(&mut store, &bm("cd", "", &["navigation"], "default"), None);
    add(&mut store, &bm("pwd", "", &[], "misc"), None);
    // Substring of command or annotation.
    assert_eq!(search(&store, &keywords(&["grep"])).len(), 2);
    // Substring of a tag.
    assert_eq!(search(&store, &keywords(&["nav"])).len(), 1);
    // Substring of the collection name matches every record in it.
    assert_eq!(search(&store, &keywords(&["misc"])).len(), 1);
    // Keywords are united, not intersected.
    assert_eq!(search(&store, &keywords(&["grep", "nav"])).len(), 3);
    // The empty keyword matches everything.
    assert_eq!(search(&store, &keywords(&[""])).len(), 4);
    // So does an empty keyword list.
    assert_eq!(search(&store, &Vec::new()).len(), 4);
    // No match at all.
    assert_eq!(search(&store, &keywords(&["zzz"])).len(), 0);
}

#[test]
fn search_reports_per_collection_indices() {
    let mut store = Memoire::new();
    add(&mut store, &bm("a", "", &[], "default"), None);
    add(&mut store, &bm("b", "", &[], "default"), None);
    add(&mut store, &bm("c", "", &[], "work"), None);
    let all = search(&store, &keywords(&[""]));
    assert_eq!(all.len(), 3);
    let b_entry = all.iter().find(|r| r.get_bookmark().get_command() == "b").unwrap();
    assert_eq!(b_entry.get_index(), 1);
    let c_entry = all.iter().find(|r| r.get_bookmark().get_command() == "c").unwrap();
    // The index is the position inside the record's own collection.
    assert_eq!(c_entry.get_index(), 0);
}

#[test]
fn delete_unknown_collection_is_an_error() {
    let mut store = Memoire::new();
    add(&mut store, &bm("a", "", &[], "default"), None);
    let outcome = delete(&mut store, "nope", 0);
    assert_eq!(outcome, Err(StoreError::CollectionNotFound));
    assert_eq!(search(&store, &keywords(&[""])).len(), 1);
}

#[test]
fn delete_out_of_range_is_an_error() {
    let mut store = Memoire::new();
    add(&mut store, &bm("a", "", &[], "default"), None);
    let outcome = delete(&mut store, "default", 1);
    assert_eq!(outcome, Err(StoreError::IndexOutOfRange));
    assert_eq!(search(&store, &keywords(&[""])).len(), 1);
}

#[test]
fn add_appends_ignoring_insert_hint() {
    let mut store = Memoire::new();
    add(&mut store, &bm("first", "", &[], "default"), None);
    // The insert hint is accepted but the record is appended regardless.
    add(&mut store, &bm("second", "", &[], "default"), Some(0));
    let c = store.get_collection("default").expect("collection exists");
    assert_eq!(c.get_bookmarks()[0].get_command(), "first");
    assert_eq!(c.get_bookmarks()[1].get_command(), "second");
}

#[test]
fn add_creates_the_collection_it_names() {
    let mut store = Memoire::new();
    assert!(store.get_collection("snippets").is_none());
    add(&mut store, &bm("x", "", &[], "snippets"), None);
    let c = store.get_collection("snippets").expect("collection created");
    assert_eq!(c.get_name(), "snippets");
    assert_eq!(c.get_bookmarks().len(), 1);
}

#[test]
fn get_or_create_is_idempotent() {
    let mut store = Memoire::new();
    let i = store.get_or_create("default");
    let j = store.get_or_create("default");
    assert_eq!(i, j);
    assert_eq!(store.collection_count(), 1);
    assert_eq!(store.collection_at(i).get_name(), "default");
}

#[test]
fn flag_search_respects_enabled_fields() {
    let mut store = Memoire::new();
    add(&mut store, &bm("grep -r", "find text", &["files"], "default"), None);
    add(&mut store, &bm("ls", "grep logs", &[], "default"), None);
    // Only commands searched: one hit.
    assert_eq!(store.search(true, false, false, "grep").len(), 1);
    // Only annotations searched: the other hit.
    assert_eq!(store.search(false, true, false, "grep").len(), 1);
    // Only tags searched.
    assert_eq!(store.search(false, false, true, "fil").len(), 1);
    // All fields.
    assert_eq!(store.search(true, true, true, "grep").len(), 2);
    // all() lists every record.
    assert_eq!(store.all().len(), 2);
}
