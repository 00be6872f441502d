use memoire::bookmark::Bookmark;
use memoire::modes::{run_mode, ArgParser, Mode, SearchMode};
use memoire::paths::{get_collection_dir_path, get_default_json_path, get_json_path};
use memoire::store::{add, search, Memoire, SearchResult};
use memoire::tldr::{parse_page, TLDRPage, TLDRPageParseError};
use memoire::util::{multi_intersection, multi_union};

fn bm(command: &str, annotation: &str, tags: &[&str], collection: &str) -> Bookmark {
    let tags: Vec<String> = tags.iter().map(|t| t.to_string()).collect();
    Bookmark::new(command, annotation, &tags, collection)
}

#[test]
fn paths_are_built_from_their_parts() {
    assert_eq!(get_collection_dir_path("/home/u"), "/home/u/.memoire");
    assert_eq!(get_json_path("/home/u/.memoire", "default"), "/home/u/.memoire/default.json");
    assert_eq!(get_default_json_path("/home/u/.memoire"), "/home/u/.memoire/default.json");
}

#[test]
fn search_mode_holds_its_filters() {
    let mut sm = SearchMode::default();
    assert!(sm.get_union());
    assert!(!sm.has_input());
    sm.set_searches(vec!["a".to_string()]);
    sm.set_commands(vec!["b".to_string()]);
    sm.set_annotations(vec!["c".to_string()]);
    sm.set_tags(vec!["d".to_string()]);
    sm.set_union(false);
    assert!(sm.has_input());
    assert!(!sm.get_union());
    assert_eq!(sm.get_searches(), &vec!["a".to_string()]);
    assert_eq!(sm.get_commands(), &vec!["b".to_string()]);
    assert_eq!(sm.get_annotations(), &vec!["c".to_string()]);
    assert_eq!(sm.get_tags(), &vec!["d".to_string()]);
}

#[test]
fn run_mode_add_seeds_with_the_collection() {
    let mut store = Memoire::new();
    let results = run_mode(&mut store, &Mode::Add(bm("x", "", &[], "snips")));
    assert_eq!(store.get_collection("snips").unwrap().get_bookmarks().len(), 1);
    assert_eq!(results.len(), 1);
    assert_eq!(results[0].get_bookmark().get_command(), "x");
}

#[test]
fn run_mode_delete_reports_the_rest() {
    let mut store = Memoire::new();
    add(&mut store, &bm("a", "", &[], "default"), None);
    add(&mut store, &bm("b", "", &[], "default"), None);
    let results = run_mode(&mut store, &Mode::Delete(0, "default".to_string()));
    assert_eq!(store.get_collection("default").unwrap().get_bookmarks().len(), 1);
    assert_eq!(results.len(), 1);
    assert_eq!(results[0].get_bookmark().get_command(), "b");
    // A delete that misses leaves the store alone.
    let results = run_mode(&mut store, &Mode::Delete(7, "default".to_string()));
    assert_eq!(results.len(), 1);
}

#[test]
fn run_mode_edit_replaces_by_index() {
    let mut store = Memoire::new();
    add(&mut store, &bm("old", "o", &[], "default"), None);
    let results = run_mode(&mut store, &Mode::Edit(0, bm("new", "n", &["t"], "default")));
    let c = store.get_collection("default").unwrap();
    assert_eq!(c.get_bookmarks().len(), 1);
    assert_eq!(c.get_bookmarks()[0].get_command(), "new");
    assert_eq!(results.len(), 1);
}

#[test]
fn run_mode_search_unites_every_filter() {
    let mut store = Memoire::new();
    add(&mut store, &bm("grep", "", &[], "default"), None);
    add(&mut store, &bm("ls", "list", &[], "default"), None);
    add(&mut store, &bm("cd", "", &["nav"], "default"), None);
    let mut sm = SearchMode::default();
    sm.set_searches(vec!["grep".to_string()]);
    sm.set_tags(vec!["nav".to_string()]);
    let mut store2 = store;
    let results = run_mode(&mut store2, &Mode::Search(sm));
    assert_eq!(results.len(), 2);
}

#[test]
fn run_mode_search_without_filters_lists_everything() {
    let mut store = Memoire::new();
    add(&mut store, &bm("a", "", &[], "default"), None);
    add(&mut store, &bm("b", "", &[], "work"), None);
    let results = run_mode(&mut store, &Mode::Search(SearchMode::default()));
    assert_eq!(results.len(), 2);
}

#[test]
fn arg_parser_carries_out_its_mode() {
    let mut parser = ArgParser::new();
    let mut store = Memoire::new();
    // With no request, nothing happens.
    assert_eq!(parser.get_results(&mut store).len(), 0);
    parser.set_mode(Mode::Add(bm("a", "", &[], "default")));
    assert_eq!(parser.get_results(&mut store).len(), 0);
    assert_eq!(store.get_collection("default").unwrap().get_bookmarks().len(), 1);
    parser.reset_state();
    let mut sm = SearchMode::default();
    sm.set_searches(vec!["a".to_string()]);
    parser.set_mode(Mode::Search(sm));
    assert_eq!(parser.get_results(&mut store).len(), 1);
    parser.set_mode(Mode::Delete(0, "default".to_string()));
    assert_eq!(parser.get_results(&mut store).len(), 0);
    assert_eq!(store.get_collection("default").unwrap().get_bookmarks().len(), 0);
}

#[test]
fn tldr_page_parses_names_and_examples() {
    let body = "# tar\n\n> Archiving utility.\n\n- Extract an archive:\n\n`tar xf target.tar`\n\n- Create an archive:\n\n`tar cf target.tar file1`\n";
    let page = parse_page(body).expect("page parses");
    assert_eq!(page.get_command_name(), "tar");
    let examples = page.get_examples();
    assert_eq!(examples.len(), 2);
    assert_eq!(examples[0], ("Extract an archive".to_string(), "tar xf target.tar".to_string()));
    assert_eq!(examples[1], ("Create an archive".to_string(), "tar cf target.tar file1".to_string()));
}

#[test]
fn tldr_page_accepts_crlf_lines() {
    let body = "# tar\r\n- Extract:\r\n`tar xf a`\r\n";
    let page = parse_page(body).expect("page parses");
    assert_eq!(page.get_command_name(), "tar");
    assert_eq!(page.get_examples()[0].1, "tar xf a");
}

#[test]
fn tldr_page_rejects_bad_layouts() {
    // Two title lines.
    assert!(parse_page("# a\n# b\n").is_err());
    // A command line with no open example.
    assert!(parse_page("# a\n`ls`\n").is_err());
    // Two descriptions in a row.
    assert!(parse_page("# a\n- one:\n- two:\n").is_err());
    // An unknown line shape.
    assert!(parse_page("# a\nwhat is this\n").is_err());
    let err: TLDRPageParseError = parse_page("x").unwrap_err();
    assert_eq!(err.message(), "Fail to parse input tldr page, please check format.");
}

#[test]
fn tldr_parse_accumulates_across_calls() {
    let mut page = TLDRPage::new();
    assert!(page.parse("# git\n").is_ok());
    assert!(page.parse("- Show status:\n`git status`\n").is_ok());
    assert_eq!(page.get_command_name(), "git");
    assert_eq!(page.get_examples().len(), 1);
}

fn results_of(store: &Memoire, keyword: &str) -> Vec<SearchResult> {
    search(store, &vec![keyword.to_string()])
}

#[test]
fn multi_union_collects_distinct_entries() {
    let mut store = Memoire::new();
    add(&mut store, &bm("grep", "", &[], "default"), None);
    add(&mut store, &bm("grab", "", &[], "default"), None);
    let a = results_of(&store, "gr");
    let b = results_of(&store, "grep");
    assert_eq!(a.len(), 2);
    assert_eq!(b.len(), 1);
    let union = multi_union(vec![a, b]);
    assert_eq!(union.len(), 2);
}

#[test]
fn multi_intersection_keeps_common_entries() {
    let mut store = Memoire::new();
    add(&mut store, &bm("grep", "", &[], "default"), None);
    add(&mut store, &bm("grab", "", &[], "default"), None);
    let a = results_of(&store, "gr");
    let b = results_of(&store, "grep");
    let both = multi_intersection(vec![a, b]);
    assert_eq!(both.len(), 1);
    assert_eq!(both[0].get_bookmark().get_command(), "grep");
    let none: Vec<Vec<SearchResult>> = Vec::new();
    assert_eq!(multi_intersection(none).len(), 0);
}
