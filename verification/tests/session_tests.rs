use memoire::bookmark::Bookmark;
use memoire::session::{dialog_inputs_to_bookmark, parse_tags, Event, Outcome, Session};
use memoire::store::{add, search, Memoire};
use memoire::widget::manager::Focus;

fn bm(command: &str, annotation: &str, tags: &[&str], collection: &str) -> Bookmark {
    let tags: Vec<String> = tags.iter().map(|t| t.to_string()).collect();
    Bookmark::new(command, annotation, &tags, collection)
}

fn type_text(session: &mut Session, text: &str) {
    for c in text.chars() {
        let outcome = session.handle_event(Event::Char(c));
        assert!(matches!(outcome, Outcome::Continue));
    }
}

#[test]
fn tags_field_is_trimmed_and_emptied() {
    // "a, b ,c" comes out as ["a", "b", "c"]: trimmed, empty pieces dropped.
    assert_eq!(parse_tags("a, b ,c"), vec!["a".to_string(), "b".to_string(), "c".to_string()]);
    assert_eq!(parse_tags(""), Vec::<String>::new());
    assert_eq!(parse_tags(" , ,"), Vec::<String>::new());
    assert_eq!(parse_tags("solo"), vec!["solo".to_string()]);
}

#[test]
fn dialog_fields_build_a_bookmark() {
    let b = dialog_inputs_to_bookmark(vec![
        "echo hi".to_string(),
        "prints".to_string(),
        "a, b ,c".to_string(),
        "".to_string(),
    ]);
    assert_eq!(b.get_command(), "echo hi");
    assert_eq!(b.get_annotation(), "prints");
    assert_eq!(b.get_tags(), &vec!["a".to_string(), "b".to_string(), "c".to_string()]);
    assert_eq!(b.get_collection(), "default");
}

#[test]
fn typing_a_search_narrows_the_table() {
    // Both a command match and an annotation match appear; a miss empties
    // the table and the detail panel falls back to its hint state.
    let mut store = Memoire::new();
    add(&mut store, &bm("grep -r foo", "", &[], "default"), None);
    add(&mut store, &bm("ls", "grep logs", &[], "default"), None);
    let mut session = Session::new(store);
    type_text(&mut session, "grep");
    {
        let wm = session.widget_manager();
        assert_eq!(wm.get_cur_focus(), Focus::SearchBar);
        assert_eq!(wm.get_search_bar().get_input(), "grep");
        assert_eq!(wm.get_result_table().len(), 2);
    }
    for _ in 0..4 {
        let outcome = session.handle_event(Event::Backspace);
        assert!(matches!(outcome, Outcome::Continue));
    }
    type_text(&mut session, "zzz");
    {
        let wm = session.widget_manager();
        assert_eq!(wm.get_result_table().len(), 0);
        assert!(wm.display_panel_bookmark().is_none());
    }
}

#[test]
fn add_dialog_stores_a_trimmed_bookmark() {
    // Open the dialog, type a command and a messy tags field, submit.
    let mut session = Session::new(Memoire::new());
    let outcome = session.handle_event(Event::OpenAddDialog);
    assert!(matches!(outcome, Outcome::Continue));
    {
        let wm = session.widget_manager();
        assert_eq!(wm.get_cur_focus(), Focus::InputDialog);
        assert_eq!(wm.get_input_dialog().get_cur_input_ind(), Some(0));
        // Pre-filled with the empty default bookmark.
        assert_eq!(wm.get_input_dialog().get_inputs_as_strings()[3], "default");
    }
    type_text(&mut session, "echo hi");
    session.handle_event(Event::Down);
    session.handle_event(Event::Down);
    type_text(&mut session, "a, b ,c");
    let outcome = session.handle_event(Event::Enter);
    assert!(matches!(outcome, Outcome::Continue));

    let store = session.get_store();
    let c = store.get_collection("default").expect("default collection created");
    assert_eq!(c.get_bookmarks().len(), 1);
    let stored = &c.get_bookmarks()[0];
    assert_eq!(stored.get_command(), "echo hi");
    assert_eq!(stored.get_annotation(), "");
    assert_eq!(stored.get_tags(), &vec!["a".to_string(), "b".to_string(), "c".to_string()]);
    assert_eq!(stored.get_collection(), "default");
    // The table was re-queried and the focus returned to it.
    let wm = session.widget_manager();
    assert_eq!(wm.get_cur_focus(), Focus::ResultTable);
    assert_eq!(wm.get_result_table().len(), 1);
    assert_eq!(wm.get_result_table().get_state(), None);
}

#[test]
fn edit_replaces_only_the_changed_field() {
    // Select a row, choose Edit, extend the annotation, submit: the record
    // keeps its command and tags, carries the new annotation, and the old
    // content is gone from a full search.
    let mut store = Memoire::new();
    add(&mut store, &bm("c1", "old note", &["t"], "default"), None);
    let mut session = Session::new(store);
    // Show everything, select the row.
    session.show_search(&vec!["".to_string()]);
    session.handle_event(Event::Down);
    assert_eq!(session.widget_manager().get_cur_focus(), Focus::ResultTable);
    assert_eq!(session.widget_manager().get_result_table().get_state(), Some(0));
    // Enter opens the action menu on Copy; Down moves to Edit.
    session.handle_event(Event::Enter);
    assert_eq!(session.widget_manager().get_cur_focus(), Focus::ActionList);
    session.handle_event(Event::Down);
    assert_eq!(session.widget_manager().get_action_list().get_state(), Some(1));
    session.handle_event(Event::Enter);
    {
        let wm = session.widget_manager();
        assert_eq!(wm.get_cur_focus(), Focus::InputDialog);
        // Pre-filled from the selected bookmark.
        let texts = wm.get_input_dialog().get_inputs_as_strings();
        assert_eq!(texts, vec![
            "c1".to_string(),
            "old note".to_string(),
            "t".to_string(),
            "default".to_string(),
        ]);
    }
    // Move to the annotation field and append to it.
    session.handle_event(Event::Down);
    type_text(&mut session, " v2");
    let outcome = session.handle_event(Event::Enter);
    assert!(matches!(outcome, Outcome::Continue));

    let store = session.get_store();
    let c = store.get_collection("default").expect("collection kept");
    assert_eq!(c.get_bookmarks().len(), 1);
    let stored = &c.get_bookmarks()[0];
    assert_eq!(stored.get_command(), "c1");
    assert_eq!(stored.get_annotation(), "old note v2");
    assert_eq!(stored.get_tags(), &vec!["t".to_string()]);
    // The original content does not reappear in a subsequent full search.
    let old = bm("c1", "old note", &["t"], "default");
    let all = search(store, &vec!["".to_string()]);
    assert_eq!(all.len(), 1);
    assert!(all.iter().all(|r| *r.get_bookmark() != old));
}

#[test]
fn copy_action_hands_out_the_selected_command() {
    let mut store = Memoire::new();
    add(&mut store, &bm("pbcopy me", "", &[], "default"), None);
    let mut session = Session::new(store);
    session.show_search(&vec!["".to_string()]);
    session.handle_event(Event::Down);
    session.handle_event(Event::Enter);
    assert_eq!(session.widget_manager().get_action_list().get_state(), Some(0));
    let outcome = session.handle_event(Event::Enter);
    match outcome {
        Outcome::CopyAndExit(text) => assert_eq!(text, "pbcopy me"),
        _ => panic!("copy should end the loop with the command"),
    }
}

#[test]
fn delete_action_removes_the_record_and_requeries() {
    let mut store = Memoire::new();
    add(&mut store, &bm("a", "", &[], "default"), None);
    add(&mut store, &bm("b", "", &[], "default"), None);
    let mut session = Session::new(store);
    session.show_search(&vec!["".to_string()]);
    session.handle_event(Event::Down);
    session.handle_event(Event::Enter);
    session.handle_event(Event::Down);
    session.handle_event(Event::Down);
    assert_eq!(session.widget_manager().get_action_list().get_state(), Some(2));
    let outcome = session.handle_event(Event::Enter);
    assert!(matches!(outcome, Outcome::Continue));
    let store = session.get_store();
    let c = store.get_collection("default").unwrap();
    assert_eq!(c.get_bookmarks().len(), 1);
    assert_eq!(c.get_bookmarks()[0].get_command(), "b");
    let wm = session.widget_manager();
    assert_eq!(wm.get_cur_focus(), Focus::ResultTable);
    assert_eq!(wm.get_action_list().get_state(), None);
    assert_eq!(wm.get_result_table().get_state(), None);
    // The table was re-queried with the collection name as the keyword.
    assert_eq!(wm.get_result_table().len(), 1);
}

#[test]
fn enter_on_search_bar_selects_the_first_row() {
    let mut store = Memoire::new();
    add(&mut store, &bm("a", "", &[], "default"), None);
    let mut session = Session::new(store);
    type_text(&mut session, "a");
    assert_eq!(session.widget_manager().get_cur_focus(), Focus::SearchBar);
    assert_eq!(session.widget_manager().get_result_table().get_state(), None);
    session.handle_event(Event::Enter);
    let wm = session.widget_manager();
    assert_eq!(wm.get_cur_focus(), Focus::ResultTable);
    assert_eq!(wm.get_result_table().get_state(), Some(0));
}

#[test]
fn dialog_cursor_keys_edit_the_current_field() {
    let mut session = Session::new(Memoire::new());
    session.handle_event(Event::OpenAddDialog);
    type_text(&mut session, "ac");
    session.handle_event(Event::Left);
    type_text(&mut session, "b");
    assert_eq!(session.widget_manager().get_input_dialog().get_inputs_as_strings()[0], "abc");
    session.handle_event(Event::Right);
    session.handle_event(Event::Backspace);
    assert_eq!(session.widget_manager().get_input_dialog().get_inputs_as_strings()[0], "ab");
    // Escape from the dialog returns to the search bar without storing.
    session.handle_event(Event::Esc);
    assert_eq!(session.widget_manager().get_cur_focus(), Focus::SearchBar);
    assert!(session.get_store().get_collection("default").is_none());
}

#[test]
fn open_add_dialog_twice_only_clears_the_selection() {
    let mut store = Memoire::new();
    add(&mut store, &bm("a", "", &[], "default"), None);
    let mut session = Session::new(store);
    session.show_search(&vec!["".to_string()]);
    session.handle_event(Event::OpenAddDialog);
    type_text(&mut session, "draft");
    // A second shortcut press keeps the dialog and its typed text.
    session.handle_event(Event::OpenAddDialog);
    let wm = session.widget_manager();
    assert_eq!(wm.get_cur_focus(), Focus::InputDialog);
    assert_eq!(wm.get_input_dialog().get_inputs_as_strings()[0], "draft");
}

#[test]
fn run_mode_seeds_the_table() {
    let mut store = Memoire::new();
    add(&mut store, &bm("grep", "", &[], "default"), None);
    add(&mut store, &bm("ls", "", &[], "default"), None);
    let mut session = Session::new(store);
    let mut sm = memoire::modes::SearchMode::default();
    sm.set_searches(vec!["grep".to_string()]);
    session.run_mode(&memoire::modes::Mode::Search(sm));
    assert_eq!(session.widget_manager().get_result_table().len(), 1);
    assert_eq!(session.widget_manager().get_result_table().get_state(), None);
}

#[test]
fn escape_steps_back_towards_the_search_bar() {
    let mut store = Memoire::new();
    add(&mut store, &bm("a", "", &[], "default"), None);
    let mut session = Session::new(store);
    session.show_search(&vec!["".to_string()]);
    session.handle_event(Event::Down);
    session.handle_event(Event::Enter);
    assert_eq!(session.widget_manager().get_cur_focus(), Focus::ActionList);
    // Escape from the menu clears it and returns to the table.
    session.handle_event(Event::Esc);
    let wm = session.widget_manager();
    assert_eq!(wm.get_cur_focus(), Focus::ResultTable);
    assert_eq!(wm.get_action_list().get_state(), None);
    // Escape from the table goes to the search bar.
    session.handle_event(Event::Esc);
    assert_eq!(session.widget_manager().get_cur_focus(), Focus::SearchBar);
    // The quit event just ends the loop.
    let outcome = session.handle_event(Event::Quit);
    assert!(matches!(outcome, Outcome::Exit));
}
