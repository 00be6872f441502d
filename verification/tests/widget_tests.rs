use memoire::bookmark::Bookmark;
use memoire::store::{Memoire, SearchResult};
use memoire::widget::action_list::{actions, Action, ActionList};
use memoire::widget::input::{Input, InputDialog};
use memoire::widget::manager::{Focus, WidgetManager};
use memoire::widget::result_table::ResultTable;
use memoire::widget::widget_trait::WidgetTrait;

fn three_rows() -> Vec<SearchResult> {
    let empty: Vec<String> = Vec::new();
    (0..3)
        .map(|i| {
            SearchResult::new(i, Bookmark::new(&format!("cmd{}", i), "", &empty, "default"))
        })
        .collect()
}

#[test]
fn table_down_at_last_row_stays_put() {
    // Navigation is idempotent at the edges.
    let mut t = ResultTable::new(three_rows());
    t.key_down();
    assert_eq!(t.get_state(), Some(0));
    t.key_down();
    t.key_down();
    assert_eq!(t.get_state(), Some(2));
    t.key_down();
    assert_eq!(t.get_state(), Some(2));
}

#[test]
fn table_up_at_first_row_stays_put() {
    let mut t = ResultTable::new(three_rows());
    t.key_up();
    // With no selection, up does nothing.
    assert_eq!(t.get_state(), None);
    t.key_down();
    assert_eq!(t.get_state(), Some(0));
    t.key_up();
    assert_eq!(t.get_state(), Some(0));
}

#[test]
fn table_down_with_no_selection_selects_first_row() {
    let mut t = ResultTable::new(three_rows());
    assert_eq!(t.get_state(), None);
    t.key_down();
    assert_eq!(t.get_state(), Some(0));
    let mut empty = ResultTable::default();
    empty.key_down();
    assert_eq!(empty.get_state(), None);
}

#[test]
fn table_update_revalidates_selection() {
    let mut t = ResultTable::new(three_rows());
    t.key_down();
    t.key_down();
    assert_eq!(t.get_state(), Some(1));
    // A shorter list that still covers the selection keeps it.
    t.update_results(three_rows());
    assert_eq!(t.get_state(), Some(1));
    // One that does not covers it clears it.
    t.update_results(Vec::new());
    assert_eq!(t.get_state(), None);
}

#[test]
fn action_list_offers_copy_edit_delete() {
    let menu = ActionList::new(actions());
    let items = menu.get_items();
    assert_eq!(items, &vec!["Copy".to_string(), "Edit".to_string(), "Delete".to_string()]);
    assert_eq!(Action::Copy.label(), "Copy");
    assert_eq!(Action::Edit.label(), "Edit");
    assert_eq!(Action::Delete.label(), "Delete");
}

#[test]
fn action_list_navigation_clamps() {
    let mut menu = ActionList::new(actions());
    assert_eq!(menu.get_state(), None);
    menu.down();
    assert_eq!(menu.get_state(), Some(0));
    menu.up();
    assert_eq!(menu.get_state(), Some(0));
    menu.down();
    menu.down();
    menu.down();
    assert_eq!(menu.get_state(), Some(2));
    menu.reset();
    assert_eq!(menu.get_state(), None);
}

#[test]
fn input_editing_follows_the_cursor() {
    let mut input = Input::new("Search");
    assert_eq!(input.get_input(), "");
    input.on_focus();
    input.key_char('a');
    input.key_char('c');
    input.key_left();
    input.key_char('b');
    assert_eq!(input.get_input(), "abc");
    assert_eq!(input.get_cursor_ind(), Some(2));
    input.key_right();
    input.key_backspace();
    assert_eq!(input.get_input(), "ab");
    // A tab is typed as a space.
    input.key_char('\t');
    assert_eq!(input.get_input(), "ab ");
    input.on_blur();
    assert_eq!(input.get_cursor_ind(), None);
    // Without a cursor, typing does nothing.
    input.key_char('x');
    assert_eq!(input.get_input(), "ab ");
}

#[test]
fn dialog_moves_field_focus_with_clamping() {
    let mut dialog = InputDialog::new(vec!["Command", "Annotation", "Tags", "Collection"]);
    assert_eq!(dialog.get_inputs_size(), 4);
    assert_eq!(dialog.get_cur_input_ind(), None);
    dialog.on_focus();
    assert_eq!(dialog.get_cur_input_ind(), Some(0));
    dialog.key_up();
    assert_eq!(dialog.get_cur_input_ind(), Some(0));
    dialog.key_down();
    dialog.key_down();
    dialog.key_down();
    dialog.key_down();
    assert_eq!(dialog.get_cur_input_ind(), Some(3));
    dialog.on_blur();
    assert_eq!(dialog.get_cur_input_ind(), None);
}

#[test]
fn dialog_types_into_the_current_field() {
    let mut dialog = InputDialog::new(vec!["Command", "Annotation", "Tags", "Collection"]);
    dialog.on_focus();
    dialog.key_char('l');
    dialog.key_char('s');
    dialog.key_down();
    dialog.key_char('x');
    let texts = dialog.get_inputs_as_strings();
    assert_eq!(texts, vec![
        "ls".to_string(),
        "x".to_string(),
        "".to_string(),
        "".to_string(),
    ]);
    let names = dialog.get_inputs_names();
    assert_eq!(names, vec![
        "Command".to_string(),
        "Annotation".to_string(),
        "Tags".to_string(),
        "Collection".to_string(),
    ]);
}

#[test]
fn manager_marks_exactly_the_focused_widget() {
    // The focus invariant, observably: each widget's local focus marker is
    // set exactly while that widget holds the focus.
    let mut wm = WidgetManager::new();
    assert_eq!(wm.get_cur_focus(), Focus::ResultTable);
    assert_eq!(wm.get_search_bar().get_cursor_ind(), None);
    assert_eq!(wm.get_input_dialog().get_cur_input_ind(), None);
    assert_eq!(wm.get_action_list().get_state(), None);

    wm.set_cur_focus(Focus::SearchBar);
    assert_eq!(wm.get_cur_focus(), Focus::SearchBar);
    assert!(wm.get_search_bar().get_cursor_ind().is_some());
    assert_eq!(wm.get_input_dialog().get_cur_input_ind(), None);
    assert_eq!(wm.get_action_list().get_state(), None);

    wm.set_cur_focus(Focus::InputDialog);
    assert_eq!(wm.get_search_bar().get_cursor_ind(), None);
    assert_eq!(wm.get_input_dialog().get_cur_input_ind(), Some(0));
}

#[test]
fn refocusing_the_focused_widget_changes_nothing() {
    // Setting the focus to its current value runs no blur/focus cycle: a
    // cursor moved away from the end stays where it is.
    let store = Memoire::new();
    let mut wm = WidgetManager::new();
    wm.set_cur_focus(Focus::SearchBar);
    wm.key_char('a', &store);
    wm.key_char('b', &store);
    wm.key_left();
    assert_eq!(wm.get_search_bar().get_cursor_ind(), Some(1));
    wm.set_cur_focus(Focus::SearchBar);
    // A redundant blur/focus would have pushed the cursor back to the end.
    assert_eq!(wm.get_search_bar().get_cursor_ind(), Some(1));
    // A real focus change blurs the search bar.
    wm.set_cur_focus(Focus::ResultTable);
    assert_eq!(wm.get_search_bar().get_cursor_ind(), None);
}

#[test]
fn typing_over_the_table_redirects_to_the_search_bar() {
    let store = Memoire::new();
    let mut wm = WidgetManager::new();
    assert_eq!(wm.get_cur_focus(), Focus::ResultTable);
    wm.key_char('g', &store);
    assert_eq!(wm.get_cur_focus(), Focus::SearchBar);
    assert_eq!(wm.get_search_bar().get_input(), "g");
}
