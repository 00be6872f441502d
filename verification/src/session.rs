//! The interactive session: the widget manager together with the record
//! store, consuming one input event at a time. Each event either goes to
//! the focused widget, moves the focus, or commits a store operation and
//! re-queries the store — an entry's index is never used after a mutation
//! without a fresh search.

use vstd::prelude::*;

use crate::bookmark::{default_collection_name, Bookmark, BookmarkView};
use crate::laws::{lemma_store_results_ok, result_ok};
use crate::store::{
    collection_index, has_collection, keywords_pred, search, search_results, spec_add,
    spec_delete, store_wf, CollectionView, Memoire, SearchResult, SearchResultView,
};
use crate::text::{split, split_spec, trim, trim_spec};
use crate::widget::action_list::ActionListView;
use crate::widget::input::{InputDialogView, InputView};
use crate::widget::manager::{
    manager_wf, spec_set_focus, spec_wm_key_backspace, spec_wm_key_char, spec_wm_key_down,
    spec_wm_key_esc, spec_wm_key_left, spec_wm_key_right, spec_wm_key_up, Focus, WidgetManager,
    WidgetManagerView,
};
use crate::widget::result_table::ResultTableView;

verus! {

/// One decoded input event, as the terminal front end hands it over.
#[derive(Clone, Copy, Debug)]
pub enum Event {
    /// A printable character was typed.
    Char(char),
    Up,
    Down,
    Left,
    Right,
    Backspace,
    /// Enter: submit whatever the focused widget offers.
    Enter,
    Esc,
    /// The shortcut that opens the input dialog for a fresh bookmark.
    OpenAddDialog,
    /// The shortcut that ends the session.
    Quit,
}

/// What the event loop should do after an event was handled.
#[derive(Debug)]
pub enum Outcome {
    /// Wait for the next event.
    Continue,
    /// End the loop.
    Exit,
    /// Put the text on the system clipboard, then end the loop.
    CopyAndExit(String),
}

/// The tags a comma-separated pieces list stands for: each piece trimmed,
/// empty pieces dropped.
pub open spec fn tags_of_pieces(pieces: Seq<Seq<char>>) -> Seq<Seq<char>>
    decreases pieces.len(),
{
    if pieces.len() == 0 {
        Seq::<Seq<char>>::empty()
    } else {
        let prefix = tags_of_pieces(pieces.drop_last());
        let t = trim_spec(pieces.last());
        if t.len() > 0 {
            prefix.push(t)
        } else {
            prefix
        }
    }
}

/// The tags a raw tags-field text stands for.
pub open spec fn spec_parse_tags(s: Seq<char>) -> Seq<Seq<char>> {
    tags_of_pieces(split_spec(s, ','))
}

/// Splits a comma-separated tags field into trimmed, non-empty tags.
pub fn parse_tags(s: &str) -> (r: Vec<String>)
    ensures
        r.deep_view() == spec_parse_tags(s@),
{
    let pieces = split(s, ',');
    let ghost pv = pieces.deep_view();
    let mut r: Vec<String> = Vec::new();
    let mut i: usize = 0;
    proof {
        assert(pv.take(0) =~= Seq::<Seq<char>>::empty());
        assert(r.deep_view() =~= tags_of_pieces(pv.take(0)));
    }
    while i < pieces.len()
        invariant
            pv == pieces.deep_view(),
            pv.len() == pieces.len(),
            i <= pieces.len(),
            r.deep_view() == tags_of_pieces(pv.take(i as int)),
        decreases pieces.len() - i,
    {
        proof {
            assert(pv[i as int] == pieces@[i as int]@);
            assert(pv.take(i + 1).drop_last() =~= pv.take(i as int));
            assert(pv.take(i + 1).last() == pv[i as int]);
        }
        let t = trim(pieces[i].as_str());
        if !t.as_str().is_empty() {
            assert(t@.len() > 0);
            let ghost dv_old = r.deep_view();
            r.push(t);
            proof {
                assert(r.deep_view() =~~= dv_old.push(trim_spec(pv[i as int])));
            }
        }
        i = i + 1;
    }
    proof {
        assert(pv.take(pv.len() as int) =~= pv);
    }
    r
}

/// The bookmark the dialog's four field texts stand for: command,
/// annotation, comma-separated tags, collection (the default collection
/// when that field is blank).
pub open spec fn spec_dialog_bookmark(d: InputDialogView) -> BookmarkView {
    BookmarkView {
        command: d.inputs[0].text,
        annotation: d.inputs[1].text,
        tags: spec_parse_tags(d.inputs[2].text),
        collection: if d.inputs[3].text.len() == 0 {
            default_collection_name()
        } else {
            d.inputs[3].text
        },
    }
}

/// Builds the bookmark that the dialog's four field texts describe.
pub fn dialog_inputs_to_bookmark(inputs: Vec<String>) -> (r: Bookmark)
    requires
        inputs.len() == 4,
    ensures
        r@ == (BookmarkView {
            command: inputs.deep_view()[0],
            annotation: inputs.deep_view()[1],
            tags: spec_parse_tags(inputs.deep_view()[2]),
            collection: if inputs.deep_view()[3].len() == 0 {
                default_collection_name()
            } else {
                inputs.deep_view()[3]
            },
        }),
{
    proof {
        assert(inputs.deep_view()[0] == inputs@[0]@);
        assert(inputs.deep_view()[1] == inputs@[1]@);
        assert(inputs.deep_view()[2] == inputs@[2]@);
        assert(inputs.deep_view()[3] == inputs@[3]@);
    }
    let tags = parse_tags(inputs[2].as_str());
    Bookmark::new(inputs[0].as_str(), inputs[1].as_str(), &tags, inputs[3].as_str())
}

/// Mathematical image of a [`Session`].
#[verifier::ext_equal]
pub ghost struct SessionView {
    pub wm: WidgetManagerView,
    pub store: Seq<CollectionView>,
}

/// Every row of the table is accounted for by the store.
pub open spec fn table_ok(cs: Seq<CollectionView>, items: Seq<SearchResultView>) -> bool {
    forall|k: int| 0 <= k < items.len() ==> result_ok(cs, #[trigger] items[k])
}

/// The session's invariant: the widgets and the store are well formed, and
/// every row on display points at a real record of the store — which is
/// why a row's index may be handed to a deletion.
pub open spec fn session_wf(v: SessionView) -> bool {
    &&& manager_wf(v.wm)
    &&& store_wf(v.store)
    &&& table_ok(v.store, v.wm.result_table.items)
}

/// The dialog pre-filled with a bookmark's four fields, everything else as
/// it was.
pub open spec fn spec_prefill_dialog(d: InputDialogView, b: BookmarkView) -> InputDialogView {
    InputDialogView {
        inputs: seq![
            InputView { text: b.command, ..d.inputs[0] },
            InputView { text: b.annotation, ..d.inputs[1] },
            InputView { text: crate::text::join_spec(b.tags, ", "@), ..d.inputs[2] },
            InputView { text: b.collection, ..d.inputs[3] },
        ],
        ..d
    }
}

/// The manager after a store commit: the table shows the fresh results
/// with no row selected, the menu's selection is cleared, and the focus
/// returns to the result table, blurring whichever widget held it.
pub open spec fn spec_commit_view(v: WidgetManagerView, items: Seq<SearchResultView>) -> WidgetManagerView {
    spec_set_focus(
        WidgetManagerView {
            result_table: ResultTableView { items, selected: None::<int> },
            action_list: ActionListView { selected: None::<int>, ..v.action_list },
            ..v
        },
        Focus::ResultTable,
    )
}

/// The interactive session: the widgets plus the store they work on.
#[derive(Debug)]
pub struct Session {
    wm: WidgetManager,
    store: Memoire,
}

impl View for Session {
    type V = SessionView;

    closed spec fn view(&self) -> SessionView {
        SessionView { wm: self.wm@, store: self.store@ }
    }
}

impl Session {
    /// A fresh session over the given store, showing nothing yet.
    pub fn new(store: Memoire) -> (r: Session)
        requires
            store_wf(store@),
        ensures
            r@.store == store@,
            r@.wm.cur_focus == Focus::ResultTable,
            r@.wm.result_table.items == Seq::<SearchResultView>::empty(),
            r@.wm.result_table.selected is None,
            session_wf(r@),
    {
        Session { wm: WidgetManager::new(), store }
    }

    /// The widgets, for rendering.
    pub fn widget_manager(&self) -> (r: &WidgetManager)
        ensures
            r@ == self@.wm,
    {
        &self.wm
    }

    /// The store, for persisting.
    pub fn get_store(&self) -> (r: &Memoire)
        ensures
            r@ == self@.store,
    {
        &self.store
    }

    /// Carries out a one-shot request on the session's own store and shows
    /// the results of the follow-up search it calls for.
    pub fn run_mode(&mut self, mode: &crate::modes::Mode)
        requires
            session_wf(old(self)@),
            old(self)@.wm.cur_focus != Focus::ActionList,
        ensures
            final(self)@.store == crate::modes::spec_run_mode_store(old(self)@.store, *mode),
            final(self)@.wm == (WidgetManagerView {
                result_table: ResultTableView {
                    items: search_results(
                        final(self)@.store,
                        crate::modes::spec_run_mode_keywords(*mode),
                    ),
                    selected: None::<int>,
                },
                ..old(self)@.wm
            }),
            session_wf(final(self)@),
    {
        let results = crate::modes::run_mode(&mut self.store, mode);
        self.wm.update_result_table(results);
        self.wm.reset_result_table_state();
        proof {
            lemma_search_table_ok(self@.store, crate::modes::spec_run_mode_keywords(*mode));
            assert(self@.wm =~~= WidgetManagerView {
                result_table: ResultTableView {
                    items: search_results(
                        self@.store,
                        crate::modes::spec_run_mode_keywords(*mode),
                    ),
                    selected: None::<int>,
                },
                ..old(self)@.wm
            });
        }
    }

    /// Re-runs the search for `keywords` and shows the results, clearing
    /// the selection.
    pub fn show_search(&mut self, keywords: &Vec<String>)
        requires
            session_wf(old(self)@),
            old(self)@.wm.cur_focus != Focus::ActionList,
        ensures
            final(self)@.store == old(self)@.store,
            final(self)@.wm == (WidgetManagerView {
                result_table: ResultTableView {
                    items: search_results(old(self)@.store, keywords.deep_view()),
                    selected: None::<int>,
                },
                ..old(self)@.wm
            }),
            session_wf(final(self)@),
    {
        let results = search(&self.store, keywords);
        self.wm.update_result_table(results);
        self.wm.reset_result_table_state();
        proof {
            lemma_store_results_ok(self@.store, keywords_pred(keywords.deep_view()));
            assert(self@.wm =~~= WidgetManagerView {
                result_table: ResultTableView {
                    items: search_results(old(self)@.store, keywords.deep_view()),
                    selected: None::<int>,
                },
                ..old(self)@.wm
            });
        }
    }

    /// Handles one input event: the heart of the interaction loop. The
    /// returned outcome tells the loop whether to go on, to stop, or to
    /// copy a command to the clipboard and stop.
    pub fn handle_event(&mut self, event: Event) -> (r: Outcome)
        requires
            session_wf(old(self)@),
        ensures
            session_wf(final(self)@),
            ({
                let pre = old(self)@;
                match event {
                    Event::Quit => final(self)@ == pre && r is Exit,
                    Event::Char(c) => final(self)@.store == pre.store && final(self)@.wm
                        == spec_wm_key_char(pre.wm, c, pre.store) && r is Continue,
                    Event::Up => final(self)@.store == pre.store && final(self)@.wm
                        == spec_wm_key_up(pre.wm) && r is Continue,
                    Event::Down => final(self)@.store == pre.store && final(self)@.wm
                        == spec_wm_key_down(pre.wm) && r is Continue,
                    Event::Left => final(self)@.store == pre.store && final(self)@.wm
                        == spec_wm_key_left(pre.wm) && r is Continue,
                    Event::Right => final(self)@.store == pre.store && final(self)@.wm
                        == spec_wm_key_right(pre.wm) && r is Continue,
                    Event::Backspace => final(self)@.store == pre.store && final(self)@.wm
                        == spec_wm_key_backspace(pre.wm, pre.store) && r is Continue,
                    Event::Esc => final(self)@.store == pre.store && final(self)@.wm
                        == spec_wm_key_esc(pre.wm) && r is Continue,
                    Event::OpenAddDialog => final(self)@.store == pre.store && r is Continue
                        && final(self)@.wm == spec_open_add_dialog(pre.wm),
                    Event::Enter => spec_enter_holds(pre, final(self)@, r),
                }
            }),
    {
        match event {
            Event::Quit => Outcome::Exit,
            Event::Char(c) => {
                let ghost pre = old(self)@;
                self.wm.key_char(c, &self.store);
                proof {
                    match pre.wm.cur_focus {
                        Focus::SearchBar => {
                            lemma_search_table_ok(
                                pre.store,
                                crate::widget::manager::spec_keywords(
                                    crate::widget::input::spec_key_char(pre.wm.search_bar, c).text,
                                ),
                            );
                        },
                        Focus::ResultTable => {
                            let v1 = spec_set_focus(pre.wm, Focus::SearchBar);
                            lemma_search_table_ok(
                                pre.store,
                                crate::widget::manager::spec_keywords(
                                    crate::widget::input::spec_key_char(v1.search_bar, c).text,
                                ),
                            );
                        },
                        Focus::InputDialog => {},
                        Focus::ActionList => {},
                    }
                }
                Outcome::Continue
            },
            Event::Up => {
                self.wm.key_up();
                Outcome::Continue
            },
            Event::Down => {
                self.wm.key_down();
                Outcome::Continue
            },
            Event::Left => {
                self.wm.key_left();
                Outcome::Continue
            },
            Event::Right => {
                self.wm.key_right();
                Outcome::Continue
            },
            Event::Backspace => {
                let ghost pre = old(self)@;
                self.wm.key_backspace(&self.store);
                proof {
                    match pre.wm.cur_focus {
                        Focus::SearchBar => {
                            lemma_search_table_ok(
                                pre.store,
                                crate::widget::manager::spec_keywords(
                                    crate::widget::input::spec_key_backspace(pre.wm.search_bar).text,
                                ),
                            );
                        },
                        Focus::ResultTable => {
                            let v1 = spec_set_focus(pre.wm, Focus::SearchBar);
                            lemma_search_table_ok(
                                pre.store,
                                crate::widget::manager::spec_keywords(
                                    crate::widget::input::spec_key_backspace(v1.search_bar).text,
                                ),
                            );
                        },
                        Focus::InputDialog => {},
                        Focus::ActionList => {},
                    }
                }
                Outcome::Continue
            },
            Event::Esc => {
                self.wm.key_esc();
                Outcome::Continue
            },
            Event::OpenAddDialog => {
                self.open_add_dialog();
                Outcome::Continue
            },
            Event::Enter => self.enter_pressed(),
        }
    }

    /// The `Ctrl-a` shortcut: clear the table's selection — so that the
    /// dialog submits as an add, not an edit — and, unless the dialog is
    /// already focused, pre-fill it with an empty default bookmark and
    /// focus it.
    fn open_add_dialog(&mut self)
        requires
            session_wf(old(self)@),
        ensures
            final(self)@.store == old(self)@.store,
            final(self)@.wm == spec_open_add_dialog(old(self)@.wm),
            session_wf(final(self)@),
    {
        self.wm.reset_result_table_state();
        if !matches!(self.wm.get_cur_focus(), Focus::InputDialog) {
            let empty_tags: Vec<String> = Vec::new();
            let defaults = Bookmark::default("", "", &empty_tags);
            self.wm.set_input_dialog_inputs(defaults.to_vec());
            self.wm.set_cur_focus(Focus::InputDialog);
            proof {
                assert(defaults@.tags =~~= Seq::<Seq<char>>::empty());
                reveal_strlit("");
                assert(self@.wm =~~= spec_open_add_dialog(old(self)@.wm));
            }
        }
    }

    /// The enter key, in every focus state.
    fn enter_pressed(&mut self) -> (r: Outcome)
        requires
            session_wf(old(self)@),
        ensures
            session_wf(final(self)@),
            spec_enter_holds(old(self)@, final(self)@, r),
    {
        let ghost pre = old(self)@;
        match self.wm.get_cur_focus() {
            Focus::SearchBar => {
                let selected = self.wm.get_result_table().get_state();
                if selected.is_none() {
                    self.wm.key_down();
                } else {
                    self.wm.set_cur_focus(Focus::ResultTable);
                }
                Outcome::Continue
            },
            Focus::ResultTable => {
                let selected = self.wm.get_result_table().get_state();
                if selected.is_some() {
                    self.wm.set_cur_focus(Focus::ActionList);
                }
                Outcome::Continue
            },
            Focus::ActionList => {
                match self.wm.get_action_list_state_selected() {
                    None => Outcome::Continue,
                    Some(action_index) => {
                        if action_index == 0 {
                            // Copy: hand the selected command to the loop.
                            let command = self.wm.get_selected_item_command().clone();
                            Outcome::CopyAndExit(command)
                        } else if action_index == 1 {
                            // Edit: pre-fill the dialog, keep the table's
                            // selection as the mark of the row under edit.
                            self.wm.update_input_dialog_from_result_table();
                            self.wm.set_cur_focus(Focus::InputDialog);
                            proof {
                                assert(self@.wm =~~= spec_set_focus(
                                    WidgetManagerView {
                                        input_dialog: spec_prefill_dialog(
                                            pre.wm.input_dialog,
                                            pre.wm.result_table.items[pre.wm.result_table.selected->Some_0].bookmark,
                                        ),
                                        ..pre.wm
                                    },
                                    Focus::InputDialog,
                                ));
                            }
                            Outcome::Continue
                        } else {
                            // Delete the selected row's record, then
                            // re-query its collection.
                            let index = match self.wm.get_selected_item_index() {
                                Some(i) => i,
                                None => { unreached() },
                            };
                            let cname = self.wm.get_selected_item_collection().clone();
                            let ghost row =
                                pre.wm.result_table.items[pre.wm.result_table.selected->Some_0];
                            proof {
                                self.lemma_row_deletable(pre, row);
                            }
                            let res = crate::store::delete(&mut self.store, cname.as_str(), index);
                            proof {
                                assert(res is Ok);
                            }
                            let mut keywords: Vec<String> = Vec::new();
                            keywords.push(cname);
                            let results = search(&self.store, &keywords);
                            self.wm.update_result_table(results);
                            self.wm.reset_action_list_state();
                            self.wm.reset_result_table_state();
                            self.wm.set_cur_focus(Focus::ResultTable);
                            proof {
                                assert(keywords.deep_view() =~~= seq![row.bookmark.collection]);
                                lemma_store_results_ok(
                                    self@.store,
                                    keywords_pred(keywords.deep_view()),
                                );
                                assert(self@.wm =~~= spec_commit_view(
                                    pre.wm,
                                    search_results(self@.store, seq![row.bookmark.collection]),
                                ));
                            }
                            Outcome::Continue
                        }
                    },
                }
            },
            Focus::InputDialog => {
                let inputs = self.wm.get_input_dialog().get_inputs_as_strings();
                let bookmark = dialog_inputs_to_bookmark(inputs);
                proof {
                    assert(bookmark@ == spec_dialog_bookmark(pre.wm.input_dialog));
                }
                match self.wm.get_selected_item_index() {
                    Some(index) => {
                        // Edit as replace: drop the original record, then
                        // append the rebuilt bookmark.
                        let cname = self.wm.get_selected_item_collection().clone();
                        let ghost row =
                            pre.wm.result_table.items[pre.wm.result_table.selected->Some_0];
                        proof {
                            self.lemma_row_deletable(pre, row);
                        }
                        let res = crate::store::delete(&mut self.store, cname.as_str(), index);
                        proof {
                            assert(res is Ok);
                        }
                        crate::store::add(&mut self.store, &bookmark, Some(index));
                    },
                    None => {
                        crate::store::add(&mut self.store, &bookmark, None);
                    },
                }
                self.wm.reset_action_list_state();
                self.wm.reset_result_table_state();
                let mut keywords: Vec<String> = Vec::new();
                keywords.push(bookmark.get_collection().clone());
                let results = search(&self.store, &keywords);
                self.wm.update_result_table(results);
                self.wm.set_cur_focus(Focus::ResultTable);
                proof {
                    assert(keywords.deep_view() =~~= seq![bookmark@.collection]);
                    lemma_store_results_ok(self@.store, keywords_pred(keywords.deep_view()));
                    assert(self@.wm =~~= spec_commit_view(
                        pre.wm,
                        search_results(self@.store, seq![bookmark@.collection]),
                    ));
                }
                Outcome::Continue
            },
        }
    }

    /// A row the table accounts for names a collection that really holds
    /// its record at its index, so deleting it succeeds.
    proof fn lemma_row_deletable(&self, pre: SessionView, row: SearchResultView)
        requires
            session_wf(pre),
            self@ == pre,
            pre.wm.result_table.selected is Some,
            0 <= pre.wm.result_table.selected->Some_0 < pre.wm.result_table.items.len(),
            row == pre.wm.result_table.items[pre.wm.result_table.selected->Some_0],
        ensures
            has_collection(pre.store, row.bookmark.collection),
            0 <= row.index < pre.store[collection_index(
                pre.store,
                row.bookmark.collection,
            )].bookmarks.len(),
            pre.store[collection_index(pre.store, row.bookmark.collection)].bookmarks[row.index]
                == row.bookmark,
    {
        let cs = pre.store;
        assert(result_ok(cs, row));
        let i = choose|i: int|
            0 <= i < cs.len() && (#[trigger] cs[i].name) == row.bookmark.collection && 0 <= row.index
                < cs[i].bookmarks.len() && cs[i].bookmarks[row.index] == row.bookmark;
        let ci = collection_index(cs, row.bookmark.collection);
        assert(0 <= ci < cs.len() && cs[ci].name == row.bookmark.collection);
        assert(ci == i) by {
            if ci != i {
                if ci < i {
                    assert(cs[ci].name != cs[i].name);
                } else {
                    assert(cs[i].name != cs[ci].name);
                }
            }
        }
    }
}

/// The results of any search over a well-formed store are all accounted
/// for by that store.
pub proof fn lemma_search_table_ok(cs: Seq<CollectionView>, keywords: Seq<Seq<char>>)
    requires
        store_wf(cs),
    ensures
        table_ok(cs, search_results(cs, keywords)),
{
    lemma_store_results_ok(cs, keywords_pred(keywords));
}

/// What the add-dialog shortcut does to the manager.
pub open spec fn spec_open_add_dialog(v: WidgetManagerView) -> WidgetManagerView {
    let cleared = WidgetManagerView {
        result_table: ResultTableView { selected: None::<int>, ..v.result_table },
        ..v
    };
    if v.cur_focus == Focus::InputDialog {
        cleared
    } else {
        spec_set_focus(
            WidgetManagerView {
                input_dialog: spec_prefill_dialog(
                    cleared.input_dialog,
                    BookmarkView {
                        command: Seq::<char>::empty(),
                        annotation: Seq::<char>::empty(),
                        tags: Seq::<Seq<char>>::empty(),
                        collection: default_collection_name(),
                    },
                ),
                ..cleared
            },
            Focus::InputDialog,
        )
    }
}

/// What the enter key promises, state by state (see the transition table
/// in [`Session::handle_event`]).
pub open spec fn spec_enter_holds(pre: SessionView, post: SessionView, r: Outcome) -> bool {
    match pre.wm.cur_focus {
        Focus::SearchBar => post.store == pre.store && r is Continue && post.wm == if pre.wm.result_table.selected is None {
            spec_wm_key_down(pre.wm)
        } else {
            spec_set_focus(pre.wm, Focus::ResultTable)
        },
        Focus::ResultTable => post.store == pre.store && r is Continue && post.wm == if pre.wm.result_table.selected is Some {
            spec_set_focus(pre.wm, Focus::ActionList)
        } else {
            pre.wm
        },
        Focus::ActionList => {
            let row = pre.wm.result_table.items[pre.wm.result_table.selected->Some_0];
            match pre.wm.action_list.selected {
                None => post == pre && r is Continue,
                Some(a) => if a == 0 {
                    post == pre && (r matches Outcome::CopyAndExit(s) && s@ == row.bookmark.command)
                } else if a == 1 {
                    post.store == pre.store && r is Continue && post.wm == spec_set_focus(
                        WidgetManagerView {
                            input_dialog: spec_prefill_dialog(pre.wm.input_dialog, row.bookmark),
                            ..pre.wm
                        },
                        Focus::InputDialog,
                    )
                } else {
                    let cs2 = spec_delete(pre.store, row.bookmark.collection, row.index);
                    post.store == cs2 && r is Continue && post.wm == spec_commit_view(
                        pre.wm,
                        search_results(cs2, seq![row.bookmark.collection]),
                    )
                },
            }
        },
        Focus::InputDialog => {
            let b = spec_dialog_bookmark(pre.wm.input_dialog);
            let cs2 = match pre.wm.result_table.selected {
                Some(si) => spec_add(
                    spec_delete(
                        pre.store,
                        pre.wm.result_table.items[si].bookmark.collection,
                        pre.wm.result_table.items[si].index,
                    ),
                    b,
                ),
                None => spec_add(pre.store, b),
            };
            post.store == cs2 && r is Continue && post.wm == spec_commit_view(
                pre.wm,
                search_results(cs2, seq![b.collection]),
            )
        },
    }
}

} // verus!
