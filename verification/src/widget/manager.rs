//! The widget manager: the four widgets of the interface under a single
//! focus pointer. Key events go to the focused widget or redirect the
//! focus, and changing the focus always blurs the old widget before it
//! focuses the new one — and does nothing at all when the focus would not
//! change.

use vstd::prelude::*;

use crate::bookmark::Bookmark;
use crate::store::{search, search_results, CollectionView, Memoire, SearchResult};
use crate::text::{split, split_spec, trim, trim_spec};
use crate::widget::action_list::{action_list_wf, actions, ActionList, ActionListView};
use crate::widget::input::{
    dialog_refocus, dialog_wf, input_wf, spec_key_backspace, spec_key_char, spec_key_left,
    spec_key_right, Input, InputDialog, InputDialogView, InputView,
};
use crate::widget::result_table::{result_table_wf, ResultTable, ResultTableView};
use crate::widget::widget_trait::WidgetTrait;

verus! {

/// The widget currently receiving keyboard input. Exactly one widget is
/// focused at any time.
#[derive(Clone, Copy, Debug, PartialEq, Eq, Structural)]
pub enum Focus {
    SearchBar,
    ResultTable,
    ActionList,
    InputDialog,
}

/// Mathematical image of a [`WidgetManager`].
#[verifier::ext_equal]
pub ghost struct WidgetManagerView {
    pub search_bar: InputView,
    pub result_table: ResultTableView,
    pub action_list: ActionListView,
    pub input_dialog: InputDialogView,
    pub cur_focus: Focus,
}

/// The four widgets and the focus pointer.
#[derive(Debug)]
pub struct WidgetManager {
    search_bar: Input,
    result_table: ResultTable,
    action_list: ActionList,
    input_dialog: InputDialog,
    cur_focus: Focus,
}

impl View for WidgetManager {
    type V = WidgetManagerView;

    closed spec fn view(&self) -> WidgetManagerView {
        WidgetManagerView {
            search_bar: self.search_bar@,
            result_table: self.result_table@,
            action_list: self.action_list@,
            input_dialog: self.input_dialog@,
            cur_focus: self.cur_focus,
        }
    }
}

/// The manager's invariant: each widget is well formed, the dialog has its
/// four bookmark fields, the menu its three actions; each widget's local
/// focus marker (the search bar's cursor, the dialog's current field, the
/// menu's selection) is set exactly while that widget holds the focus; and
/// the menu is only focused while a result row is selected.
pub open spec fn manager_wf(v: WidgetManagerView) -> bool {
    &&& manager_widgets_wf(v)
    &&& (v.search_bar.cursor is Some <==> v.cur_focus == Focus::SearchBar)
    &&& (v.input_dialog.cur_input is Some <==> v.cur_focus == Focus::InputDialog)
    &&& (v.action_list.selected is Some <==> v.cur_focus == Focus::ActionList)
    &&& (v.cur_focus == Focus::ActionList ==> v.result_table.selected is Some)
}

/// Each widget on its own is well formed and has its fixed shape.
pub open spec fn manager_widgets_wf(v: WidgetManagerView) -> bool {
    &&& input_wf(v.search_bar)
    &&& result_table_wf(v.result_table)
    &&& action_list_wf(v.action_list)
    &&& dialog_wf(v.input_dialog)
    &&& v.input_dialog.inputs.len() == 4
    &&& v.action_list.items.len() == 3
}

/// No widget but the focused one carries a local focus marker.
pub open spec fn others_unmarked(v: WidgetManagerView) -> bool {
    &&& (v.cur_focus != Focus::SearchBar ==> v.search_bar.cursor is None)
    &&& (v.cur_focus != Focus::InputDialog ==> v.input_dialog.cur_input is None)
    &&& (v.cur_focus != Focus::ActionList ==> v.action_list.selected is None)
}

/// The manager with the named widget's focus state cleared.
pub open spec fn spec_blur_widget(v: WidgetManagerView, f: Focus) -> WidgetManagerView {
    match f {
        Focus::SearchBar => WidgetManagerView {
            search_bar: InputView { cursor: None::<int>, ..v.search_bar },
            ..v
        },
        Focus::ResultTable => v,
        Focus::ActionList => WidgetManagerView {
            action_list: ActionListView { selected: None::<int>, ..v.action_list },
            ..v
        },
        Focus::InputDialog => WidgetManagerView {
            input_dialog: dialog_refocus(v.input_dialog, None::<int>),
            ..v
        },
    }
}

/// The manager with the named widget's focus state initialised.
pub open spec fn spec_focus_widget(v: WidgetManagerView, f: Focus) -> WidgetManagerView {
    match f {
        Focus::SearchBar => WidgetManagerView {
            search_bar: InputView {
                cursor: Some(v.search_bar.text.len() as int),
                ..v.search_bar
            },
            ..v
        },
        Focus::ResultTable => v,
        Focus::ActionList => WidgetManagerView {
            action_list: ActionListView { selected: Some(0int), ..v.action_list },
            ..v
        },
        Focus::InputDialog => WidgetManagerView {
            input_dialog: dialog_refocus(v.input_dialog, Some(0int)),
            ..v
        },
    }
}

/// Moving the focus: nothing happens when the focus would not change;
/// otherwise the old widget is blurred first, then the new one focused.
pub open spec fn spec_set_focus(v: WidgetManagerView, f: Focus) -> WidgetManagerView {
    if v.cur_focus == f {
        v
    } else {
        WidgetManagerView { cur_focus: f, ..spec_focus_widget(spec_blur_widget(v, v.cur_focus), f) }
    }
}

/// The keywords a search-bar text stands for: the text trimmed, then split
/// at every single space.
pub open spec fn spec_keywords(text: Seq<char>) -> Seq<Seq<char>> {
    split_spec(trim_spec(text), ' ')
}

/// The manager after the result table is refreshed from the search bar:
/// the selection is cleared and the rows become the store's results for
/// the search bar's keywords.
pub open spec fn spec_refresh_from_search(v: WidgetManagerView, cs: Seq<CollectionView>) -> WidgetManagerView {
    WidgetManagerView {
        result_table: ResultTableView {
            items: search_results(cs, spec_keywords(v.search_bar.text)),
            selected: None::<int>,
        },
        ..v
    }
}


/// The dialog with `op` applied to its current field.
pub open spec fn spec_dialog_edit(d: InputDialogView, edited: InputView) -> InputDialogView {
    InputDialogView { inputs: d.inputs.update(d.cur_input->Some_0, edited), ..d }
}

/// What a typed character does to the manager (see [`WidgetManager::key_char`]).
pub open spec fn spec_wm_key_char(v: WidgetManagerView, character: char, cs: Seq<CollectionView>) -> WidgetManagerView {
    match v.cur_focus {
        Focus::SearchBar => spec_refresh_from_search(
            WidgetManagerView { search_bar: spec_key_char(v.search_bar, character), ..v },
            cs,
        ),
        Focus::ResultTable => {
            let v1 = spec_set_focus(v, Focus::SearchBar);
            spec_refresh_from_search(
                WidgetManagerView { search_bar: spec_key_char(v1.search_bar, character), ..v1 },
                cs,
            )
        },
        Focus::InputDialog => WidgetManagerView {
            input_dialog: spec_dialog_edit(
                v.input_dialog,
                spec_key_char(v.input_dialog.inputs[v.input_dialog.cur_input->Some_0], character),
            ),
            ..v
        },
        Focus::ActionList => v,
    }
}

/// An up arrow on the action menu or the result table.
pub open spec fn spec_list_up(sel: Option<int>) -> Option<int> {
    match sel {
        Some(i) => if i > 0 {
            Some(i - 1)
        } else {
            Some(i)
        },
        None => None::<int>,
    }
}

/// What an up arrow does to the manager (see [`WidgetManager::key_up`]).
pub open spec fn spec_wm_key_up(v: WidgetManagerView) -> WidgetManagerView {
    match v.cur_focus {
        Focus::ActionList => WidgetManagerView {
            action_list: ActionListView { selected: spec_list_up(v.action_list.selected), ..v.action_list },
            ..v
        },
        Focus::ResultTable => WidgetManagerView {
            result_table: ResultTableView { selected: spec_list_up(v.result_table.selected), ..v.result_table },
            ..v
        },
        Focus::InputDialog => WidgetManagerView {
            input_dialog: match v.input_dialog.cur_input {
                Some(i) => if i > 0 {
                    dialog_refocus(v.input_dialog, Some(i - 1))
                } else {
                    v.input_dialog
                },
                None => v.input_dialog,
            },
            ..v
        },
        Focus::SearchBar => {
            let v1 = spec_set_focus(v, Focus::ResultTable);
            WidgetManagerView {
                result_table: ResultTableView { selected: spec_list_up(v1.result_table.selected), ..v1.result_table },
                ..v1
            }
        },
    }
}

/// A down arrow on the action menu.
pub open spec fn spec_menu_down(a: ActionListView) -> ActionListView {
    match a.selected {
        Some(i) => if i + 1 < a.items.len() {
            ActionListView { selected: Some(i + 1), ..a }
        } else {
            a
        },
        None => if a.items.len() > 0 {
            ActionListView { selected: Some(0int), ..a }
        } else {
            a
        },
    }
}

/// What a down arrow does to the manager (see [`WidgetManager::key_down`]).
pub open spec fn spec_wm_key_down(v: WidgetManagerView) -> WidgetManagerView {
    match v.cur_focus {
        Focus::ActionList => WidgetManagerView { action_list: spec_menu_down(v.action_list), ..v },
        Focus::ResultTable => WidgetManagerView {
            result_table: spec_table_down(v.result_table),
            ..v
        },
        Focus::InputDialog => WidgetManagerView {
            input_dialog: match v.input_dialog.cur_input {
                Some(i) => if i + 1 < v.input_dialog.inputs.len() {
                    dialog_refocus(v.input_dialog, Some(i + 1))
                } else {
                    v.input_dialog
                },
                None => v.input_dialog,
            },
            ..v
        },
        Focus::SearchBar => {
            let v1 = spec_set_focus(v, Focus::ResultTable);
            WidgetManagerView { result_table: spec_table_down(v1.result_table), ..v1 }
        },
    }
}

/// What a left arrow does to the manager (see [`WidgetManager::key_left`]).
pub open spec fn spec_wm_key_left(v: WidgetManagerView) -> WidgetManagerView {
    match v.cur_focus {
        Focus::SearchBar => WidgetManagerView { search_bar: spec_key_left(v.search_bar), ..v },
        Focus::ResultTable => {
            let v1 = spec_set_focus(v, Focus::SearchBar);
            WidgetManagerView { search_bar: spec_key_left(v1.search_bar), ..v1 }
        },
        Focus::InputDialog => WidgetManagerView {
            input_dialog: spec_dialog_edit(
                v.input_dialog,
                spec_key_left(v.input_dialog.inputs[v.input_dialog.cur_input->Some_0]),
            ),
            ..v
        },
        Focus::ActionList => v,
    }
}

/// What a right arrow does to the manager (see [`WidgetManager::key_right`]).
pub open spec fn spec_wm_key_right(v: WidgetManagerView) -> WidgetManagerView {
    match v.cur_focus {
        Focus::SearchBar => WidgetManagerView { search_bar: spec_key_right(v.search_bar), ..v },
        Focus::ResultTable => {
            let v1 = spec_set_focus(v, Focus::SearchBar);
            WidgetManagerView { search_bar: spec_key_right(v1.search_bar), ..v1 }
        },
        Focus::InputDialog => WidgetManagerView {
            input_dialog: spec_dialog_edit(
                v.input_dialog,
                spec_key_right(v.input_dialog.inputs[v.input_dialog.cur_input->Some_0]),
            ),
            ..v
        },
        Focus::ActionList => v,
    }
}

/// What backspace does to the manager (see [`WidgetManager::key_backspace`]).
pub open spec fn spec_wm_key_backspace(v: WidgetManagerView, cs: Seq<CollectionView>) -> WidgetManagerView {
    match v.cur_focus {
        Focus::SearchBar => spec_refresh_from_search(
            WidgetManagerView { search_bar: spec_key_backspace(v.search_bar), ..v },
            cs,
        ),
        Focus::ResultTable => {
            let v1 = spec_set_focus(v, Focus::SearchBar);
            spec_refresh_from_search(
                WidgetManagerView { search_bar: spec_key_backspace(v1.search_bar), ..v1 },
                cs,
            )
        },
        Focus::InputDialog => WidgetManagerView {
            input_dialog: spec_dialog_edit(
                v.input_dialog,
                spec_key_backspace(v.input_dialog.inputs[v.input_dialog.cur_input->Some_0]),
            ),
            ..v
        },
        Focus::ActionList => v,
    }
}

/// What escape does to the manager (see [`WidgetManager::key_esc`]).
pub open spec fn spec_wm_key_esc(v: WidgetManagerView) -> WidgetManagerView {
    match v.cur_focus {
        Focus::ActionList => spec_set_focus(
            WidgetManagerView {
                action_list: ActionListView { selected: None::<int>, ..v.action_list },
                ..v
            },
            Focus::ResultTable,
        ),
        Focus::InputDialog => spec_set_focus(v, Focus::SearchBar),
        Focus::ResultTable => spec_set_focus(v, Focus::SearchBar),
        Focus::SearchBar => v,
    }
}

impl WidgetManager {
    /// The interface as it first comes up: an empty search bar named
    /// `Search`, an empty result table holding the focus, the three-action
    /// menu, and the four-field input dialog, everything unfocused but the
    /// table.
    pub fn new() -> (r: WidgetManager)
        ensures
            r@.cur_focus == Focus::ResultTable,
            r@.search_bar == (InputView {
                name: "Search"@,
                text: Seq::<char>::empty(),
                cursor: None::<int>,
            }),
            r@.result_table == (ResultTableView {
                items: Seq::<crate::store::SearchResultView>::empty(),
                selected: None::<int>,
            }),
            r@.action_list.selected is None,
            r@.action_list.items =~= seq!["Copy"@, "Edit"@, "Delete"@],
            r@.input_dialog.cur_input is None,
            r@.input_dialog.inputs.len() == 4,
            r@.input_dialog.inputs[0] == (InputView {
                name: "Command"@,
                text: Seq::<char>::empty(),
                cursor: None::<int>,
            }),
            r@.input_dialog.inputs[1] == (InputView {
                name: "Annotation"@,
                text: Seq::<char>::empty(),
                cursor: None::<int>,
            }),
            r@.input_dialog.inputs[2] == (InputView {
                name: "Tags"@,
                text: Seq::<char>::empty(),
                cursor: None::<int>,
            }),
            r@.input_dialog.inputs[3] == (InputView {
                name: "Collection"@,
                text: Seq::<char>::empty(),
                cursor: None::<int>,
            }),
            manager_wf(r@),
    {
        let search_bar = Input::new("Search");
        let result_table = ResultTable::default();
        let action_list = ActionList::new(actions());
        let mut names: Vec<&str> = Vec::new();
        names.push("Command");
        names.push("Annotation");
        names.push("Tags");
        names.push("Collection");
        let input_dialog = InputDialog::new(names);
        proof {
            assert(names.deep_view()[0] == "Command"@);
            assert(names.deep_view()[1] == "Annotation"@);
            assert(names.deep_view()[2] == "Tags"@);
            assert(names.deep_view()[3] == "Collection"@);
        }
        let r = WidgetManager {
            search_bar,
            result_table,
            action_list,
            input_dialog,
            cur_focus: Focus::ResultTable,
        };
        proof {
            assert(r@.action_list.items =~~= seq!["Copy"@, "Edit"@, "Delete"@]);
        }
        r
    }

    pub fn get_cur_focus(&self) -> (r: Focus)
        ensures
            r == self@.cur_focus,
    {
        self.cur_focus
    }

    pub fn get_search_bar(&self) -> (r: &Input)
        ensures
            r@ == self@.search_bar,
    {
        &self.search_bar
    }

    pub fn get_result_table(&self) -> (r: &ResultTable)
        ensures
            r@ == self@.result_table,
    {
        &self.result_table
    }

    pub fn get_action_list(&self) -> (r: &ActionList)
        ensures
            r@ == self@.action_list,
    {
        &self.action_list
    }

    pub fn get_input_dialog(&self) -> (r: &InputDialog)
        ensures
            r@ == self@.input_dialog,
    {
        &self.input_dialog
    }

    /// Moves the focus to `new_focus`. Setting the focus to its current
    /// value does nothing: no widget is blurred or focused. Otherwise the
    /// widget losing the focus is blurred before the new one is focused.
    pub fn set_cur_focus(&mut self, new_focus: Focus)
        requires
            manager_widgets_wf(old(self)@),
            others_unmarked(old(self)@),
            new_focus == Focus::ActionList ==> old(self)@.result_table.selected is Some,
        ensures
            final(self)@ == spec_set_focus(old(self)@, new_focus),
            manager_widgets_wf(final(self)@),
            final(self)@.result_table == old(self)@.result_table,
            old(self)@.cur_focus != new_focus ==> manager_wf(final(self)@),
            manager_wf(old(self)@) ==> manager_wf(final(self)@),
    {
        if self.cur_focus != new_focus {
            match self.cur_focus {
                Focus::SearchBar => self.search_bar.on_blur(),
                Focus::ResultTable => self.result_table.on_blur(),
                Focus::ActionList => self.action_list.on_blur(),
                Focus::InputDialog => self.input_dialog.on_blur(),
            }
            match new_focus {
                Focus::SearchBar => self.search_bar.on_focus(),
                Focus::ResultTable => self.result_table.on_focus(),
                Focus::ActionList => self.action_list.on_focus(),
                Focus::InputDialog => self.input_dialog.on_focus(),
            }
            self.cur_focus = new_focus;
            proof {
                assert(self@ =~~= spec_set_focus(old(self)@, new_focus));
                if new_focus == Focus::InputDialog {
                    crate::widget::input::lemma_refocus_wf(
                        spec_blur_widget(old(self)@, old(self)@.cur_focus).input_dialog,
                        Some(0int),
                    );
                }
                if old(self)@.cur_focus == Focus::InputDialog {
                    crate::widget::input::lemma_refocus_wf(
                        old(self)@.input_dialog,
                        None::<int>,
                    );
                }
                assert(manager_wf(self@));
            }
        }
    }

    /// Clears the table's selection and replaces its rows with the store's
    /// results for the search bar's current keywords.
    fn update_result_table_from_search_bar(&mut self, store: &Memoire)
        ensures
            final(self)@ == spec_refresh_from_search(old(self)@, store@),
    {
        self.result_table.reset_state();
        let text = self.search_bar.get_input();
        let trimmed = trim(text.as_str());
        let keywords = split(trimmed.as_str(), ' ');
        let results = search(store, &keywords);
        self.result_table.update_results(results);
        proof {
            assert(self@ =~~= spec_refresh_from_search(old(self)@, store@));
        }
    }

    /// Replaces the result table's rows.
    pub fn update_result_table(&mut self, results: Vec<SearchResult>)
        ensures
            final(self)@ == (WidgetManagerView {
                result_table: ResultTableView {
                    items: results.deep_view(),
                    selected: match old(self)@.result_table.selected {
                        Some(i) => if i < results.deep_view().len() {
                            Some(i)
                        } else {
                            None::<int>
                        },
                        None => None::<int>,
                    },
                },
                ..old(self)@
            }),
    {
        self.result_table.update_results(results);
        proof {
            assert(self@ =~~= WidgetManagerView {
                result_table: self@.result_table,
                ..old(self)@
            });
        }
    }

    /// Clears the result table's selection.
    pub fn reset_result_table_state(&mut self)
        ensures
            final(self)@ == (WidgetManagerView {
                result_table: ResultTableView {
                    selected: None::<int>,
                    ..old(self)@.result_table
                },
                ..old(self)@
            }),
    {
        self.result_table.reset_state();
        proof {
            assert(self@ =~~= WidgetManagerView { result_table: self@.result_table, ..old(self)@ });
        }
    }

    /// Clears the action menu's selection.
    pub fn reset_action_list_state(&mut self)
        ensures
            final(self)@ == (WidgetManagerView {
                action_list: ActionListView {
                    selected: None::<int>,
                    ..old(self)@.action_list
                },
                ..old(self)@
            }),
    {
        self.action_list.reset();
        proof {
            assert(self@ =~~= WidgetManagerView { action_list: self@.action_list, ..old(self)@ });
        }
    }

    /// The action menu's selected entry, if any.
    pub fn get_action_list_state_selected(&self) -> (r: Option<usize>)
        ensures
            match r {
                Some(i) => self@.action_list.selected == Some(i as int),
                None => self@.action_list.selected is None,
            },
    {
        self.action_list.get_state()
    }

    /// The store index carried by the selected result row, if a row is
    /// selected.
    pub fn get_selected_item_index(&self) -> (r: Option<usize>)
        requires
            result_table_wf(self@.result_table),
        ensures
            match self@.result_table.selected {
                Some(i) => r is Some && r->Some_0 as int == self@.result_table.items[i].index,
                None => r is None,
            },
    {
        match self.result_table.get_state() {
            Some(i) => Some(self.result_table.get_item(i).get_index()),
            None => None,
        }
    }

    /// The collection name of the selected row's bookmark.
    pub fn get_selected_item_collection(&self) -> (r: &String)
        requires
            result_table_wf(self@.result_table),
            self@.result_table.selected is Some,
        ensures
            r@ == self@.result_table.items[self@.result_table.selected->Some_0].bookmark.collection,
    {
        let i = match self.result_table.get_state() {
            Some(i) => i,
            None => { unreached() },
        };
        self.result_table.get_item(i).get_bookmark().get_collection()
    }

    /// The command of the selected row's bookmark.
    pub fn get_selected_item_command(&self) -> (r: &String)
        requires
            result_table_wf(self@.result_table),
            self@.result_table.selected is Some,
        ensures
            r@ == self@.result_table.items[self@.result_table.selected->Some_0].bookmark.command,
    {
        let i = match self.result_table.get_state() {
            Some(i) => i,
            None => { unreached() },
        };
        self.result_table.get_item(i).get_bookmark().get_command()
    }

    /// What the detail panel shows: the selected row's bookmark, or
    /// nothing — the panel then falls back to its hint text.
    pub fn display_panel_bookmark(&self) -> (r: Option<&Bookmark>)
        requires
            result_table_wf(self@.result_table),
        ensures
            match self@.result_table.selected {
                Some(i) => r is Some && r->Some_0@ == self@.result_table.items[i].bookmark,
                None => r is None,
            },
    {
        match self.result_table.get_state() {
            Some(i) => Some(self.result_table.get_item(i).get_bookmark()),
            None => None,
        }
    }

    /// Pre-fills the input dialog with the selected row's bookmark fields.
    /// The table's selection is kept: it marks the row being edited.
    pub fn update_input_dialog_from_result_table(&mut self)
        requires
            manager_wf(old(self)@),
            old(self)@.result_table.selected is Some,
            old(self)@.input_dialog.cur_input is None,
        ensures
            ({
                let b =
                    old(self)@.result_table.items[old(self)@.result_table.selected->Some_0].bookmark;
                let d = old(self)@.input_dialog;
                final(self)@ == (WidgetManagerView {
                    input_dialog: InputDialogView {
                        inputs: seq![
                            InputView { text: b.command, ..d.inputs[0] },
                            InputView { text: b.annotation, ..d.inputs[1] },
                            InputView {
                                text: crate::text::join_spec(b.tags, ", "@),
                                ..d.inputs[2]
                            },
                            InputView { text: b.collection, ..d.inputs[3] },
                        ],
                        ..d
                    },
                    ..old(self)@
                })
            }),
            manager_wf(final(self)@),
    {
        let i = match self.result_table.get_state() {
            Some(i) => i,
            None => { unreached() },
        };
        let inputs = self.result_table.get_item(i).get_bookmark().to_vec();
        self.input_dialog.set_inputs(inputs);
        proof {
            let b = old(self)@.result_table.items[i as int].bookmark;
            let d = old(self)@.input_dialog;
            assert(self@.input_dialog.inputs =~~= seq![
                InputView { text: b.command, ..d.inputs[0] },
                InputView { text: b.annotation, ..d.inputs[1] },
                InputView { text: crate::text::join_spec(b.tags, ", "@), ..d.inputs[2] },
                InputView { text: b.collection, ..d.inputs[3] },
            ]);
            assert(self@ =~~= WidgetManagerView {
                input_dialog: self@.input_dialog,
                ..old(self)@
            });
        }
    }

    /// Pre-fills the input dialog with the given four field texts.
    pub fn set_input_dialog_inputs(&mut self, inputs: Vec<String>)
        requires
            dialog_wf(old(self)@.input_dialog),
            old(self)@.input_dialog.inputs.len() == 4,
            inputs.len() == 4,
            old(self)@.input_dialog.cur_input is None,
        ensures
            final(self)@.cur_focus == old(self)@.cur_focus,
            final(self)@.search_bar == old(self)@.search_bar,
            final(self)@.result_table == old(self)@.result_table,
            final(self)@.action_list == old(self)@.action_list,
            final(self)@.input_dialog.cur_input == old(self)@.input_dialog.cur_input,
            final(self)@.input_dialog.inputs.len() == 4,
            forall|k: int|
                0 <= k < 4 ==> (#[trigger] final(self)@.input_dialog.inputs[k]) == (InputView {
                    text: inputs.deep_view()[k],
                    ..old(self)@.input_dialog.inputs[k]
                }),
            dialog_wf(final(self)@.input_dialog),
            manager_wf(old(self)@) ==> manager_wf(final(self)@),
            manager_widgets_wf(old(self)@) ==> manager_widgets_wf(final(self)@),
    {
        self.input_dialog.set_inputs(inputs);
    }

    /// A typed character goes to the focused text widget; typing over the
    /// result table redirects the focus to the search bar first, and any
    /// change to the search bar re-runs the search.
    pub fn key_char(&mut self, character: char, store: &Memoire)
        requires
            manager_wf(old(self)@),
        ensures
            final(self)@ == spec_wm_key_char(old(self)@, character, store@),
            manager_wf(final(self)@),
    {
        match self.cur_focus {
            Focus::ResultTable => {
                self.set_cur_focus(Focus::SearchBar);
                self.search_bar.key_char(character);
                self.update_result_table_from_search_bar(store);
                proof {
                    assert(self@ =~~= spec_refresh_from_search(
                        WidgetManagerView {
                            search_bar: spec_key_char(
                                spec_set_focus(old(self)@, Focus::SearchBar).search_bar,
                                character,
                            ),
                            ..spec_set_focus(old(self)@, Focus::SearchBar)
                        },
                        store@,
                    ));
                }
            },
            Focus::InputDialog => {
                self.input_dialog.key_char(character);
                proof {
                    assert(self@ =~~= WidgetManagerView {
                        input_dialog: self@.input_dialog,
                        ..old(self)@
                    });
                }
            },
            Focus::SearchBar => {
                self.search_bar.key_char(character);
                self.update_result_table_from_search_bar(store);
                proof {
                    assert(self@ =~~= spec_refresh_from_search(
                        WidgetManagerView {
                            search_bar: spec_key_char(old(self)@.search_bar, character),
                            ..old(self)@
                        },
                        store@,
                    ));
                }
            },
            Focus::ActionList => {},
        }
    }

    /// An up arrow moves the focused list's selection, moves the dialog's
    /// field focus, or — from the search bar — returns to the result table
    /// and moves its selection.
    pub fn key_up(&mut self)
        requires
            manager_wf(old(self)@),
        ensures
            final(self)@ == spec_wm_key_up(old(self)@),
            manager_wf(final(self)@),
    {
        match self.cur_focus {
            Focus::ActionList => {
                self.action_list.up();
                proof {
                    assert(self@ =~~= WidgetManagerView {
                        action_list: self@.action_list,
                        ..old(self)@
                    });
                }
            },
            Focus::ResultTable => {
                self.result_table.key_up();
                proof {
                    assert(self@ =~~= WidgetManagerView {
                        result_table: self@.result_table,
                        ..old(self)@
                    });
                }
            },
            Focus::InputDialog => {
                self.input_dialog.key_up();
                proof {
                    assert(self@ =~~= WidgetManagerView {
                        input_dialog: self@.input_dialog,
                        ..old(self)@
                    });
                }
            },
            Focus::SearchBar => {
                self.set_cur_focus(Focus::ResultTable);
                self.result_table.key_up();
                proof {
                    let v1 = spec_set_focus(old(self)@, Focus::ResultTable);
                    assert(self@ =~~= WidgetManagerView { result_table: self@.result_table, ..v1 });
                }
            },
        }
    }

    /// A down arrow: as the up arrow, in the other direction, selecting
    /// the first entry of an unselected non-empty list.
    pub fn key_down(&mut self)
        requires
            manager_wf(old(self)@),
        ensures
            final(self)@ == spec_wm_key_down(old(self)@),
            manager_wf(final(self)@),
    {
        match self.cur_focus {
            Focus::ActionList => {
                self.action_list.down();
                proof {
                    assert(self@ =~~= WidgetManagerView {
                        action_list: self@.action_list,
                        ..old(self)@
                    });
                }
            },
            Focus::ResultTable => {
                self.result_table.key_down();
                proof {
                    assert(self@ =~~= WidgetManagerView {
                        result_table: self@.result_table,
                        ..old(self)@
                    });
                }
            },
            Focus::InputDialog => {
                self.input_dialog.key_down();
                proof {
                    assert(self@ =~~= WidgetManagerView {
                        input_dialog: self@.input_dialog,
                        ..old(self)@
                    });
                }
            },
            Focus::SearchBar => {
                self.set_cur_focus(Focus::ResultTable);
                self.result_table.key_down();
                proof {
                    let v1 = spec_set_focus(old(self)@, Focus::ResultTable);
                    assert(self@ =~~= WidgetManagerView { result_table: self@.result_table, ..v1 });
                }
            },
        }
    }

    /// A left arrow moves the cursor of the focused text widget; from the
    /// result table it returns the focus to the search bar first.
    pub fn key_left(&mut self)
        requires
            manager_wf(old(self)@),
        ensures
            final(self)@ == spec_wm_key_left(old(self)@),
            manager_wf(final(self)@),
    {
        match self.cur_focus {
            Focus::ResultTable => {
                self.set_cur_focus(Focus::SearchBar);
                self.search_bar.key_left();
                proof {
                    let v1 = spec_set_focus(old(self)@, Focus::SearchBar);
                    assert(self@ =~~= WidgetManagerView { search_bar: self@.search_bar, ..v1 });
                }
            },
            Focus::InputDialog => {
                self.input_dialog.key_left();
                proof {
                    assert(self@ =~~= WidgetManagerView {
                        input_dialog: self@.input_dialog,
                        ..old(self)@
                    });
                }
            },
            Focus::SearchBar => {
                self.search_bar.key_left();
                proof {
                    assert(self@ =~~= WidgetManagerView {
                        search_bar: self@.search_bar,
                        ..old(self)@
                    });
                }
            },
            Focus::ActionList => {},
        }
    }

    /// A right arrow: as the left arrow, in the other direction.
    pub fn key_right(&mut self)
        requires
            manager_wf(old(self)@),
        ensures
            final(self)@ == spec_wm_key_right(old(self)@),
            manager_wf(final(self)@),
    {
        match self.cur_focus {
            Focus::ResultTable => {
                self.set_cur_focus(Focus::SearchBar);
                self.search_bar.key_right();
                proof {
                    let v1 = spec_set_focus(old(self)@, Focus::SearchBar);
                    assert(self@ =~~= WidgetManagerView { search_bar: self@.search_bar, ..v1 });
                }
            },
            Focus::InputDialog => {
                self.input_dialog.key_right();
                proof {
                    assert(self@ =~~= WidgetManagerView {
                        input_dialog: self@.input_dialog,
                        ..old(self)@
                    });
                }
            },
            Focus::SearchBar => {
                self.search_bar.key_right();
                proof {
                    assert(self@ =~~= WidgetManagerView {
                        search_bar: self@.search_bar,
                        ..old(self)@
                    });
                }
            },
            Focus::ActionList => {},
        }
    }

    /// Backspace edits the focused text widget; over the result table the
    /// focus moves to the search bar first; a change to the search bar
    /// re-runs the search.
    pub fn key_backspace(&mut self, store: &Memoire)
        requires
            manager_wf(old(self)@),
        ensures
            final(self)@ == spec_wm_key_backspace(old(self)@, store@),
            manager_wf(final(self)@),
    {
        match self.cur_focus {
            Focus::InputDialog => {
                self.input_dialog.key_backspace();
                proof {
                    assert(self@ =~~= WidgetManagerView {
                        input_dialog: self@.input_dialog,
                        ..old(self)@
                    });
                }
            },
            Focus::SearchBar => {
                self.search_bar.key_backspace();
                self.update_result_table_from_search_bar(store);
                proof {
                    assert(self@ =~~= spec_refresh_from_search(
                        WidgetManagerView {
                            search_bar: spec_key_backspace(old(self)@.search_bar),
                            ..old(self)@
                        },
                        store@,
                    ));
                }
            },
            Focus::ResultTable => {
                self.set_cur_focus(Focus::SearchBar);
                self.search_bar.key_backspace();
                self.update_result_table_from_search_bar(store);
                proof {
                    let v1 = spec_set_focus(old(self)@, Focus::SearchBar);
                    assert(self@ =~~= spec_refresh_from_search(
                        WidgetManagerView {
                            search_bar: spec_key_backspace(v1.search_bar),
                            ..v1
                        },
                        store@,
                    ));
                }
            },
            Focus::ActionList => {},
        }
    }

    /// Escape steps back: the action menu clears and returns to the result
    /// table; the dialog and the table return to the search bar; over the
    /// search bar nothing happens.
    pub fn key_esc(&mut self)
        requires
            manager_wf(old(self)@),
        ensures
            final(self)@ == spec_wm_key_esc(old(self)@),
            manager_wf(final(self)@),
    {
        match self.cur_focus {
            Focus::ActionList => {
                self.action_list.reset();
                self.set_cur_focus(Focus::ResultTable);
                proof {
                    assert(self@ =~~= spec_set_focus(
                        WidgetManagerView {
                            action_list: ActionListView {
                                selected: None::<int>,
                                ..old(self)@.action_list
                            },
                            ..old(self)@
                        },
                        Focus::ResultTable,
                    ));
                }
            },
            Focus::InputDialog => {
                self.set_cur_focus(Focus::SearchBar);
            },
            Focus::ResultTable => {
                self.set_cur_focus(Focus::SearchBar);
            },
            Focus::SearchBar => {},
        }
    }
}

/// At all times exactly one widget is focused: the focus pointer names it,
/// and under the manager's invariant the focused widget is the only one
/// whose local focus marker is set.
pub proof fn lemma_focus_exclusive(v: WidgetManagerView)
    requires
        manager_wf(v),
    ensures
        v.cur_focus == Focus::SearchBar ==> v.search_bar.cursor is Some
            && v.input_dialog.cur_input is None && v.action_list.selected is None,
        v.cur_focus == Focus::InputDialog ==> v.input_dialog.cur_input is Some
            && v.search_bar.cursor is None && v.action_list.selected is None,
        v.cur_focus == Focus::ActionList ==> v.action_list.selected is Some
            && v.search_bar.cursor is None && v.input_dialog.cur_input is None,
        v.cur_focus == Focus::ResultTable ==> v.search_bar.cursor is None
            && v.input_dialog.cur_input is None && v.action_list.selected is None,
{
}

/// A down arrow on the result table: the selection moves one row down,
/// stopping at the last row; with no selection the first row of a
/// non-empty table is selected.
pub open spec fn spec_table_down(t: ResultTableView) -> ResultTableView {
    match t.selected {
        Some(i) => if i + 1 < t.items.len() {
            ResultTableView { selected: Some(i + 1), ..t }
        } else {
            t
        },
        None => if t.items.len() > 0 {
            ResultTableView { selected: Some(0int), ..t }
        } else {
            t
        },
    }
}

} // verus!
