//! The contextual action menu shown once a result row is chosen: copy the
//! command, edit the bookmark, or delete it.

use vstd::prelude::*;

use crate::widget::widget_trait::WidgetTrait;

verus! {

/// What can be done with the chosen result row.
#[derive(Clone, Copy, Debug, PartialEq, Eq, Structural)]
pub enum Action {
    Copy,
    Edit,
    Delete,
}

/// The label under which an action is listed.
pub open spec fn action_label(a: Action) -> Seq<char> {
    match a {
        Action::Copy => "Copy"@,
        Action::Edit => "Edit"@,
        Action::Delete => "Delete"@,
    }
}

impl Action {
    /// The action's label, as shown in the menu.
    pub fn label(&self) -> (r: String)
        ensures
            r@ == action_label(*self),
    {
        match self {
            Action::Copy => String::from_str("Copy"),
            Action::Edit => String::from_str("Edit"),
            Action::Delete => String::from_str("Delete"),
        }
    }
}

/// The fixed order in which the menu offers its actions.
pub fn actions() -> (r: Vec<Action>)
    ensures
        r@ == seq![Action::Copy, Action::Edit, Action::Delete],
{
    let mut r: Vec<Action> = Vec::new();
    r.push(Action::Copy);
    r.push(Action::Edit);
    r.push(Action::Delete);
    proof {
        assert(r@ =~= seq![Action::Copy, Action::Edit, Action::Delete]);
    }
    r
}

/// Mathematical image of an [`ActionList`].
#[verifier::ext_equal]
pub ghost struct ActionListView {
    pub items: Seq<Seq<char>>,
    pub selected: Option<int>,
}

/// The action menu: its labels and the selected entry, if any. An entry is
/// selected exactly while the menu has the focus.
#[derive(Debug)]
pub struct ActionList {
    items: Vec<String>,
    selected: Option<usize>,
}

impl View for ActionList {
    type V = ActionListView;

    closed spec fn view(&self) -> ActionListView {
        ActionListView {
            items: self.items.deep_view(),
            selected: match self.selected {
                Some(i) => Some(i as int),
                None => None,
            },
        }
    }
}

/// The selected entry, when present, is in range.
pub open spec fn action_list_wf(v: ActionListView) -> bool {
    match v.selected {
        Some(i) => 0 <= i < v.items.len(),
        None => true,
    }
}

impl ActionList {
    /// A menu listing the labels of `actions` in order, nothing selected.
    pub fn new(actions: Vec<Action>) -> (r: ActionList)
        ensures
            r@.selected is None,
            r@.items.len() == actions@.len(),
            forall|k: int|
                0 <= k < actions@.len() ==> (#[trigger] r@.items[k]) == action_label(actions@[k]),
            action_list_wf(r@),
    {
        let mut items: Vec<String> = Vec::new();
        let mut i: usize = 0;
        while i < actions.len()
            invariant
                i <= actions.len(),
                items.deep_view().len() == i,
                forall|k: int|
                    0 <= k < i ==> (#[trigger] items.deep_view()[k]) == action_label(actions@[k]),
            decreases actions.len() - i,
        {
            let s = actions[i].label();
            let ghost dv_old = items.deep_view();
            items.push(s);
            proof {
                assert(items.deep_view() =~~= dv_old.push(s@));
            }
            i = i + 1;
        }
        ActionList { items, selected: None }
    }

    /// The menu's labels, for rendering.
    pub fn get_items(&self) -> (r: &Vec<String>)
        ensures
            r.deep_view() == self@.items,
    {
        &self.items
    }

    /// The selected entry, if any.
    pub fn get_state(&self) -> (r: Option<usize>)
        ensures
            match r {
                Some(i) => self@.selected == Some(i as int),
                None => self@.selected is None,
            },
    {
        self.selected
    }

    /// Clears the selection.
    pub fn reset(&mut self)
        ensures
            final(self)@ == (ActionListView { selected: None::<int>, ..old(self)@ }),
    {
        self.selected = None;
    }

    /// Moves the selection one entry up; at the first entry, or with no
    /// selection, nothing changes.
    pub fn up(&mut self)
        ensures
            final(self)@ == match old(self)@.selected {
                Some(i) => if i > 0 {
                    ActionListView { selected: Some(i - 1), ..old(self)@ }
                } else {
                    old(self)@
                },
                None => old(self)@,
            },
    {
        if let Some(i) = self.selected {
            if i > 0 {
                self.selected = Some(i - 1);
            }
        }
    }

    /// Moves the selection one entry down, stopping at the last entry; with
    /// no selection it selects the first entry of a non-empty menu.
    pub fn down(&mut self)
        requires
            action_list_wf(old(self)@),
        ensures
            final(self)@ == match old(self)@.selected {
                Some(i) => if i + 1 < old(self)@.items.len() {
                    ActionListView { selected: Some(i + 1), ..old(self)@ }
                } else {
                    old(self)@
                },
                None => if old(self)@.items.len() > 0 {
                    ActionListView { selected: Some(0int), ..old(self)@ }
                } else {
                    old(self)@
                },
            },
            action_list_wf(final(self)@),
    {
        let n = self.items.len();
        match self.selected {
            Some(i) => {
                assert(i < n);
                if i + 1 < n {
                    self.selected = Some(i + 1);
                }
            },
            None => {
                if n > 0 {
                    self.selected = Some(0);
                }
            },
        }
    }
}

impl WidgetTrait for ActionList {
    /// The menu can only gain the focus when it has an entry to select.
    open spec fn focus_req(pre: ActionList) -> bool {
        pre@.items.len() > 0
    }

    /// Gaining the focus selects the first entry.
    open spec fn focus_spec(pre: ActionList, post: ActionList) -> bool {
        post@ == (ActionListView { selected: Some(0int), ..pre@ })
    }

    /// Losing the focus clears the selection.
    open spec fn blur_spec(pre: ActionList, post: ActionList) -> bool {
        post@ == (ActionListView { selected: None::<int>, ..pre@ })
    }

    fn on_focus(&mut self) {
        self.selected = Some(0);
    }

    fn on_blur(&mut self) {
        self.selected = None;
    }
}

} // verus!
