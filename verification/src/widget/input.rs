//! The single-line text input (the search bar and each dialog field) and
//! the multi-field input dialog. A focused input has a cursor position,
//! always within the bounds of its text.

use vstd::prelude::*;

use crate::text::{chars_of_str, string_from_chars};
use crate::widget::widget_trait::WidgetTrait;

verus! {

/// Mathematical image of an [`Input`].
#[verifier::ext_equal]
pub ghost struct InputView {
    pub name: Seq<char>,
    pub text: Seq<char>,
    pub cursor: Option<int>,
}

/// A named single-line text input with an optional cursor; the cursor is
/// present exactly while the input has the focus.
#[derive(Debug)]
pub struct Input {
    name: String,
    text: Vec<char>,
    cursor: Option<usize>,
}

impl View for Input {
    type V = InputView;

    closed spec fn view(&self) -> InputView {
        InputView {
            name: self.name@,
            text: self.text@,
            cursor: match self.cursor {
                Some(i) => Some(i as int),
                None => None,
            },
        }
    }
}

impl DeepView for Input {
    type V = InputView;

    open spec fn deep_view(&self) -> InputView {
        self.view()
    }
}

/// The cursor, when present, sits between 0 and the text length.
pub open spec fn input_wf(v: InputView) -> bool {
    match v.cursor {
        Some(i) => 0 <= i <= v.text.len(),
        None => true,
    }
}

/// Typing a character: a tab is taken as a space; with no cursor nothing
/// happens; otherwise the character enters at the cursor, which advances.
pub open spec fn spec_key_char(v: InputView, c: char) -> InputView {
    let typed: char = if c == '\t' {
        ' '
    } else {
        c
    };
    match v.cursor {
        None => v,
        Some(i) => InputView { text: v.text.insert(i, typed), cursor: Some(i + 1), ..v },
    }
}

/// Moving the cursor left, stopping at the start of the text.
pub open spec fn spec_key_left(v: InputView) -> InputView {
    match v.cursor {
        Some(i) => if i > 0 {
            InputView { cursor: Some(i - 1), ..v }
        } else {
            v
        },
        None => v,
    }
}

/// Moving the cursor right, stopping at the end of the text.
pub open spec fn spec_key_right(v: InputView) -> InputView {
    match v.cursor {
        Some(i) => if i < v.text.len() {
            InputView { cursor: Some(i + 1), ..v }
        } else {
            v
        },
        None => v,
    }
}

/// Deleting the character before the cursor, if there is one.
pub open spec fn spec_key_backspace(v: InputView) -> InputView {
    match v.cursor {
        Some(i) => if i > 0 {
            InputView { text: v.text.remove(i - 1), cursor: Some(i - 1), ..v }
        } else {
            v
        },
        None => v,
    }
}

impl Input {
    /// An empty, unfocused input bearing the given name.
    pub fn new(name: &str) -> (r: Input)
        ensures
            r@ == (InputView {
                name: name@,
                text: Seq::<char>::empty(),
                cursor: None::<int>,
            }),
            input_wf(r@),
    {
        let r = Input { name: name.to_owned(), text: Vec::new(), cursor: None };
        proof {
            assert(r@ =~= InputView {
                name: name@,
                text: Seq::<char>::empty(),
                cursor: None::<int>,
            });
        }
        r
    }

    pub fn get_name(&self) -> (r: &String)
        ensures
            r@ == self@.name,
    {
        &self.name
    }

    /// The current text as an owned string.
    pub fn get_input(&self) -> (r: String)
        ensures
            r@ == self@.text,
    {
        string_from_chars(&self.text)
    }

    /// The cursor position, present exactly while the input is focused.
    pub fn get_cursor_ind(&self) -> (r: Option<usize>)
        ensures
            match r {
                Some(i) => self@.cursor == Some(i as int),
                None => self@.cursor is None,
            },
    {
        self.cursor
    }

    /// Replaces the text of an unfocused input.
    pub fn set_input(&mut self, input: &str)
        requires
            old(self)@.cursor is None,
        ensures
            final(self)@ == (InputView { text: input@, ..old(self)@ }),
            input_wf(final(self)@),
    {
        self.text = chars_of_str(input);
    }

    pub fn key_char(&mut self, character: char)
        requires
            input_wf(old(self)@),
        ensures
            final(self)@ == spec_key_char(old(self)@, character),
            input_wf(final(self)@),
    {
        let typed: char = if character == '\t' {
            ' '
        } else {
            character
        };
        match self.cursor {
            None => {},
            Some(i) => {
                self.text.insert(i, typed);
                let n = self.text.len();
                assert(i < n);
                self.cursor = Some(i + 1);
            },
        }
    }

    pub fn key_left(&mut self)
        ensures
            final(self)@ == spec_key_left(old(self)@),
    {
        if let Some(i) = self.cursor {
            if i > 0 {
                self.cursor = Some(i - 1);
            }
        }
    }

    pub fn key_right(&mut self)
        requires
            input_wf(old(self)@),
        ensures
            final(self)@ == spec_key_right(old(self)@),
            input_wf(final(self)@),
    {
        if let Some(i) = self.cursor {
            if i < self.text.len() {
                self.cursor = Some(i + 1);
            }
        }
    }

    pub fn key_backspace(&mut self)
        requires
            input_wf(old(self)@),
        ensures
            final(self)@ == spec_key_backspace(old(self)@),
            input_wf(final(self)@),
    {
        match self.cursor {
            None => {},
            Some(i) => {
                if i > 0 {
                    self.text.remove(i - 1);
                    self.cursor = Some(i - 1);
                }
            },
        }
    }
}

impl WidgetTrait for Input {
    open spec fn focus_req(pre: Input) -> bool {
        true
    }

    /// Gaining the focus puts the cursor at the end of the text.
    open spec fn focus_spec(pre: Input, post: Input) -> bool {
        post@ == (InputView { cursor: Some(pre@.text.len() as int), ..pre@ })
    }

    /// Losing the focus removes the cursor.
    open spec fn blur_spec(pre: Input, post: Input) -> bool {
        post@ == (InputView { cursor: None::<int>, ..pre@ })
    }

    fn on_focus(&mut self) {
        self.cursor = Some(self.text.len());
    }

    fn on_blur(&mut self) {
        self.cursor = None;
    }
}

/// Mathematical image of an [`InputDialog`].
#[verifier::ext_equal]
pub ghost struct InputDialogView {
    pub inputs: Seq<InputView>,
    pub cur_input: Option<int>,
}

/// A stack of named text inputs with at most one of them focused; the add
/// and edit form of the interface holds the four bookmark fields this way.
#[derive(Debug)]
pub struct InputDialog {
    inputs: Vec<Input>,
    cur_input: Option<usize>,
}

impl View for InputDialog {
    type V = InputDialogView;

    closed spec fn view(&self) -> InputDialogView {
        InputDialogView {
            inputs: self.inputs.deep_view(),
            cur_input: match self.cur_input {
                Some(i) => Some(i as int),
                None => None,
            },
        }
    }
}

/// An input as it stands after the dialog refreshes its focus: the chosen
/// field has its cursor at the end of its text, every other cursor is gone.
pub open spec fn refreshed_input(v: InputView, focused: bool) -> InputView {
    InputView {
        cursor: if focused {
            Some(v.text.len() as int)
        } else {
            None::<int>
        },
        ..v
    }
}

/// The dialog with its field focus moved to `cur` and every field's cursor
/// refreshed accordingly.
pub open spec fn dialog_refocus(v: InputDialogView, cur: Option<int>) -> InputDialogView {
    InputDialogView {
        inputs: Seq::new(v.inputs.len(), |k: int| refreshed_input(v.inputs[k], cur == Some(k))),
        cur_input: cur,
    }
}

/// The dialog's invariant: the current-field index is in range, every
/// field's cursor is in bounds, and a field carries a cursor exactly when
/// it is the current one.
pub open spec fn dialog_wf(v: InputDialogView) -> bool {
    &&& forall|k: int| 0 <= k < v.inputs.len() ==> input_wf(#[trigger] v.inputs[k])
    &&& match v.cur_input {
        Some(i) => 0 <= i < v.inputs.len() && forall|k: int|
            0 <= k < v.inputs.len() ==> ((#[trigger] v.inputs[k].cursor) is Some <==> k == i),
        None => forall|k: int| 0 <= k < v.inputs.len() ==> (#[trigger] v.inputs[k].cursor) is None,
    }
}

impl InputDialog {
    /// An unfocused dialog with one empty field per name, in order.
    pub fn new(input_names: Vec<&str>) -> (r: InputDialog)
        ensures
            r@.cur_input is None,
            r@.inputs.len() == input_names.len(),
            forall|k: int|
                0 <= k < input_names.len() ==> (#[trigger] r@.inputs[k]) == (InputView {
                    name: input_names.deep_view()[k],
                    text: Seq::<char>::empty(),
                    cursor: None::<int>,
                }),
            dialog_wf(r@),
    {
        let mut inputs: Vec<Input> = Vec::new();
        let mut i: usize = 0;
        while i < input_names.len()
            invariant
                i <= input_names.len(),
                inputs.deep_view().len() == i,
                forall|k: int|
                    0 <= k < i ==> (#[trigger] inputs.deep_view()[k]) == (InputView {
                        name: input_names.deep_view()[k],
                        text: Seq::<char>::empty(),
                        cursor: None::<int>,
                    }),
            decreases input_names.len() - i,
        {
            let field = Input::new(input_names[i]);
            proof {
                assert(input_names.deep_view()[i as int] == input_names@[i as int]@);
            }
            let ghost dv_old = inputs.deep_view();
            inputs.push(field);
            proof {
                assert(inputs.deep_view() =~~= dv_old.push(field@));
            }
            i = i + 1;
        }
        InputDialog { inputs, cur_input: None }
    }

    pub fn get_inputs_size(&self) -> (r: usize)
        ensures
            r == self@.inputs.len(),
    {
        self.inputs.len()
    }

    pub fn get_cur_input_ind(&self) -> (r: Option<usize>)
        ensures
            match r {
                Some(i) => self@.cur_input == Some(i as int),
                None => self@.cur_input is None,
            },
    {
        self.cur_input
    }

    /// The text of every field, in field order.
    pub fn get_inputs_as_strings(&self) -> (r: Vec<String>)
        ensures
            r.deep_view().len() == self@.inputs.len(),
            forall|k: int|
                0 <= k < self@.inputs.len() ==> (#[trigger] r.deep_view()[k])
                    == self@.inputs[k].text,
    {
        let mut r: Vec<String> = Vec::new();
        let mut i: usize = 0;
        while i < self.inputs.len()
            invariant
                i <= self.inputs.len(),
                self@.inputs.len() == self.inputs.len(),
                r.deep_view().len() == i,
                forall|k: int|
                    0 <= k < i ==> (#[trigger] r.deep_view()[k]) == self@.inputs[k].text,
            decreases self.inputs.len() - i,
        {
            assert(self@.inputs[i as int] == self.inputs@[i as int]@);
            let s = self.inputs[i].get_input();
            let ghost dv_old = r.deep_view();
            r.push(s);
            proof {
                assert(r.deep_view() =~~= dv_old.push(s@));
            }
            i = i + 1;
        }
        r
    }

    /// The name of every field, in field order.
    pub fn get_inputs_names(&self) -> (r: Vec<String>)
        ensures
            r.deep_view().len() == self@.inputs.len(),
            forall|k: int|
                0 <= k < self@.inputs.len() ==> (#[trigger] r.deep_view()[k])
                    == self@.inputs[k].name,
    {
        let mut r: Vec<String> = Vec::new();
        let mut i: usize = 0;
        while i < self.inputs.len()
            invariant
                i <= self.inputs.len(),
                self@.inputs.len() == self.inputs.len(),
                r.deep_view().len() == i,
                forall|k: int|
                    0 <= k < i ==> (#[trigger] r.deep_view()[k]) == self@.inputs[k].name,
            decreases self.inputs.len() - i,
        {
            assert(self@.inputs[i as int] == self.inputs@[i as int]@);
            let s = self.inputs[i].get_name().clone();
            let ghost dv_old = r.deep_view();
            r.push(s);
            proof {
                assert(r.deep_view() =~~= dv_old.push(s@));
            }
            i = i + 1;
        }
        r
    }

    /// The input at position `k`, for rendering.
    pub fn get_input_at(&self, k: usize) -> (r: &Input)
        requires
            k < self@.inputs.len(),
        ensures
            r@ == self@.inputs[k as int],
    {
        assert(self@.inputs[k as int] == self.inputs@[k as int]@);
        &self.inputs[k]
    }

    /// Replaces the text of every field of an unfocused dialog, in order.
    pub fn set_inputs(&mut self, inputs: Vec<String>)
        requires
            inputs.len() == old(self)@.inputs.len(),
            forall|k: int|
                0 <= k < old(self)@.inputs.len() ==> (#[trigger] old(self)@.inputs[k].cursor)
                    is None,
        ensures
            final(self)@.cur_input == old(self)@.cur_input,
            final(self)@.inputs.len() == old(self)@.inputs.len(),
            forall|k: int|
                0 <= k < old(self)@.inputs.len() ==> (#[trigger] final(self)@.inputs[k])
                    == (InputView { text: inputs.deep_view()[k], ..old(self)@.inputs[k] }),
    {
        let mut i: usize = 0;
        while i < self.inputs.len()
            invariant
                i <= self.inputs.len(),
                self.inputs.len() == old(self)@.inputs.len(),
                inputs.len() == old(self)@.inputs.len(),
                self.cur_input == old(self).cur_input,
                forall|k: int|
                    0 <= k < old(self)@.inputs.len() ==> (#[trigger] old(self)@.inputs[k].cursor)
                        is None,
                forall|k: int|
                    i <= k < old(self)@.inputs.len() ==> (#[trigger] self@.inputs[k]) == old(
                        self,
                    )@.inputs[k],
                forall|k: int|
                    0 <= k < i ==> (#[trigger] self@.inputs[k]) == (InputView {
                        text: inputs.deep_view()[k],
                        ..old(self)@.inputs[k]
                    }),
            decreases self.inputs.len() - i,
        {
            let ghost dv_pre = self@.inputs;
            let ghost vec_pre = self.inputs@;
            proof {
                assert forall|k: int| 0 <= k < vec_pre.len() implies #[trigger] dv_pre[k]
                    == vec_pre[k]@ by {}
            }
            let mut field = self.inputs.remove(i);
            assert(field@ == dv_pre[i as int]);
            proof {
                assert(inputs.deep_view()[i as int] == inputs@[i as int]@);
            }
            field.set_input(inputs[i].as_str());
            self.inputs.insert(i, field);
            proof {
                assert(self.inputs@ =~= vec_pre.update(i as int, field));
                assert forall|k: int| 0 <= k < self@.inputs.len() implies #[trigger] self@.inputs[k]
                    == if k == i as int {
                    field@
                } else {
                    dv_pre[k]
                } by {
                    assert(self.inputs@[k] == vec_pre.update(i as int, field)[k]);
                }
            }
            i = i + 1;
        }
    }

    /// Blurs every field, then focuses the current one, if any.
    fn update_input_focus(&mut self)
        requires
            match old(self)@.cur_input {
                Some(i) => 0 <= i < old(self)@.inputs.len(),
                None => true,
            },
        ensures
            final(self)@ == dialog_refocus(old(self)@, old(self)@.cur_input),
    {
        let ghost pre = old(self)@;
        let mut i: usize = 0;
        while i < self.inputs.len()
            invariant
                i <= self.inputs.len(),
                self.inputs.len() == pre.inputs.len(),
                self.cur_input == old(self).cur_input,
                pre == old(self)@,
                match pre.cur_input {
                    Some(ci) => 0 <= ci < pre.inputs.len(),
                    None => true,
                },
                forall|k: int|
                    i <= k < pre.inputs.len() ==> (#[trigger] self@.inputs[k]) == pre.inputs[k],
                forall|k: int|
                    0 <= k < i ==> (#[trigger] self@.inputs[k]) == refreshed_input(
                        pre.inputs[k],
                        pre.cur_input == Some(k),
                    ),
            decreases self.inputs.len() - i,
        {
            let ghost dv_pre = self@.inputs;
            let ghost vec_pre = self.inputs@;
            proof {
                assert forall|k: int| 0 <= k < vec_pre.len() implies #[trigger] dv_pre[k]
                    == vec_pre[k]@ by {}
            }
            let mut field = self.inputs.remove(i);
            assert(field@ == dv_pre[i as int]);
            field.on_blur();
            let focus_here = match self.cur_input {
                Some(ci) => ci == i,
                None => false,
            };
            if focus_here {
                field.on_focus();
            }
            self.inputs.insert(i, field);
            proof {
                assert(field@ == refreshed_input(
                    pre.inputs[i as int],
                    pre.cur_input == Some(i as int),
                ));
                assert(self.inputs@ =~= vec_pre.update(i as int, field));
                assert forall|k: int| 0 <= k < self@.inputs.len() implies #[trigger] self@.inputs[k]
                    == if k == i as int {
                    field@
                } else {
                    dv_pre[k]
                } by {
                    assert(self.inputs@[k] == vec_pre.update(i as int, field)[k]);
                }
            }
            i = i + 1;
        }
        proof {
            assert(self@ =~~= dialog_refocus(pre, pre.cur_input));
        }
    }

    /// Moves the field focus one field up, stopping at the first field.
    pub fn key_up(&mut self)
        requires
            dialog_wf(old(self)@),
        ensures
            final(self)@ == match old(self)@.cur_input {
                Some(i) => if i > 0 {
                    dialog_refocus(old(self)@, Some(i - 1))
                } else {
                    old(self)@
                },
                None => old(self)@,
            },
            dialog_wf(final(self)@),
    {
        let ghost pre = old(self)@;
        if let Some(i) = self.cur_input {
            if i > 0 {
                self.cur_input = Some(i - 1);
                self.update_input_focus();
                proof {
                    assert(self@ =~~= dialog_refocus(pre, Some(i - 1)));
                    lemma_refocus_wf(pre, Some(i - 1));
                }
            }
        }
    }

    /// Moves the field focus one field down, stopping at the last field.
    pub fn key_down(&mut self)
        requires
            dialog_wf(old(self)@),
        ensures
            final(self)@ == match old(self)@.cur_input {
                Some(i) => if i + 1 < old(self)@.inputs.len() {
                    dialog_refocus(old(self)@, Some(i + 1))
                } else {
                    old(self)@
                },
                None => old(self)@,
            },
            dialog_wf(final(self)@),
    {
        let ghost pre = old(self)@;
        let n = self.inputs.len();
        if let Some(i) = self.cur_input {
            assert(i < n);
            if i + 1 < n {
                self.cur_input = Some(i + 1);
                self.update_input_focus();
                proof {
                    assert(self@ =~~= dialog_refocus(pre, Some(i + 1)));
                    lemma_refocus_wf(pre, Some(i + 1));
                }
            }
        }
    }

    /// Types a character into the current field.
    pub fn key_char(&mut self, character: char)
        requires
            dialog_wf(old(self)@),
            old(self)@.cur_input is Some,
        ensures
            final(self)@ == (InputDialogView {
                inputs: old(self)@.inputs.update(
                    old(self)@.cur_input->Some_0,
                    spec_key_char(
                        old(self)@.inputs[old(self)@.cur_input->Some_0],
                        character,
                    ),
                ),
                ..old(self)@
            }),
            dialog_wf(final(self)@),
    {
        let i = match self.cur_input {
            Some(i) => i,
            None => { unreached() },
        };
        let ghost dv_pre = self@.inputs;
        let ghost vec_pre = self.inputs@;
        proof {
            assert forall|k: int| 0 <= k < vec_pre.len() implies #[trigger] dv_pre[k]
                == vec_pre[k]@ by {}
        }
        let mut field = self.inputs.remove(i);
        assert(field@ == dv_pre[i as int]);
        field.key_char(character);
        self.inputs.insert(i, field);
        proof {
            assert(self.inputs@ =~= vec_pre.update(i as int, field));
            assert forall|k: int| 0 <= k < self@.inputs.len() implies #[trigger] self@.inputs[k]
                == if k == i as int {
                field@
            } else {
                dv_pre[k]
            } by {
                assert(self.inputs@[k] == vec_pre.update(i as int, field)[k]);
            }
            assert(self@.inputs =~~= old(self)@.inputs.update(
                i as int,
                spec_key_char(old(self)@.inputs[i as int], character),
            ));
        }
    }

    /// Moves the cursor left inside the current field.
    pub fn key_left(&mut self)
        requires
            dialog_wf(old(self)@),
            old(self)@.cur_input is Some,
        ensures
            final(self)@ == (InputDialogView {
                inputs: old(self)@.inputs.update(
                    old(self)@.cur_input->Some_0,
                    spec_key_left(old(self)@.inputs[old(self)@.cur_input->Some_0]),
                ),
                ..old(self)@
            }),
            dialog_wf(final(self)@),
    {
        let i = match self.cur_input {
            Some(i) => i,
            None => { unreached() },
        };
        let ghost dv_pre = self@.inputs;
        let ghost vec_pre = self.inputs@;
        proof {
            assert forall|k: int| 0 <= k < vec_pre.len() implies #[trigger] dv_pre[k]
                == vec_pre[k]@ by {}
        }
        let mut field = self.inputs.remove(i);
        assert(field@ == dv_pre[i as int]);
        field.key_left();
        self.inputs.insert(i, field);
        proof {
            assert(self.inputs@ =~= vec_pre.update(i as int, field));
            assert forall|k: int| 0 <= k < self@.inputs.len() implies #[trigger] self@.inputs[k]
                == if k == i as int {
                field@
            } else {
                dv_pre[k]
            } by {
                assert(self.inputs@[k] == vec_pre.update(i as int, field)[k]);
            }
            assert(self@.inputs =~~= old(self)@.inputs.update(
                i as int,
                spec_key_left(old(self)@.inputs[i as int]),
            ));
        }
    }

    /// Moves the cursor right inside the current field.
    pub fn key_right(&mut self)
        requires
            dialog_wf(old(self)@),
            old(self)@.cur_input is Some,
        ensures
            final(self)@ == (InputDialogView {
                inputs: old(self)@.inputs.update(
                    old(self)@.cur_input->Some_0,
                    spec_key_right(old(self)@.inputs[old(self)@.cur_input->Some_0]),
                ),
                ..old(self)@
            }),
            dialog_wf(final(self)@),
    {
        let i = match self.cur_input {
            Some(i) => i,
            None => { unreached() },
        };
        let ghost dv_pre = self@.inputs;
        let ghost vec_pre = self.inputs@;
        proof {
            assert forall|k: int| 0 <= k < vec_pre.len() implies #[trigger] dv_pre[k]
                == vec_pre[k]@ by {}
        }
        let mut field = self.inputs.remove(i);
        assert(field@ == dv_pre[i as int]);
        field.key_right();
        self.inputs.insert(i, field);
        proof {
            assert(self.inputs@ =~= vec_pre.update(i as int, field));
            assert forall|k: int| 0 <= k < self@.inputs.len() implies #[trigger] self@.inputs[k]
                == if k == i as int {
                field@
            } else {
                dv_pre[k]
            } by {
                assert(self.inputs@[k] == vec_pre.update(i as int, field)[k]);
            }
            assert(self@.inputs =~~= old(self)@.inputs.update(
                i as int,
                spec_key_right(old(self)@.inputs[i as int]),
            ));
        }
    }

    /// Deletes the character before the cursor inside the current field.
    pub fn key_backspace(&mut self)
        requires
            dialog_wf(old(self)@),
            old(self)@.cur_input is Some,
        ensures
            final(self)@ == (InputDialogView {
                inputs: old(self)@.inputs.update(
                    old(self)@.cur_input->Some_0,
                    spec_key_backspace(old(self)@.inputs[old(self)@.cur_input->Some_0]),
                ),
                ..old(self)@
            }),
            dialog_wf(final(self)@),
    {
        let i = match self.cur_input {
            Some(i) => i,
            None => { unreached() },
        };
        let ghost dv_pre = self@.inputs;
        let ghost vec_pre = self.inputs@;
        proof {
            assert forall|k: int| 0 <= k < vec_pre.len() implies #[trigger] dv_pre[k]
                == vec_pre[k]@ by {}
        }
        let mut field = self.inputs.remove(i);
        assert(field@ == dv_pre[i as int]);
        field.key_backspace();
        self.inputs.insert(i, field);
        proof {
            assert(self.inputs@ =~= vec_pre.update(i as int, field));
            assert forall|k: int| 0 <= k < self@.inputs.len() implies #[trigger] self@.inputs[k]
                == if k == i as int {
                field@
            } else {
                dv_pre[k]
            } by {
                assert(self.inputs@[k] == vec_pre.update(i as int, field)[k]);
            }
            assert(self@.inputs =~~= old(self)@.inputs.update(
                i as int,
                spec_key_backspace(old(self)@.inputs[i as int]),
            ));
        }
    }
}

/// Refreshing the dialog's focus to an in-range field, or to none, yields a
/// well-formed dialog.
pub proof fn lemma_refocus_wf(v: InputDialogView, cur: Option<int>)
    requires
        forall|k: int| 0 <= k < v.inputs.len() ==> input_wf(#[trigger] v.inputs[k]),
        match cur {
            Some(i) => 0 <= i < v.inputs.len(),
            None => true,
        },
    ensures
        dialog_wf(dialog_refocus(v, cur)),
{
    let post = dialog_refocus(v, cur);
    assert forall|k: int| 0 <= k < post.inputs.len() implies input_wf(#[trigger] post.inputs[k])
        by {
        assert(post.inputs[k] == refreshed_input(v.inputs[k], cur == Some(k)));
    }
    match cur {
        Some(i) => {
            assert forall|k: int| 0 <= k < post.inputs.len() implies ((
            #[trigger] post.inputs[k].cursor) is Some <==> k == i) by {
                assert(post.inputs[k] == refreshed_input(v.inputs[k], cur == Some(k)));
            }
        },
        None => {
            assert forall|k: int| 0 <= k < post.inputs.len() implies (
            #[trigger] post.inputs[k].cursor) is None by {
                assert(post.inputs[k] == refreshed_input(v.inputs[k], false));
            }
        },
    }
}

impl WidgetTrait for InputDialog {
    /// The dialog can only gain the focus when it has a field to focus.
    open spec fn focus_req(pre: InputDialog) -> bool {
        pre@.inputs.len() > 0
    }

    /// Gaining the focus selects the first field and puts its cursor at the
    /// end of its text; every other field's cursor is cleared.
    open spec fn focus_spec(pre: InputDialog, post: InputDialog) -> bool {
        post@ == dialog_refocus(pre@, Some(0int))
    }

    /// Losing the focus deselects the current field and clears every cursor.
    open spec fn blur_spec(pre: InputDialog, post: InputDialog) -> bool {
        post@ == dialog_refocus(pre@, None::<int>)
    }

    fn on_focus(&mut self) {
        self.cur_input = Some(0);
        self.update_input_focus();
        proof {
            assert(self@ =~~= dialog_refocus(old(self)@, Some(0int)));
        }
    }

    fn on_blur(&mut self) {
        self.cur_input = None;
        self.update_input_focus();
        proof {
            assert(self@ =~~= dialog_refocus(old(self)@, None::<int>));
        }
    }
}

} // verus!
