//! The lifecycle interface every widget implements: what gaining and losing
//! the focus does to a widget's local state.

use vstd::prelude::*;

verus! {

/// A widget that initialises itself when it gains the focus and resets
/// itself when it loses it. Each implementation pins down both effects with
/// its own specification functions.
pub trait WidgetTrait: Sized {
    /// When the widget may gain the focus.
    spec fn focus_req(pre: Self) -> bool;

    /// What gaining the focus does to the widget's state.
    spec fn focus_spec(pre: Self, post: Self) -> bool;

    /// What losing the focus does to the widget's state.
    spec fn blur_spec(pre: Self, post: Self) -> bool;

    /// Called when the widget gains the focus.
    fn on_focus(&mut self)
        requires
            Self::focus_req(*old(self)),
        ensures
            Self::focus_spec(*old(self), *final(self)),
    ;

    /// Called when the widget loses the focus.
    fn on_blur(&mut self)
        ensures
            Self::blur_spec(*old(self), *final(self)),
    ;
}

} // verus!
