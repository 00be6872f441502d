//! The table of search results, with an optional selected row. The
//! selected row, when present, is always within the current result list.

use vstd::prelude::*;

use crate::store::{SearchResult, SearchResultView};
use crate::widget::widget_trait::WidgetTrait;

verus! {

/// Mathematical image of a [`ResultTable`].
#[verifier::ext_equal]
pub ghost struct ResultTableView {
    pub items: Seq<SearchResultView>,
    pub selected: Option<int>,
}

/// The search results on display and the selected row, if any.
#[derive(Debug)]
pub struct ResultTable {
    items: Vec<SearchResult>,
    selected: Option<usize>,
}

impl View for ResultTable {
    type V = ResultTableView;

    closed spec fn view(&self) -> ResultTableView {
        ResultTableView {
            items: self.items.deep_view(),
            selected: match self.selected {
                Some(i) => Some(i as int),
                None => None,
            },
        }
    }
}

/// The selected row, when present, is in range.
pub open spec fn result_table_wf(v: ResultTableView) -> bool {
    match v.selected {
        Some(i) => 0 <= i < v.items.len(),
        None => true,
    }
}

impl ResultTable {
    /// A table showing `results`, nothing selected.
    pub fn new(results: Vec<SearchResult>) -> (r: ResultTable)
        ensures
            r@ == (ResultTableView { items: results.deep_view(), selected: None::<int> }),
            result_table_wf(r@),
    {
        let r = ResultTable { items: results, selected: None };
        proof {
            assert(r@ =~~= ResultTableView { items: results.deep_view(), selected: None::<int> });
        }
        r
    }

    /// An empty table.
    pub fn default() -> (r: ResultTable)
        ensures
            r@ == (ResultTableView {
                items: Seq::<SearchResultView>::empty(),
                selected: None::<int>,
            }),
            result_table_wf(r@),
    {
        let r = ResultTable::new(Vec::new());
        proof {
            assert(r@.items =~~= Seq::<SearchResultView>::empty());
            assert(r@ =~~= ResultTableView {
                items: Seq::<SearchResultView>::empty(),
                selected: None::<int>,
            });
        }
        r
    }

    /// Replaces the rows. A selection that the new list still covers is
    /// kept; one that would point past its end is cleared.
    pub fn update_results(&mut self, results: Vec<SearchResult>)
        ensures
            final(self)@.items == results.deep_view(),
            final(self)@.selected == match old(self)@.selected {
                Some(i) => if i < results.deep_view().len() {
                    Some(i)
                } else {
                    None::<int>
                },
                None => None::<int>,
            },
            result_table_wf(final(self)@),
    {
        let n = results.len();
        self.items = results;
        if let Some(i) = self.selected {
            if i >= n {
                self.selected = None;
            }
        }
    }

    /// Clears the selection, keeping the rows.
    pub fn reset_state(&mut self)
        ensures
            final(self)@ == (ResultTableView { selected: None::<int>, ..old(self)@ }),
            result_table_wf(final(self)@),
    {
        self.selected = None;
    }

    /// The selected row, if any.
    pub fn get_state(&self) -> (r: Option<usize>)
        ensures
            match r {
                Some(i) => self@.selected == Some(i as int),
                None => self@.selected is None,
            },
    {
        self.selected
    }

    /// The number of rows on display.
    pub fn len(&self) -> (r: usize)
        ensures
            r == self@.items.len(),
    {
        self.items.len()
    }

    /// The row at position `ind`.
    pub fn get_item(&self, ind: usize) -> (r: &SearchResult)
        requires
            ind < self@.items.len(),
        ensures
            r@ == self@.items[ind as int],
    {
        assert(self@.items[ind as int] == self.items@[ind as int]@);
        &self.items[ind]
    }

    /// Moves the selection one row up; at the first row, or with no
    /// selection, nothing changes.
    pub fn key_up(&mut self)
        ensures
            final(self)@ == match old(self)@.selected {
                Some(i) => if i > 0 {
                    ResultTableView { selected: Some(i - 1), ..old(self)@ }
                } else {
                    old(self)@
                },
                None => old(self)@,
            },
    {
        if let Some(i) = self.selected {
            if i > 0 {
                self.selected = Some(i - 1);
            }
        }
    }

    /// Moves the selection one row down, stopping at the last row; with no
    /// selection it selects the first row of a non-empty table.
    pub fn key_down(&mut self)
        requires
            result_table_wf(old(self)@),
        ensures
            final(self)@ == match old(self)@.selected {
                Some(i) => if i + 1 < old(self)@.items.len() {
                    ResultTableView { selected: Some(i + 1), ..old(self)@ }
                } else {
                    old(self)@
                },
                None => if old(self)@.items.len() > 0 {
                    ResultTableView { selected: Some(0int), ..old(self)@ }
                } else {
                    old(self)@
                },
            },
            result_table_wf(final(self)@),
    {
        let n = self.items.len();
        match self.selected {
            Some(i) => {
                assert(i < n);
                if i + 1 < n {
                    self.selected = Some(i + 1);
                }
            },
            None => {
                if n > 0 {
                    self.selected = Some(0);
                }
            },
        }
    }
}

impl WidgetTrait for ResultTable {
    open spec fn focus_req(pre: ResultTable) -> bool {
        true
    }

    /// The table keeps its selection when it gains the focus.
    open spec fn focus_spec(pre: ResultTable, post: ResultTable) -> bool {
        post@ == pre@
    }

    /// The table keeps its selection when it loses the focus.
    open spec fn blur_spec(pre: ResultTable, post: ResultTable) -> bool {
        post@ == pre@
    }

    fn on_focus(&mut self) {
    }

    fn on_blur(&mut self) {
    }
}

} // verus!
