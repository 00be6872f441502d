//! The one-shot request modes of the command line: add, delete, edit, or
//! search, applied to the store before the interactive loop starts.

use vstd::prelude::*;

use crate::bookmark::Bookmark;
use crate::store::{
    collection_index, has_collection, search, search_results, spec_add, spec_delete, store_wf,
    CollectionView, Memoire, SearchResult,
};

verus! {

/// Mathematical image of a [`SearchMode`].
#[verifier::ext_equal]
pub ghost struct SearchModeView {
    pub union: bool,
    pub searches: Seq<Seq<char>>,
    pub commands: Seq<Seq<char>>,
    pub annotations: Seq<Seq<char>>,
    pub tags: Seq<Seq<char>>,
}

/// The filters of a search request: general keywords and per-field
/// keywords, and whether their results are united or intersected. The
/// intersection flag is carried but, as in the behaviour this models, not
/// yet applied: every search unites its keywords.
#[derive(Debug)]
pub struct SearchMode {
    union: bool,
    searches: Vec<String>,
    commands: Vec<String>,
    annotations: Vec<String>,
    tags: Vec<String>,
}

impl View for SearchMode {
    type V = SearchModeView;

    closed spec fn view(&self) -> SearchModeView {
        SearchModeView {
            union: self.union,
            searches: self.searches.deep_view(),
            commands: self.commands.deep_view(),
            annotations: self.annotations.deep_view(),
            tags: self.tags.deep_view(),
        }
    }
}

impl SearchMode {
    /// A search with no filters, uniting its results.
    pub fn default() -> (r: SearchMode)
        ensures
            r@.union == true,
            r@.searches == Seq::<Seq<char>>::empty(),
            r@.commands == Seq::<Seq<char>>::empty(),
            r@.annotations == Seq::<Seq<char>>::empty(),
            r@.tags == Seq::<Seq<char>>::empty(),
    {
        let r = SearchMode {
            union: true,
            searches: Vec::new(),
            commands: Vec::new(),
            annotations: Vec::new(),
            tags: Vec::new(),
        };
        proof {
            assert(r@.searches =~~= Seq::<Seq<char>>::empty());
            assert(r@.commands =~~= Seq::<Seq<char>>::empty());
            assert(r@.annotations =~~= Seq::<Seq<char>>::empty());
            assert(r@.tags =~~= Seq::<Seq<char>>::empty());
        }
        r
    }

    pub fn set_tags(&mut self, tags: Vec<String>)
        ensures
            final(self)@ == (SearchModeView { tags: tags.deep_view(), ..old(self)@ }),
    {
        self.tags = tags;
    }

    pub fn get_tags(&self) -> (r: &Vec<String>)
        ensures
            r.deep_view() == self@.tags,
    {
        &self.tags
    }

    pub fn set_commands(&mut self, commands: Vec<String>)
        ensures
            final(self)@ == (SearchModeView { commands: commands.deep_view(), ..old(self)@ }),
    {
        self.commands = commands;
    }

    pub fn get_commands(&self) -> (r: &Vec<String>)
        ensures
            r.deep_view() == self@.commands,
    {
        &self.commands
    }

    pub fn set_annotations(&mut self, annotations: Vec<String>)
        ensures
            final(self)@ == (SearchModeView {
                annotations: annotations.deep_view(),
                ..old(self)@
            }),
    {
        self.annotations = annotations;
    }

    pub fn get_annotations(&self) -> (r: &Vec<String>)
        ensures
            r.deep_view() == self@.annotations,
    {
        &self.annotations
    }

    pub fn set_searches(&mut self, searches: Vec<String>)
        ensures
            final(self)@ == (SearchModeView { searches: searches.deep_view(), ..old(self)@ }),
    {
        self.searches = searches;
    }

    pub fn get_searches(&self) -> (r: &Vec<String>)
        ensures
            r.deep_view() == self@.searches,
    {
        &self.searches
    }

    pub fn set_union(&mut self, b: bool)
        ensures
            final(self)@ == (SearchModeView { union: b, ..old(self)@ }),
    {
        self.union = b;
    }

    pub fn get_union(&self) -> (r: bool)
        ensures
            r == self@.union,
    {
        self.union
    }

    /// Whether any filter was given at all.
    pub fn has_input(&self) -> (r: bool)
        ensures
            r == (self@.searches.len() + self@.annotations.len() + self@.commands.len()
                + self@.tags.len() > 0),
    {
        !(self.searches.is_empty() && self.annotations.is_empty() && self.commands.is_empty()
            && self.tags.is_empty())
    }
}

/// What a one-shot invocation asks for.
#[derive(Debug)]
pub enum Mode {
    /// Store a new bookmark.
    Add(Bookmark),
    /// Remove the record at an index of a named collection.
    Delete(usize, String),
    /// Replace the record at an index with a rebuilt bookmark.
    Edit(usize, Bookmark),
    /// Search with the given filters.
    Search(SearchMode),
}

/// The raw field values of an add request, before a bookmark is built.
#[derive(Debug)]
pub struct AddMode {
    pub command: String,
    pub annotation: String,
    pub tags: Vec<String>,
}

/// The field values of an edit request.
#[derive(Debug)]
pub struct EditMode {
    id: usize,
    command: String,
    annotation: String,
    tags: Vec<String>,
}

impl EditMode {
    pub fn new(id: usize, command: String, annotation: String, tags: Vec<String>) -> (r: EditMode)
        ensures
            r.get_id_spec() == id,
            r.get_command_spec() == command@,
            r.get_annotation_spec() == annotation@,
            r.get_tags_spec() == tags.deep_view(),
    {
        EditMode { id, command, annotation, tags }
    }

    pub closed spec fn get_id_spec(&self) -> usize {
        self.id
    }

    pub closed spec fn get_command_spec(&self) -> Seq<char> {
        self.command@
    }

    pub closed spec fn get_annotation_spec(&self) -> Seq<char> {
        self.annotation@
    }

    pub closed spec fn get_tags_spec(&self) -> Seq<Seq<char>> {
        self.tags.deep_view()
    }

    pub fn get_id(&self) -> (r: usize)
        ensures
            r == self.get_id_spec(),
    {
        self.id
    }

    pub fn get_command(&self) -> (r: &String)
        ensures
            r@ == self.get_command_spec(),
    {
        &self.command
    }

    pub fn get_annotation(&self) -> (r: &String)
        ensures
            r@ == self.get_annotation_spec(),
    {
        &self.annotation
    }

    pub fn get_tags(&self) -> (r: &Vec<String>)
        ensures
            r.deep_view() == self.get_tags_spec(),
    {
        &self.tags
    }
}

/// The store a one-shot request leaves behind. An out-of-range delete, or
/// one naming an unknown collection, leaves the store as it was.
pub open spec fn spec_run_mode_store(cs: Seq<CollectionView>, mode: Mode) -> Seq<CollectionView> {
    match mode {
        Mode::Add(b) => spec_add(cs, b@),
        Mode::Delete(index, collection) => if has_collection(cs, collection@) && index < cs[
            collection_index(cs, collection@)
        ].bookmarks.len() {
            spec_delete(cs, collection@, index as int)
        } else {
            cs
        },
        Mode::Edit(index, b) => {
            let cs1 = if has_collection(cs, b@.collection) && index < cs[
                collection_index(cs, b@.collection)
            ].bookmarks.len() {
                spec_delete(cs, b@.collection, index as int)
            } else {
                cs
            };
            spec_add(cs1, b@)
        },
        Mode::Search(_) => cs,
    }
}

/// The keywords whose search results a one-shot request reports: a
/// mutating request reports its collection, a search request unites every
/// filter it was given, in the order search, annotation, command, tag —
/// and with no filters at all the empty keyword list matches every record.
pub open spec fn spec_run_mode_keywords(mode: Mode) -> Seq<Seq<char>> {
    match mode {
        Mode::Add(b) => seq![b@.collection],
        Mode::Delete(_, collection) => seq![collection@],
        Mode::Edit(_, b) => seq![b@.collection],
        Mode::Search(sm) => sm@.searches + sm@.annotations + sm@.commands + sm@.tags,
    }
}

/// Applies a one-shot request to the store and reports the results of the
/// follow-up search that the interactive view is seeded with.
pub fn run_mode(store: &mut Memoire, mode: &Mode) -> (r: Vec<SearchResult>)
    requires
        store_wf(old(store)@),
    ensures
        store_wf(final(store)@),
        final(store)@ == spec_run_mode_store(old(store)@, *mode),
        r.deep_view() == search_results(final(store)@, spec_run_mode_keywords(*mode)),
{
    match mode {
        Mode::Add(b) => {
            crate::store::add(store, b, None);
            let mut keywords: Vec<String> = Vec::new();
            keywords.push(b.get_collection().clone());
            let r = search(store, &keywords);
            proof {
                assert(keywords.deep_view() =~~= seq![b@.collection]);
            }
            r
        },
        Mode::Delete(index, collection) => {
            let _outcome = crate::store::delete(store, collection.as_str(), *index);
            let mut keywords: Vec<String> = Vec::new();
            keywords.push(collection.clone());
            let r = search(store, &keywords);
            proof {
                assert(keywords.deep_view() =~~= seq![collection@]);
            }
            r
        },
        Mode::Edit(index, b) => {
            let _outcome = crate::store::delete(store, b.get_collection().as_str(), *index);
            crate::store::add(store, b, Some(*index));
            let mut keywords: Vec<String> = Vec::new();
            keywords.push(b.get_collection().clone());
            let r = search(store, &keywords);
            proof {
                assert(keywords.deep_view() =~~= seq![b@.collection]);
            }
            r
        },
        Mode::Search(sm) => {
            let mut keywords: Vec<String> = Vec::new();
            append_all(&mut keywords, sm.get_searches());
            append_all(&mut keywords, sm.get_annotations());
            append_all(&mut keywords, sm.get_commands());
            append_all(&mut keywords, sm.get_tags());
            let r = search(store, &keywords);
            proof {
                assert(keywords.deep_view() =~~= sm@.searches + sm@.annotations + sm@.commands
                    + sm@.tags);
            }
            r
        },
    }
}

/// Appends clones of every string of `src_items` to `dst`.
fn append_all(dst: &mut Vec<String>, src_items: &Vec<String>)
    ensures
        final(dst).deep_view() == old(dst).deep_view() + src_items.deep_view(),
{
    let mut i: usize = 0;
    while i < src_items.len()
        invariant
            i <= src_items.len(),
            src_items.deep_view().len() == src_items.len(),
            dst.deep_view() == old(dst).deep_view() + src_items.deep_view().take(i as int),
        decreases src_items.len() - i,
    {
        proof {
            assert(src_items.deep_view()[i as int] == src_items@[i as int]@);
        }
        let ghost dv_old = dst.deep_view();
        let s = src_items[i].clone();
        dst.push(s);
        proof {
            assert(dst.deep_view() =~~= dv_old.push(src_items.deep_view()[i as int]));
            assert(dst.deep_view() =~~= old(dst).deep_view() + src_items.deep_view().take(i + 1));
        }
        i = i + 1;
    }
    proof {
        assert(src_items.deep_view().take(src_items.deep_view().len() as int)
            =~~= src_items.deep_view());
        assert(final(dst).deep_view() =~~= old(dst).deep_view() + src_items.deep_view());
    }
}

/// Mathematical image of an [`ArgParser`].
#[verifier::ext_equal]
pub ghost struct ArgParserView {
    pub input: Option<Vec<String>>,
    pub mode: Option<Mode>,
}

/// Holds a parsed one-shot request until it is carried out.
#[derive(Debug)]
pub struct ArgParser {
    input: Option<Vec<String>>,
    mode: Option<Mode>,
}

impl View for ArgParser {
    type V = ArgParserView;

    closed spec fn view(&self) -> ArgParserView {
        ArgParserView { input: self.input, mode: self.mode }
    }
}

impl ArgParser {
    /// A parser holding no request.
    pub fn new() -> (r: ArgParser)
        ensures
            r@.input is None,
            r@.mode is None,
    {
        ArgParser { input: None, mode: None }
    }

    /// Forgets any held request.
    pub fn reset_state(&mut self)
        ensures
            final(self)@.input is None,
            final(self)@.mode is None,
    {
        self.input = None;
        self.mode = None;
    }

    /// Stores the request to carry out.
    pub fn set_mode(&mut self, mode: Mode)
        ensures
            final(self)@ == (ArgParserView { mode: Some(mode), ..old(self)@ }),
    {
        self.mode = Some(mode);
    }

    /// Carries out the held request: a deletion or an addition mutates the
    /// store and reports nothing, a search reports its results, an edit
    /// request or no request at all does nothing.
    pub fn get_results(&self, store: &mut Memoire) -> (r: Vec<SearchResult>)
        requires
            store_wf(old(store)@),
        ensures
            store_wf(final(store)@),
            match self@.mode {
                Some(Mode::Delete(index, collection)) => r.deep_view() == Seq::<
                    crate::store::SearchResultView,
                >::empty() && final(store)@ == if has_collection(old(store)@, collection@)
                    && index < old(store)@[collection_index(
                    old(store)@,
                    collection@,
                )].bookmarks.len() {
                    spec_delete(old(store)@, collection@, index as int)
                } else {
                    old(store)@
                },
                Some(Mode::Search(sm)) => final(store)@ == old(store)@ && r.deep_view()
                    == search_results(old(store)@, sm@.searches),
                Some(Mode::Add(b)) => r.deep_view() == Seq::<
                    crate::store::SearchResultView,
                >::empty() && final(store)@ == spec_add(old(store)@, b@),
                Some(Mode::Edit(_, _)) => final(store)@ == old(store)@ && r.deep_view() == Seq::<
                    crate::store::SearchResultView,
                >::empty(),
                None => final(store)@ == old(store)@ && r.deep_view() == Seq::<
                    crate::store::SearchResultView,
                >::empty(),
            },
    {
        match &self.mode {
            Some(Mode::Delete(index, collection)) => {
                let _outcome = crate::store::delete(store, collection.as_str(), *index);
                let r: Vec<SearchResult> = Vec::new();
                proof {
                    assert(r.deep_view() =~~= Seq::<crate::store::SearchResultView>::empty());
                }
                r
            },
            Some(Mode::Search(search_mode)) => search(store, search_mode.get_searches()),
            Some(Mode::Add(bookmark)) => {
                crate::store::add(store, bookmark, None);
                let r: Vec<SearchResult> = Vec::new();
                proof {
                    assert(r.deep_view() =~~= Seq::<crate::store::SearchResultView>::empty());
                }
                r
            },
            Some(Mode::Edit(_, _)) => {
                let r: Vec<SearchResult> = Vec::new();
                proof {
                    assert(r.deep_view() =~~= Seq::<crate::store::SearchResultView>::empty());
                }
                r
            },
            None => {
                let r: Vec<SearchResult> = Vec::new();
                proof {
                    assert(r.deep_view() =~~= Seq::<crate::store::SearchResultView>::empty());
                }
                r
            },
        }
    }
}

} // verus!
