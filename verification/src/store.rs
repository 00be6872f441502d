//! The in-memory record store: named collections of bookmarks, substring
//! search across every collection, appending and positional deletion.
//!
//! A search result pairs a bookmark with its current position inside its
//! collection. That position is not stable: any mutation of the store can
//! shift it, so callers re-run a search after every mutation.

use vstd::prelude::*;

use crate::bookmark::{bookmark_matches_any, Bookmark, BookmarkView};

verus! {

/// Mathematical image of a [`SearchResult`].
#[verifier::ext_equal]
pub ghost struct SearchResultView {
    pub index: int,
    pub bookmark: BookmarkView,
}

/// A bookmark found by a search, together with its position in its
/// collection's record list at the moment of the query.
#[derive(Debug)]
pub struct SearchResult {
    index: usize,
    bookmark: Bookmark,
}

impl View for SearchResult {
    type V = SearchResultView;

    closed spec fn view(&self) -> SearchResultView {
        SearchResultView { index: self.index as int, bookmark: self.bookmark@ }
    }
}

impl DeepView for SearchResult {
    type V = SearchResultView;

    open spec fn deep_view(&self) -> SearchResultView {
        self.view()
    }
}

impl SearchResult {
    pub fn new(index: usize, bookmark: Bookmark) -> (r: SearchResult)
        ensures
            r@.index == index,
            r@.bookmark == bookmark@,
    {
        SearchResult { index, bookmark }
    }

    pub fn get_bookmark(&self) -> (r: &Bookmark)
        ensures
            r@ == self@.bookmark,
    {
        &self.bookmark
    }

    pub fn get_index(&self) -> (r: usize)
        ensures
            r == self@.index,
    {
        self.index
    }
}

impl Clone for SearchResult {
    fn clone(&self) -> (r: Self)
        ensures
            r@ == self@,
    {
        SearchResult { index: self.index, bookmark: self.bookmark.clone() }
    }
}

impl PartialEq for SearchResult {
    fn eq(&self, other: &SearchResult) -> (r: bool) {
        let r = self.index == other.index && self.bookmark.eq(&other.bookmark);
        proof {
            if r {
                assert(self@ =~= other@);
            }
        }
        r
    }
}

impl vstd::std_specs::cmp::PartialEqSpecImpl for SearchResult {
    open spec fn obeys_eq_spec() -> bool {
        true
    }

    open spec fn eq_spec(&self, other: &SearchResult) -> bool {
        self@ == other@
    }
}

impl Eq for SearchResult {

}

/// Mathematical image of a [`Collection`].
#[verifier::ext_equal]
pub ghost struct CollectionView {
    pub name: Seq<char>,
    pub bookmarks: Seq<BookmarkView>,
}

/// A named, independently stored group of bookmarks.
#[derive(Debug)]
pub struct Collection {
    name: String,
    bookmarks: Vec<Bookmark>,
}

impl View for Collection {
    type V = CollectionView;

    closed spec fn view(&self) -> CollectionView {
        CollectionView { name: self.name@, bookmarks: self.bookmarks.deep_view() }
    }
}

impl DeepView for Collection {
    type V = CollectionView;

    open spec fn deep_view(&self) -> CollectionView {
        self.view()
    }
}

impl Collection {
    /// An empty collection with the given name.
    pub fn new(name: &str) -> (r: Collection)
        ensures
            r@.name == name@,
            r@.bookmarks == Seq::<BookmarkView>::empty(),
    {
        let r = Collection { name: name.to_owned(), bookmarks: Vec::new() };
        proof {
            assert(r@.bookmarks =~= Seq::<BookmarkView>::empty());
        }
        r
    }

    pub fn get_name(&self) -> (r: &String)
        ensures
            r@ == self@.name,
    {
        &self.name
    }

    pub fn get_bookmarks(&self) -> (r: &Vec<Bookmark>)
        ensures
            r.deep_view() == self@.bookmarks,
    {
        &self.bookmarks
    }
}

/// The whole record store: every collection, in insertion order.
#[derive(Debug)]
pub struct Memoire {
    collections: Vec<Collection>,
}

impl View for Memoire {
    type V = Seq<CollectionView>;

    closed spec fn view(&self) -> Seq<CollectionView> {
        self.collections.deep_view()
    }
}

/// The store is well formed when collection names are unique and every
/// record's collection field names the collection that holds it.
pub open spec fn store_wf(cs: Seq<CollectionView>) -> bool {
    &&& forall|i: int, j: int|
        0 <= i < j < cs.len() ==> (#[trigger] cs[i].name) != (#[trigger] cs[j].name)
    &&& forall|i: int, k: int|
        0 <= i < cs.len() && 0 <= k < cs[i].bookmarks.len() ==> (#[trigger] cs[i].bookmarks[k]).collection
            == cs[i].name
}

/// Some collection bears the given name.
pub open spec fn has_collection(cs: Seq<CollectionView>, name: Seq<char>) -> bool {
    exists|i: int| 0 <= i < cs.len() && (#[trigger] cs[i].name) == name
}

/// The position of the collection bearing the given name (meaningful when
/// `has_collection` holds; unique under `store_wf`).
pub open spec fn collection_index(cs: Seq<CollectionView>, name: Seq<char>) -> int {
    choose|i: int| 0 <= i < cs.len() && (#[trigger] cs[i].name) == name
}

/// The predicate a keyword-list search applies to each record: does the
/// record match any of the keywords? An empty keyword list, like an empty
/// keyword, matches every record.
pub open spec fn keywords_pred(keywords: Seq<Seq<char>>) -> spec_fn(BookmarkView) -> bool {
    |b: BookmarkView| bookmark_matches_any(b, keywords)
}

/// The indexed entries of one collection's record list whose bookmark
/// satisfies `pred`, in record order.
pub open spec fn matching_results(
    bs: Seq<BookmarkView>,
    pred: spec_fn(BookmarkView) -> bool,
) -> Seq<SearchResultView>
    decreases bs.len(),
{
    if bs.len() == 0 {
        Seq::<SearchResultView>::empty()
    } else {
        let prefix = matching_results(bs.drop_last(), pred);
        if pred(bs.last()) {
            prefix.push(SearchResultView { index: bs.len() - 1, bookmark: bs.last() })
        } else {
            prefix
        }
    }
}

/// The matching entries of every collection, collection by collection.
pub open spec fn store_matching_results(
    cs: Seq<CollectionView>,
    pred: spec_fn(BookmarkView) -> bool,
) -> Seq<SearchResultView>
    decreases cs.len(),
{
    if cs.len() == 0 {
        Seq::<SearchResultView>::empty()
    } else {
        store_matching_results(cs.drop_last(), pred) + matching_results(
            cs.last().bookmarks,
            pred,
        )
    }
}

/// What a keyword search over the whole store returns.
pub open spec fn search_results(cs: Seq<CollectionView>, keywords: Seq<Seq<char>>) -> Seq<
    SearchResultView,
> {
    store_matching_results(cs, keywords_pred(keywords))
}

/// The store after a bookmark is appended to the collection its own
/// `collection` field names, that collection being created if absent.
pub open spec fn spec_add(cs: Seq<CollectionView>, b: BookmarkView) -> Seq<CollectionView> {
    if has_collection(cs, b.collection) {
        let i = collection_index(cs, b.collection);
        cs.update(i, CollectionView { name: cs[i].name, bookmarks: cs[i].bookmarks.push(b) })
    } else {
        cs.push(CollectionView { name: b.collection, bookmarks: seq![b] })
    }
}

/// The store after the record at `index` of the collection named `name` is
/// removed (meaningful when the collection exists and `index` is in range).
pub open spec fn spec_delete(cs: Seq<CollectionView>, name: Seq<char>, index: int) -> Seq<
    CollectionView,
> {
    let i = collection_index(cs, name);
    cs.update(
        i,
        CollectionView { name: cs[i].name, bookmarks: cs[i].bookmarks.remove(index) },
    )
}

/// Why a positional deletion was refused.
#[derive(Clone, Copy, Debug, PartialEq, Eq, Structural)]
pub enum StoreError {
    /// No collection bears the requested name.
    CollectionNotFound,
    /// The requested index is outside the collection's record list.
    IndexOutOfRange,
}

impl Memoire {
    /// An empty store.
    pub fn new() -> (r: Memoire)
        ensures
            r@ == Seq::<CollectionView>::empty(),
            store_wf(r@),
    {
        let r = Memoire { collections: Vec::new() };
        proof {
            assert(r@ =~= Seq::<CollectionView>::empty());
        }
        r
    }

    /// The position of the collection named `name`, if one exists.
    fn find_index(&self, name: &str) -> (r: Option<usize>)
        ensures
            match r {
                Some(i) => 0 <= i < self@.len() && self@[i as int].name == name@,
                None => !has_collection(self@, name@),
            },
    {
        let mut i: usize = 0;
        while i < self.collections.len()
            invariant
                i <= self.collections.len(),
                self@.len() == self.collections.len(),
                forall|k: int| 0 <= k < i ==> (#[trigger] self@[k].name) != name@,
            decreases self.collections.len() - i,
        {
            assert(self@[i as int] == self.collections@[i as int]@);
            if crate::text::str_eq(self.collections[i].name.as_str(), name) {
                return Some(i);
            }
            i = i + 1;
        }
        None
    }

    /// The number of collections in the store.
    pub fn collection_count(&self) -> (r: usize)
        ensures
            r == self@.len(),
    {
        self.collections.len()
    }

    /// The collection at position `i`.
    pub fn collection_at(&self, i: usize) -> (r: &Collection)
        requires
            i < self@.len(),
        ensures
            r@ == self@[i as int],
    {
        assert(self@[i as int] == self.collections@[i as int]@);
        &self.collections[i]
    }

    /// The collection named `collection`, if the store holds one.
    pub fn get_collection(&self, collection: &str) -> (r: Option<&Collection>)
        ensures
            match r {
                Some(c) => has_collection(self@, collection@) && c@.name == collection@
                    && (store_wf(self@) ==> c@ == self@[collection_index(self@, collection@)]),
                None => !has_collection(self@, collection@),
            },
    {
        match self.find_index(collection) {
            Some(i) => {
                assert(self@[i as int] == self.collections@[i as int]@);
                proof {
                    if store_wf(self@) {
                        let j = collection_index(self@, collection@);
                        assert(0 <= j < self@.len() && self@[j].name == collection@);
                        assert(j == i as int) by {
                            if j != i as int {
                                assert(self@[i as int].name != self@[j].name);
                            }
                        }
                    }
                }
                Some(&self.collections[i])
            },
            None => None,
        }
    }

    /// Ensures a collection named `collection` exists, creating an empty one
    /// if absent, and returns its position.
    pub fn get_or_create(&mut self, collection: &str) -> (i: usize)
        ensures
            has_collection(final(self)@, collection@),
            i < final(self)@.len() && final(self)@[i as int].name == collection@,
            has_collection(old(self)@, collection@) ==> final(self)@ == old(self)@,
            !has_collection(old(self)@, collection@) ==> final(self)@ == old(self)@.push(
                CollectionView { name: collection@, bookmarks: Seq::<BookmarkView>::empty() },
            ),
            store_wf(old(self)@) ==> store_wf(final(self)@),
    {
        match self.find_index(collection) {
            Some(i) => i,
            None => {
                let i = self.collections.len();
                let fresh = Collection::new(collection);
                self.collections.push(fresh);
                proof {
                    let pushed = CollectionView {
                        name: collection@,
                        bookmarks: Seq::<BookmarkView>::empty(),
                    };
                    assert(self@ =~~= old(self)@.push(pushed));
                    assert(self@[i as int].name == collection@);
                    if store_wf(old(self)@) {
                        assert forall|p: int, q: int| 0 <= p < q < self@.len() implies (
                        #[trigger] self@[p].name) != (#[trigger] self@[q].name) by {
                            if q == i as int {
                                assert(self@[p].name == old(self)@[p].name);
                            }
                        }
                        assert(store_wf(self@));
                    }
                }
                i
            },
        }
    }
}

/// The predicate the flag-driven search applies to each record: does the
/// enabled field contain `s`?
pub open spec fn flags_pred(
    in_command: bool,
    in_annotation: bool,
    in_tags: bool,
    s: Seq<char>,
) -> spec_fn(BookmarkView) -> bool {
    |b: BookmarkView|
        {
            ||| (in_command && crate::text::is_substring(b.command, s))
            ||| (in_annotation && crate::text::is_substring(b.annotation, s))
            ||| (in_tags && exists|i: int|
                0 <= i < b.tags.len() && crate::text::is_substring(#[trigger] b.tags[i], s))
        }
}

/// Returns every record, across every collection, that matches any of the
/// keywords, in collection order and record order, each paired with its
/// position inside its own collection's record list. An empty keyword
/// list, like an empty keyword, matches every record.
pub fn search(store: &Memoire, keywords: &Vec<String>) -> (r: Vec<SearchResult>)
    ensures
        r.deep_view() == search_results(store@, keywords.deep_view()),
{
    let ghost cs = store@;
    let ghost pred = keywords_pred(keywords.deep_view());
    let mut r: Vec<SearchResult> = Vec::new();
    proof {
        assert(cs.take(0) =~= Seq::<CollectionView>::empty());
        assert(r.deep_view() =~= store_matching_results(cs.take(0), pred));
    }
    let mut i: usize = 0;
    while i < store.collections.len()
        invariant
            cs == store@,
            pred == keywords_pred(keywords.deep_view()),
            cs.len() == store.collections.len(),
            i <= cs.len(),
            r.deep_view() == store_matching_results(cs.take(i as int), pred),
        decreases cs.len() - i,
    {
        assert(store.collections@[i as int]@ == cs[i as int]);
        let coll = &store.collections[i];
        let ghost bs = cs[i as int].bookmarks;
        proof {
            assert(bs.take(0) =~= Seq::<BookmarkView>::empty());
        }
        let mut j: usize = 0;
        while j < coll.bookmarks.len()
            invariant
                cs == store@,
                pred == keywords_pred(keywords.deep_view()),
                i < cs.len(),
                coll@ == cs[i as int],
                bs == cs[i as int].bookmarks,
                bs.len() == coll.bookmarks.len(),
                j <= bs.len(),
                r.deep_view() == store_matching_results(cs.take(i as int), pred)
                    + matching_results(bs.take(j as int), pred),
            decreases bs.len() - j,
        {
            assert(coll.bookmarks@[j as int]@ == bs[j as int]);
            let record = &coll.bookmarks[j];
            let ghost r_old = r.deep_view();
            let ghost entry = SearchResultView { index: j as int, bookmark: bs[j as int] };
            let m = record.matches_any_keyword(keywords);
            assert(m == pred(bs[j as int]));
            if m {
                r.push(SearchResult::new(j, record.clone()));
                proof {
                    assert(r.deep_view() =~~= r_old + seq![entry]);
                }
            }
            proof {
                assert(bs.take(j + 1).drop_last() =~= bs.take(j as int));
                assert(bs.take(j + 1).last() == bs[j as int]);
                if m {
                    assert(matching_results(bs.take(j + 1), pred) == matching_results(
                        bs.take(j as int),
                        pred,
                    ).push(entry));
                    assert(r.deep_view() =~~= store_matching_results(cs.take(i as int), pred)
                        + matching_results(bs.take(j + 1), pred));
                } else {
                    assert(matching_results(bs.take(j + 1), pred) == matching_results(
                        bs.take(j as int),
                        pred,
                    ));
                }
            }
            j = j + 1;
        }
        proof {
            assert(bs.take(bs.len() as int) =~= bs);
            assert(cs.take(i + 1).drop_last() =~= cs.take(i as int));
            assert(cs.take(i + 1).last() == cs[i as int]);
        }
        i = i + 1;
    }
    proof {
        assert(cs.take(cs.len() as int) =~= cs);
    }
    r
}

impl Memoire {
    /// Every record of the store whose enabled fields contain `search_str`,
    /// in collection order and record order.
    pub fn search(
        &self,
        in_command: bool,
        in_annotation: bool,
        in_tags: bool,
        search_str: &str,
    ) -> (r: Vec<SearchResult>)
        ensures
            r.deep_view() == store_matching_results(
                self@,
                flags_pred(in_command, in_annotation, in_tags, search_str@),
            ),
    {
        let ghost cs = self@;
        let ghost pred = flags_pred(in_command, in_annotation, in_tags, search_str@);
        let mut r: Vec<SearchResult> = Vec::new();
        proof {
            assert(cs.take(0) =~= Seq::<CollectionView>::empty());
            assert(r.deep_view() =~= store_matching_results(cs.take(0), pred));
        }
        let mut i: usize = 0;
        while i < self.collections.len()
            invariant
                cs == self@,
                pred == flags_pred(in_command, in_annotation, in_tags, search_str@),
                cs.len() == self.collections.len(),
                i <= cs.len(),
                r.deep_view() == store_matching_results(cs.take(i as int), pred),
            decreases cs.len() - i,
        {
            assert(self.collections@[i as int]@ == cs[i as int]);
            let coll = &self.collections[i];
            let ghost bs = cs[i as int].bookmarks;
            proof {
                assert(bs.take(0) =~= Seq::<BookmarkView>::empty());
            }
            let mut j: usize = 0;
            while j < coll.bookmarks.len()
                invariant
                    cs == self@,
                    pred == flags_pred(in_command, in_annotation, in_tags, search_str@),
                    i < cs.len(),
                    coll@ == cs[i as int],
                    bs == cs[i as int].bookmarks,
                    bs.len() == coll.bookmarks.len(),
                    j <= bs.len(),
                    r.deep_view() == store_matching_results(cs.take(i as int), pred)
                        + matching_results(bs.take(j as int), pred),
                decreases bs.len() - j,
            {
                assert(coll.bookmarks@[j as int]@ == bs[j as int]);
                let record = &coll.bookmarks[j];
                let ghost r_old = r.deep_view();
                let ghost entry = SearchResultView { index: j as int, bookmark: bs[j as int] };
                let m = (in_command && record.command_contains(search_str)) || (in_annotation
                    && record.annotation_contains(search_str)) || (in_tags && record.tags_contains(
                    search_str,
                ));
                assert(m == pred(bs[j as int]));
                if m {
                    r.push(SearchResult::new(j, record.clone()));
                    proof {
                        assert(r.deep_view() =~~= r_old + seq![entry]);
                    }
                }
                proof {
                    assert(bs.take(j + 1).drop_last() =~= bs.take(j as int));
                    assert(bs.take(j + 1).last() == bs[j as int]);
                    if m {
                        assert(matching_results(bs.take(j + 1), pred) == matching_results(
                            bs.take(j as int),
                            pred,
                        ).push(entry));
                        assert(r.deep_view() =~~= store_matching_results(cs.take(i as int), pred)
                            + matching_results(bs.take(j + 1), pred));
                    } else {
                        assert(matching_results(bs.take(j + 1), pred) == matching_results(
                            bs.take(j as int),
                            pred,
                        ));
                    }
                }
                j = j + 1;
            }
            proof {
                assert(bs.take(bs.len() as int) =~= bs);
                assert(cs.take(i + 1).drop_last() =~= cs.take(i as int));
                assert(cs.take(i + 1).last() == cs[i as int]);
            }
            i = i + 1;
        }
        proof {
            assert(cs.take(cs.len() as int) =~= cs);
        }
        r
    }

    /// Every record of the store: a search that every record matches.
    pub fn all(&self) -> (r: Vec<SearchResult>)
        ensures
            r.deep_view() == store_matching_results(
                self@,
                flags_pred(true, true, true, Seq::<char>::empty()),
            ),
    {
        proof {
            reveal_strlit("");
            assert(""@ =~= Seq::<char>::empty());
        }
        self.search(true, true, true, "")
    }
}

/// Appends `bookmark` to the collection its own `collection` field names,
/// creating that collection if the store lacks it. The `_insert_at` hint is
/// accepted but not honoured for ordering: the record is always appended.
pub fn add(store: &mut Memoire, bookmark: &Bookmark, _insert_at: Option<usize>)
    requires
        store_wf(old(store)@),
    ensures
        final(store)@ == spec_add(old(store)@, bookmark@),
        store_wf(final(store)@),
{
    let ghost cs = old(store)@;
    let ghost b = bookmark@;
    match store.find_index(bookmark.get_collection().as_str()) {
        Some(i) => {
            proof {
                assert(has_collection(cs, b.collection));
                let j = collection_index(cs, b.collection);
                assert(0 <= j < cs.len() && cs[j].name == b.collection);
                assert(j == i as int) by {
                    if j != i as int {
                        assert(cs[i as int].name != cs[j].name);
                    }
                }
            }
            let mut coll = store.collections.remove(i);
            coll.bookmarks.push(bookmark.clone());
            store.collections.insert(i, coll);
            proof {
                let updated = CollectionView {
                    name: cs[i as int].name,
                    bookmarks: cs[i as int].bookmarks.push(b),
                };
                assert(store@ =~~= cs.update(i as int, updated));
                assert(store@ == spec_add(cs, b));
                assert forall|p: int, k: int|
                    0 <= p < store@.len() && 0 <= k < store@[p].bookmarks.len() implies (
                #[trigger] store@[p].bookmarks[k]).collection == store@[p].name by {
                    if p == i as int && k == store@[p].bookmarks.len() - 1 {
                    } else {
                        assert(store@[p].bookmarks[k] == cs[p].bookmarks[k]);
                    }
                }
                assert(store_wf(store@));
            }
        },
        None => {
            let mut fresh = Collection::new(bookmark.get_collection().as_str());
            fresh.bookmarks.push(bookmark.clone());
            store.collections.push(fresh);
            proof {
                let pushed = CollectionView { name: b.collection, bookmarks: seq![b] };
                assert(fresh@.bookmarks =~~= seq![b]);
                assert(store@ =~~= cs.push(pushed));
                assert(store@ == spec_add(cs, b));
                assert forall|p: int, q: int| 0 <= p < q < store@.len() implies (
                #[trigger] store@[p].name) != (#[trigger] store@[q].name) by {
                    if q == cs.len() {
                        assert(store@[p].name == cs[p].name);
                    }
                }
                assert(store_wf(store@));
            }
        },
    }
}

/// Removes the record at `index` of the collection named `collection`, or
/// says why it could not: the collection is missing or the index is out of
/// range. On failure the store is unchanged.
pub fn delete(store: &mut Memoire, collection: &str, index: usize) -> (r: Result<
    (),
    StoreError,
>)
    requires
        store_wf(old(store)@),
    ensures
        !has_collection(old(store)@, collection@) ==> r == Err::<(), StoreError>(
            StoreError::CollectionNotFound,
        ) && final(store)@ == old(store)@,
        has_collection(old(store)@, collection@) && index >= old(store)@[collection_index(
            old(store)@,
            collection@,
        )].bookmarks.len() ==> r == Err::<(), StoreError>(StoreError::IndexOutOfRange) && final(
            store
        )@ == old(store)@,
        has_collection(old(store)@, collection@) && index < old(store)@[collection_index(
            old(store)@,
            collection@,
        )].bookmarks.len() ==> r == Ok::<(), StoreError>(()) && final(store)@ == spec_delete(
            old(store)@,
            collection@,
            index as int,
        ),
        store_wf(final(store)@),
{
    let ghost cs = old(store)@;
    match store.find_index(collection) {
        None => Err(StoreError::CollectionNotFound),
        Some(i) => {
            proof {
                assert(has_collection(cs, collection@));
                let j = collection_index(cs, collection@);
                assert(0 <= j < cs.len() && cs[j].name == collection@);
                assert(j == i as int) by {
                    if j != i as int {
                        assert(cs[i as int].name != cs[j].name);
                    }
                }
            }
            if index >= store.collections[i].bookmarks.len() {
                assert(store.collections@[i as int]@ == cs[i as int]);
                return Err(StoreError::IndexOutOfRange);
            }
            assert(store.collections@[i as int]@ == cs[i as int]);
            let mut coll = store.collections.remove(i);
            coll.bookmarks.remove(index);
            store.collections.insert(i, coll);
            proof {
                let updated = CollectionView {
                    name: cs[i as int].name,
                    bookmarks: cs[i as int].bookmarks.remove(index as int),
                };
                assert(store@ =~~= cs.update(i as int, updated));
                assert(store@ == spec_delete(cs, collection@, index as int));
                assert forall|p: int, k: int|
                    0 <= p < store@.len() && 0 <= k < store@[p].bookmarks.len() implies (
                #[trigger] store@[p].bookmarks[k]).collection == store@[p].name by {
                    if p == i as int {
                        if k < index {
                            assert(store@[p].bookmarks[k] == cs[p].bookmarks[k]);
                        } else {
                            assert(store@[p].bookmarks[k] == cs[p].bookmarks[k + 1]);
                        }
                    } else {
                        assert(store@[p].bookmarks[k] == cs[p].bookmarks[k]);
                    }
                }
                assert(store_wf(store@));
            }
            Ok(())
        },
    }
}

} // verus!
