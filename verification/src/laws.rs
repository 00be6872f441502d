//! The store's stated laws: how search results relate to the records a
//! store holds, and what adding or deleting a record does to them.

use vstd::prelude::*;

use crate::bookmark::{bookmark_matches, bookmark_matches_any, BookmarkView};
use crate::store::{
    collection_index, has_collection, keywords_pred, matching_results, search_results, spec_add,
    spec_delete, store_matching_results, store_wf, CollectionView, SearchResultView,
};
use crate::text::{lemma_substring_empty, lemma_substring_refl};

verus! {

/// How many records of one collection's record list equal `b`.
pub open spec fn count_eq_records(bs: Seq<BookmarkView>, b: BookmarkView) -> nat
    decreases bs.len(),
{
    if bs.len() == 0 {
        0
    } else {
        count_eq_records(bs.drop_last(), b) + if bs.last() == b {
            1nat
        } else {
            0nat
        }
    }
}

/// How many records of the whole store equal `b`.
pub open spec fn count_eq_store(cs: Seq<CollectionView>, b: BookmarkView) -> nat
    decreases cs.len(),
{
    if cs.len() == 0 {
        0
    } else {
        count_eq_store(cs.drop_last(), b) + count_eq_records(cs.last().bookmarks, b)
    }
}

/// How many entries of a result list carry a bookmark equal to `b`.
pub open spec fn count_eq_results(rs: Seq<SearchResultView>, b: BookmarkView) -> nat
    decreases rs.len(),
{
    if rs.len() == 0 {
        0
    } else {
        count_eq_results(rs.drop_last(), b) + if rs.last().bookmark == b {
            1nat
        } else {
            0nat
        }
    }
}

/// How many records the whole store holds.
pub open spec fn total_records(cs: Seq<CollectionView>) -> nat
    decreases cs.len(),
{
    if cs.len() == 0 {
        0
    } else {
        total_records(cs.drop_last()) + cs.last().bookmarks.len()
    }
}

/// A search result entry is accounted for by the store: the collection its
/// bookmark names holds that very bookmark at the entry's index.
pub open spec fn result_ok(cs: Seq<CollectionView>, rv: SearchResultView) -> bool {
    exists|i: int|
        0 <= i < cs.len() && (#[trigger] cs[i].name) == rv.bookmark.collection && 0 <= rv.index
            < cs[i].bookmarks.len() && cs[i].bookmarks[rv.index] == rv.bookmark
}

proof fn lemma_count_results_concat(a: Seq<SearchResultView>, c: Seq<SearchResultView>, b: BookmarkView)
    ensures
        count_eq_results(a + c, b) == count_eq_results(a, b) + count_eq_results(c, b),
    decreases c.len(),
{
    if c.len() == 0 {
        assert(a + c =~= a);
    } else {
        lemma_count_results_concat(a, c.drop_last(), b);
        assert((a + c).drop_last() =~= a + c.drop_last());
        assert((a + c).last() == c.last());
    }
}

/// Each record equal to `b` yields exactly one matching entry when `b`
/// satisfies the predicate, and none otherwise.
pub proof fn lemma_matching_count(
    bs: Seq<BookmarkView>,
    pred: spec_fn(BookmarkView) -> bool,
    b: BookmarkView,
)
    ensures
        count_eq_results(matching_results(bs, pred), b) == if pred(b) {
            count_eq_records(bs, b)
        } else {
            0nat
        },
    decreases bs.len(),
{
    if bs.len() > 0 {
        lemma_matching_count(bs.drop_last(), pred, b);
        let prefix = matching_results(bs.drop_last(), pred);
        if pred(bs.last()) {
            let entry = SearchResultView { index: bs.len() - 1, bookmark: bs.last() };
            assert(prefix.push(entry).drop_last() =~= prefix);
            assert(prefix.push(entry).last() == entry);
        }
    }
}

/// The store-wide form of [`lemma_matching_count`].
pub proof fn lemma_store_matching_count(
    cs: Seq<CollectionView>,
    pred: spec_fn(BookmarkView) -> bool,
    b: BookmarkView,
)
    ensures
        count_eq_results(store_matching_results(cs, pred), b) == if pred(b) {
            count_eq_store(cs, b)
        } else {
            0nat
        },
    decreases cs.len(),
{
    if cs.len() > 0 {
        lemma_store_matching_count(cs.drop_last(), pred, b);
        lemma_matching_count(cs.last().bookmarks, pred, b);
        lemma_count_results_concat(
            store_matching_results(cs.drop_last(), pred),
            matching_results(cs.last().bookmarks, pred),
            b,
        );
    }
}

/// A result list with no entry counted equal to `b` has no entry equal to `b`.
pub proof fn lemma_count_zero_absent(rs: Seq<SearchResultView>, b: BookmarkView)
    requires
        count_eq_results(rs, b) == 0,
    ensures
        forall|k: int| 0 <= k < rs.len() ==> (#[trigger] rs[k]).bookmark != b,
    decreases rs.len(),
{
    if rs.len() > 0 {
        lemma_count_zero_absent(rs.drop_last(), b);
        assert forall|k: int| 0 <= k < rs.len() implies (#[trigger] rs[k]).bookmark != b by {
            if k < rs.len() - 1 {
                assert(rs[k] == rs.drop_last()[k]);
            }
        }
    }
}

/// A result list with a positive count for `b` has an entry equal to `b`.
pub proof fn lemma_count_pos_present(rs: Seq<SearchResultView>, b: BookmarkView)
    requires
        count_eq_results(rs, b) > 0,
    ensures
        exists|k: int| 0 <= k < rs.len() && (#[trigger] rs[k]).bookmark == b,
    decreases rs.len(),
{
    if rs.len() > 0 {
        if rs.last().bookmark == b {
            assert(rs[rs.len() - 1].bookmark == b);
        } else {
            lemma_count_pos_present(rs.drop_last(), b);
            let k = choose|k: int|
                0 <= k < rs.drop_last().len() && (#[trigger] rs.drop_last()[k]).bookmark == b;
            assert(rs[k].bookmark == b);
        }
    }
}

proof fn lemma_count_records_remove(bs: Seq<BookmarkView>, i: int, b: BookmarkView)
    requires
        0 <= i < bs.len(),
    ensures
        count_eq_records(bs.remove(i), b) + (if bs[i] == b {
            1nat
        } else {
            0nat
        }) == count_eq_records(bs, b),
    decreases bs.len(),
{
    if i == bs.len() - 1 {
        assert(bs.remove(i) =~= bs.drop_last());
    } else {
        lemma_count_records_remove(bs.drop_last(), i, b);
        assert(bs.remove(i).drop_last() =~= bs.drop_last().remove(i));
        assert(bs.remove(i).last() == bs.last());
    }
}

proof fn lemma_count_store_update(
    cs: Seq<CollectionView>,
    i: int,
    c: CollectionView,
    b: BookmarkView,
)
    requires
        0 <= i < cs.len(),
    ensures
        count_eq_store(cs.update(i, c), b) + count_eq_records(cs[i].bookmarks, b)
            == count_eq_store(cs, b) + count_eq_records(c.bookmarks, b),
    decreases cs.len(),
{
    if i == cs.len() - 1 {
        assert(cs.update(i, c).drop_last() =~= cs.drop_last());
        assert(cs.update(i, c).last() == c);
    } else {
        lemma_count_store_update(cs.drop_last(), i, c, b);
        assert(cs.update(i, c).drop_last() =~= cs.drop_last().update(i, c));
        assert(cs.update(i, c).last() == cs.last());
    }
}

/// Appending a bookmark to the store raises the count of records equal to
/// `b` by one exactly when the appended bookmark equals `b`.
pub proof fn lemma_count_spec_add(cs: Seq<CollectionView>, added: BookmarkView, b: BookmarkView)
    ensures
        count_eq_store(spec_add(cs, added), b) == count_eq_store(cs, b) + (if added == b {
            1nat
        } else {
            0nat
        }),
{
    if has_collection(cs, added.collection) {
        let i = collection_index(cs, added.collection);
        assert(0 <= i < cs.len() && cs[i].name == added.collection);
        let c = CollectionView { name: cs[i].name, bookmarks: cs[i].bookmarks.push(added) };
        lemma_count_store_update(cs, i, c, b);
        assert(c.bookmarks.drop_last() =~= cs[i].bookmarks);
    } else {
        let c = CollectionView { name: added.collection, bookmarks: seq![added] };
        assert(cs.push(c).drop_last() =~= cs);
        assert(cs.push(c).last() == c);
        assert(c.bookmarks.drop_last() =~= Seq::<BookmarkView>::empty());
        assert(c.bookmarks.len() == 1);
        assert(c.bookmarks.last() == added);
        assert(count_eq_records(Seq::<BookmarkView>::empty(), b) == 0);
        assert(count_eq_records(c.bookmarks.drop_last(), b) == 0);
        assert(count_eq_records(c.bookmarks, b) == if added == b {
            1nat
        } else {
            0nat
        });
    }
}

/// Removing a record from the store lowers the count of records equal to
/// `b` by one exactly when the removed record equals `b`.
pub proof fn lemma_count_spec_delete(
    cs: Seq<CollectionView>,
    name: Seq<char>,
    index: int,
    b: BookmarkView,
)
    requires
        has_collection(cs, name),
        0 <= index < cs[collection_index(cs, name)].bookmarks.len(),
    ensures
        count_eq_store(spec_delete(cs, name, index), b) + (if cs[collection_index(
            cs,
            name,
        )].bookmarks[index] == b {
            1nat
        } else {
            0nat
        }) == count_eq_store(cs, b),
{
    let i = collection_index(cs, name);
    assert(0 <= i < cs.len() && cs[i].name == name);
    let c = CollectionView { name: cs[i].name, bookmarks: cs[i].bookmarks.remove(index) };
    lemma_count_store_update(cs, i, c, b);
    lemma_count_records_remove(cs[i].bookmarks, index, b);
}

proof fn lemma_matching_len_all(bs: Seq<BookmarkView>, pred: spec_fn(BookmarkView) -> bool)
    requires
        forall|k: int| 0 <= k < bs.len() ==> pred(#[trigger] bs[k]),
    ensures
        matching_results(bs, pred).len() == bs.len(),
    decreases bs.len(),
{
    if bs.len() > 0 {
        assert(pred(bs[bs.len() - 1]));
        assert forall|k: int| 0 <= k < bs.drop_last().len() implies pred(
            #[trigger] bs.drop_last()[k],
        ) by {
            assert(bs.drop_last()[k] == bs[k]);
        }
        lemma_matching_len_all(bs.drop_last(), pred);
    }
}

/// When every record satisfies the predicate, the result list is exactly
/// one entry per record.
pub proof fn lemma_store_matching_len_all(
    cs: Seq<CollectionView>,
    pred: spec_fn(BookmarkView) -> bool,
)
    requires
        forall|i: int, k: int|
            0 <= i < cs.len() && 0 <= k < cs[i].bookmarks.len() ==> pred(
                #[trigger] cs[i].bookmarks[k],
            ),
    ensures
        store_matching_results(cs, pred).len() == total_records(cs),
    decreases cs.len(),
{
    if cs.len() > 0 {
        assert forall|k: int| 0 <= k < cs.last().bookmarks.len() implies pred(
            #[trigger] cs.last().bookmarks[k],
        ) by {
            assert(cs.last().bookmarks[k] == cs[cs.len() - 1].bookmarks[k]);
        }
        lemma_matching_len_all(cs.last().bookmarks, pred);
        assert forall|i: int, k: int|
            0 <= i < cs.drop_last().len() && 0 <= k < cs.drop_last()[i].bookmarks.len() implies pred(
            #[trigger] cs.drop_last()[i].bookmarks[k],
        ) by {
            assert(cs.drop_last()[i] == cs[i]);
        }
        lemma_store_matching_len_all(cs.drop_last(), pred);
    }
}

proof fn lemma_total_records_update(cs: Seq<CollectionView>, i: int, c: CollectionView)
    requires
        0 <= i < cs.len(),
    ensures
        total_records(cs.update(i, c)) + cs[i].bookmarks.len() == total_records(cs)
            + c.bookmarks.len(),
    decreases cs.len(),
{
    if i == cs.len() - 1 {
        assert(cs.update(i, c).drop_last() =~= cs.drop_last());
        assert(cs.update(i, c).last() == c);
    } else {
        lemma_total_records_update(cs.drop_last(), i, c);
        assert(cs.update(i, c).drop_last() =~= cs.drop_last().update(i, c));
        assert(cs.update(i, c).last() == cs.last());
    }
}

/// Every entry of a matching-results list points at a real record: its
/// index is in range and the record there is the entry's bookmark.
pub proof fn lemma_matching_results_ok(bs: Seq<BookmarkView>, pred: spec_fn(BookmarkView) -> bool)
    ensures
        forall|k: int|
            0 <= k < matching_results(bs, pred).len() ==> {
                let rv = #[trigger] matching_results(bs, pred)[k];
                0 <= rv.index < bs.len() && bs[rv.index] == rv.bookmark && pred(rv.bookmark)
            },
    decreases bs.len(),
{
    if bs.len() > 0 {
        lemma_matching_results_ok(bs.drop_last(), pred);
        let prefix = matching_results(bs.drop_last(), pred);
        assert forall|k: int| 0 <= k < matching_results(bs, pred).len() implies {
            let rv = #[trigger] matching_results(bs, pred)[k];
            0 <= rv.index < bs.len() && bs[rv.index] == rv.bookmark && pred(rv.bookmark)
        } by {
            if k < prefix.len() {
                assert(matching_results(bs, pred)[k] == prefix[k]);
                assert(bs.drop_last()[prefix[k].index] == bs[prefix[k].index]);
            }
        }
    }
}

/// In a well-formed store every search entry is accounted for: the
/// collection its bookmark names holds that bookmark at the entry's index.
pub proof fn lemma_store_results_ok(cs: Seq<CollectionView>, pred: spec_fn(BookmarkView) -> bool)
    requires
        store_wf(cs),
    ensures
        forall|k: int|
            0 <= k < store_matching_results(cs, pred).len() ==> result_ok(
                cs,
                #[trigger] store_matching_results(cs, pred)[k],
            ),
    decreases cs.len(),
{
    if cs.len() > 0 {
        assert forall|p: int, q: int| 0 <= p < q < cs.drop_last().len() implies (
        #[trigger] cs.drop_last()[p].name) != (#[trigger] cs.drop_last()[q].name) by {
            assert(cs.drop_last()[p] == cs[p]);
            assert(cs.drop_last()[q] == cs[q]);
        }
        assert forall|p: int, k: int|
            0 <= p < cs.drop_last().len() && 0 <= k < cs.drop_last()[p].bookmarks.len() implies (
        #[trigger] cs.drop_last()[p].bookmarks[k]).collection == cs.drop_last()[p].name by {
            assert(cs.drop_last()[p] == cs[p]);
        }
        lemma_store_results_ok(cs.drop_last(), pred);
        lemma_matching_results_ok(cs.last().bookmarks, pred);
        let prefix = store_matching_results(cs.drop_last(), pred);
        let tail = matching_results(cs.last().bookmarks, pred);
        assert forall|k: int| 0 <= k < store_matching_results(cs, pred).len() implies result_ok(
            cs,
            #[trigger] store_matching_results(cs, pred)[k],
        ) by {
            let rv = store_matching_results(cs, pred)[k];
            if k < prefix.len() {
                assert(rv == prefix[k]);
                assert(result_ok(cs.drop_last(), rv));
                let i = choose|i: int|
                    0 <= i < cs.drop_last().len() && (#[trigger] cs.drop_last()[i].name)
                        == rv.bookmark.collection && 0 <= rv.index
                        < cs.drop_last()[i].bookmarks.len() && cs.drop_last()[i].bookmarks[rv.index]
                        == rv.bookmark;
                assert(cs[i] == cs.drop_last()[i]);
                assert(cs[i].name == rv.bookmark.collection);
            } else {
                assert(rv == tail[k - prefix.len()]);
                let last = cs.len() - 1;
                assert(cs[last] == cs.last());
                assert(cs[last].bookmarks[rv.index] == rv.bookmark);
                assert(cs[last].bookmarks[rv.index].collection == cs[last].name);
                assert(cs[last].name == rv.bookmark.collection);
            }
        }
    }
}

/// Well-formedness survives an append: the new record lands in the
/// collection its own field names, created fresh if need be.
pub proof fn lemma_spec_add_wf(cs: Seq<CollectionView>, b: BookmarkView)
    requires
        store_wf(cs),
    ensures
        store_wf(spec_add(cs, b)),
{
    let cs1 = spec_add(cs, b);
    if has_collection(cs, b.collection) {
        let i = collection_index(cs, b.collection);
        assert(0 <= i < cs.len() && cs[i].name == b.collection);
        assert forall|p: int, q: int| 0 <= p < q < cs1.len() implies (#[trigger] cs1[p].name) != (
        #[trigger] cs1[q].name) by {
            assert(cs1[p].name == cs[p].name);
            assert(cs1[q].name == cs[q].name);
        }
        assert forall|p: int, k: int|
            0 <= p < cs1.len() && 0 <= k < cs1[p].bookmarks.len() implies (
        #[trigger] cs1[p].bookmarks[k]).collection == cs1[p].name by {
            if p == i && k == cs1[p].bookmarks.len() - 1 {
            } else {
                assert(cs1[p].bookmarks[k] == cs[p].bookmarks[k]);
            }
        }
    } else {
        assert forall|p: int, q: int| 0 <= p < q < cs1.len() implies (#[trigger] cs1[p].name) != (
        #[trigger] cs1[q].name) by {
            if q == cs.len() {
                assert(cs1[p].name == cs[p].name);
            } else {
                assert(cs1[p].name == cs[p].name);
                assert(cs1[q].name == cs[q].name);
            }
        }
        assert forall|p: int, k: int|
            0 <= p < cs1.len() && 0 <= k < cs1[p].bookmarks.len() implies (
        #[trigger] cs1[p].bookmarks[k]).collection == cs1[p].name by {
            if p < cs.len() {
                assert(cs1[p].bookmarks[k] == cs[p].bookmarks[k]);
            } else {
                assert(cs1[p].bookmarks =~= seq![b]);
            }
        }
    }
}

/// Adding a bookmark that equals no record of the store, then searching
/// with the bookmark's command as the only keyword, finds exactly one entry
/// whose bookmark equals the added one.
pub proof fn lemma_add_then_search_unique(cs: Seq<CollectionView>, b: BookmarkView)
    requires
        count_eq_store(cs, b) == 0,
    ensures
        count_eq_results(search_results(spec_add(cs, b), seq![b.command]), b) == 1,
{
    lemma_count_spec_add(cs, b, b);
    lemma_substring_refl(b.command);
    let kws = seq![b.command];
    let pred = keywords_pred(kws);
    assert(bookmark_matches(b, kws[0]));
    assert(pred(b));
    lemma_store_matching_count(spec_add(cs, b), pred, b);
}

/// Every record matches a search whose only keyword is empty.
proof fn lemma_empty_keyword_matches_all(cs: Seq<CollectionView>)
    ensures
        forall|i: int, k: int|
            0 <= i < cs.len() && 0 <= k < cs[i].bookmarks.len() ==> keywords_pred(
                seq![Seq::<char>::empty()],
            )(#[trigger] cs[i].bookmarks[k]),
{
    let kws = seq![Seq::<char>::empty()];
    assert forall|i: int, k: int|
        0 <= i < cs.len() && 0 <= k < cs[i].bookmarks.len() implies keywords_pred(kws)(
        #[trigger] cs[i].bookmarks[k],
    ) by {
        let b = cs[i].bookmarks[k];
        lemma_substring_empty(b.command);
        assert(bookmark_matches(b, kws[0]));
    }
}

/// Deleting a record shrinks the full listing, an empty-keyword search, by
/// exactly one entry; and when the deleted record's content appeared only
/// once in the store, no entry of the new listing carries it any more.
pub proof fn lemma_delete_then_search_all(cs: Seq<CollectionView>, name: Seq<char>, index: int)
    requires
        has_collection(cs, name),
        0 <= index < cs[collection_index(cs, name)].bookmarks.len(),
    ensures
        search_results(spec_delete(cs, name, index), seq![Seq::<char>::empty()]).len() + 1
            == search_results(cs, seq![Seq::<char>::empty()]).len(),
        count_eq_store(cs, cs[collection_index(cs, name)].bookmarks[index]) == 1 ==> forall|k: int|
            0 <= k < search_results(spec_delete(cs, name, index), seq![Seq::<char>::empty()]).len()
                ==> (#[trigger] search_results(
                spec_delete(cs, name, index),
                seq![Seq::<char>::empty()],
            )[k]).bookmark != cs[collection_index(cs, name)].bookmarks[index],
{
    let kws = seq![Seq::<char>::empty()];
    let pred = keywords_pred(kws);
    let i = collection_index(cs, name);
    assert(0 <= i < cs.len() && cs[i].name == name);
    let victim = cs[i].bookmarks[index];
    let cs2 = spec_delete(cs, name, index);
    let c = CollectionView { name: cs[i].name, bookmarks: cs[i].bookmarks.remove(index) };
    lemma_empty_keyword_matches_all(cs);
    lemma_store_matching_len_all(cs, pred);
    lemma_empty_keyword_matches_all(cs2);
    lemma_store_matching_len_all(cs2, pred);
    lemma_total_records_update(cs, i, c);
    if count_eq_store(cs, victim) == 1 {
        lemma_count_spec_delete(cs, name, index, victim);
        lemma_store_matching_count(cs2, pred, victim);
        lemma_count_zero_absent(store_matching_results(cs2, pred), victim);
    }
}

/// A search with no keywords at all lists every record, exactly as a
/// search whose only keyword is empty does.
pub proof fn lemma_empty_query_matches_all(cs: Seq<CollectionView>)
    ensures
        search_results(cs, Seq::<Seq<char>>::empty()).len() == total_records(cs),
        search_results(cs, seq![Seq::<char>::empty()]).len() == total_records(cs),
{
    let none_pred = keywords_pred(Seq::<Seq<char>>::empty());
    assert forall|i: int, k: int|
        0 <= i < cs.len() && 0 <= k < cs[i].bookmarks.len() implies none_pred(
        #[trigger] cs[i].bookmarks[k],
    ) by {}
    lemma_store_matching_len_all(cs, none_pred);
    lemma_empty_keyword_matches_all(cs);
    lemma_store_matching_len_all(cs, keywords_pred(seq![Seq::<char>::empty()]));
}

/// Edit as replace: dropping the record under edit and appending the
/// rebuilt bookmark leaves, in a full listing, exactly one entry carrying
/// the new content and none carrying the old — provided the old content
/// appeared only once in the store and no record already equals the new
/// bookmark.
pub proof fn lemma_edit_replaces_content(
    cs: Seq<CollectionView>,
    name: Seq<char>,
    index: int,
    b2: BookmarkView,
)
    requires
        has_collection(cs, name),
        0 <= index < cs[collection_index(cs, name)].bookmarks.len(),
        count_eq_store(cs, b2) == 0,
        count_eq_store(cs, cs[collection_index(cs, name)].bookmarks[index]) == 1,
    ensures
        ({
            let old_record = cs[collection_index(cs, name)].bookmarks[index];
            let cs2 = spec_add(spec_delete(cs, name, index), b2);
            let rs = search_results(cs2, seq![Seq::<char>::empty()]);
            &&& count_eq_results(rs, b2) == 1
            &&& forall|k: int| 0 <= k < rs.len() ==> (#[trigger] rs[k]).bookmark != old_record
        }),
{
    let old_record = cs[collection_index(cs, name)].bookmarks[index];
    let cs1 = spec_delete(cs, name, index);
    lemma_count_spec_delete(cs, name, index, b2);
    lemma_count_spec_delete(cs, name, index, old_record);
    lemma_count_spec_add(cs1, b2, b2);
    lemma_count_spec_add(cs1, b2, old_record);
    let cs2 = spec_add(cs1, b2);
    let kws = seq![Seq::<char>::empty()];
    let pred = keywords_pred(kws);
    lemma_substring_empty(b2.command);
    assert(bookmark_matches(b2, kws[0]));
    assert(pred(b2));
    lemma_store_matching_count(cs2, pred, b2);
    lemma_store_matching_count(cs2, pred, old_record);
    lemma_count_zero_absent(search_results(cs2, kws), old_record);
}

/// The round trip: add a bookmark no record equals, search for its command,
/// take any entry of the results that equals it by content, and delete that
/// entry's index from the bookmark's collection — the content is then gone
/// from any further search, in particular from a repeat of the same one.
pub proof fn lemma_add_search_delete_round_trip(cs: Seq<CollectionView>, b: BookmarkView)
    requires
        store_wf(cs),
        count_eq_store(cs, b) == 0,
    ensures
        ({
            let cs1 = spec_add(cs, b);
            let rs = search_results(cs1, seq![b.command]);
            &&& exists|k: int| 0 <= k < rs.len() && (#[trigger] rs[k]).bookmark == b
            &&& forall|k: int|
                0 <= k < rs.len() && (#[trigger] rs[k]).bookmark == b ==> {
                    let cs2 = spec_delete(cs1, b.collection, rs[k].index);
                    &&& has_collection(cs1, b.collection)
                    &&& 0 <= rs[k].index < cs1[collection_index(cs1, b.collection)].bookmarks.len()
                    &&& cs1[collection_index(cs1, b.collection)].bookmarks[rs[k].index] == b
                    &&& count_eq_store(cs2, b) == 0
                    &&& forall|j: int|
                        0 <= j < search_results(cs2, seq![b.command]).len() ==> (
                        #[trigger] search_results(cs2, seq![b.command])[j]).bookmark != b
                }
        }),
{
    let cs1 = spec_add(cs, b);
    let kws = seq![b.command];
    let pred = keywords_pred(kws);
    let rs = search_results(cs1, kws);
    lemma_add_then_search_unique(cs, b);
    lemma_count_pos_present(rs, b);
    lemma_spec_add_wf(cs, b);
    lemma_store_results_ok(cs1, pred);
    lemma_count_spec_add(cs, b, b);
    assert forall|k: int| 0 <= k < rs.len() && (#[trigger] rs[k]).bookmark == b implies {
        let cs2 = spec_delete(cs1, b.collection, rs[k].index);
        &&& has_collection(cs1, b.collection)
        &&& 0 <= rs[k].index < cs1[collection_index(cs1, b.collection)].bookmarks.len()
        &&& cs1[collection_index(cs1, b.collection)].bookmarks[rs[k].index] == b
        &&& count_eq_store(cs2, b) == 0
        &&& forall|j: int|
            0 <= j < search_results(cs2, seq![b.command]).len() ==> (#[trigger] search_results(
                cs2,
                seq![b.command],
            )[j]).bookmark != b
    } by {
        let rv = rs[k];
        assert(result_ok(cs1, rv));
        let i = choose|i: int|
            0 <= i < cs1.len() && (#[trigger] cs1[i].name) == rv.bookmark.collection && 0
                <= rv.index < cs1[i].bookmarks.len() && cs1[i].bookmarks[rv.index] == rv.bookmark;
        assert(has_collection(cs1, b.collection));
        let ci = collection_index(cs1, b.collection);
        assert(0 <= ci < cs1.len() && cs1[ci].name == b.collection);
        assert(ci == i) by {
            if ci != i {
                if ci < i {
                    assert(cs1[ci].name != cs1[i].name);
                } else {
                    assert(cs1[i].name != cs1[ci].name);
                }
            }
        }
        let cs2 = spec_delete(cs1, b.collection, rv.index);
        lemma_count_spec_delete(cs1, b.collection, rv.index, b);
        lemma_store_matching_count(cs2, pred, b);
        lemma_count_zero_absent(search_results(cs2, kws), b);
    }
}

} // verus!
