//! Set-style combination of search-result lists: the union and the
//! intersection of several result sets, without duplicates. The order of
//! the combined results is not part of the contract, as with the unordered
//! sets this models.

use vstd::prelude::*;

use crate::store::{SearchResult, SearchResultView};

verus! {

/// Some entry of `s` equals `x`.
pub open spec fn seq_contains_result(s: Seq<SearchResultView>, x: SearchResultView) -> bool {
    exists|k: int| 0 <= k < s.len() && (#[trigger] s[k]) == x
}

/// No two entries of `s` are equal.
pub open spec fn no_duplicate_results(s: Seq<SearchResultView>) -> bool {
    forall|p: int, q: int| 0 <= p < q < s.len() ==> (#[trigger] s[p]) != (#[trigger] s[q])
}

/// Whether `v` holds an entry equal to `x`.
fn vec_contains(v: &Vec<SearchResult>, x: &SearchResult) -> (r: bool)
    ensures
        r == seq_contains_result(v.deep_view(), x@),
{
    let mut i: usize = 0;
    while i < v.len()
        invariant
            i <= v.len(),
            v.deep_view().len() == v.len(),
            forall|k: int| 0 <= k < i ==> (#[trigger] v.deep_view()[k]) != x@,
        decreases v.len() - i,
    {
        assert(v.deep_view()[i as int] == v@[i as int]@);
        if v[i].eq(x) {
            return true;
        }
        i = i + 1;
    }
    false
}

/// Whether every result set of `v` holds an entry equal to `x`.
fn all_contain(v: &Vec<Vec<SearchResult>>, x: &SearchResult) -> (r: bool)
    ensures
        r == forall|j: int|
            0 <= j < v.deep_view().len() ==> seq_contains_result(
                #[trigger] v.deep_view()[j],
                x@,
            ),
{
    let mut j: usize = 0;
    while j < v.len()
        invariant
            j <= v.len(),
            v.deep_view().len() == v.len(),
            forall|k: int|
                0 <= k < j ==> seq_contains_result(#[trigger] v.deep_view()[k], x@),
        decreases v.len() - j,
    {
        assert(v.deep_view()[j as int] == v@[j as int].deep_view());
        if !vec_contains(&v[j], x) {
            return false;
        }
        j = j + 1;
    }
    true
}

/// Some result set of `vs` holds an entry equal to `x`.
pub open spec fn in_some_set(vs: Seq<Seq<SearchResultView>>, x: SearchResultView) -> bool {
    exists|j: int| 0 <= j < vs.len() && seq_contains_result(#[trigger] vs[j], x)
}

/// An entry stays in a result list that grows by one.
proof fn lemma_push_keeps_contains(s: Seq<SearchResultView>, y: SearchResultView, x: SearchResultView)
    requires
        seq_contains_result(s, x),
    ensures
        seq_contains_result(s.push(y), x),
{
    let w = choose|k: int| 0 <= k < s.len() && (#[trigger] s[k]) == x;
    assert(s.push(y)[w] == x);
}

/// The union of several result sets: every entry that appears in any of
/// them, each exactly once, in no promised order.
pub fn multi_union(v: Vec<Vec<SearchResult>>) -> (r: Vec<SearchResult>)
    ensures
        no_duplicate_results(r.deep_view()),
        forall|j: int, k: int|
            0 <= j < v.deep_view().len() && 0 <= k < v.deep_view()[j].len()
                ==> seq_contains_result(r.deep_view(), #[trigger] v.deep_view()[j][k]),
        forall|k2: int|
            0 <= k2 < r.deep_view().len() ==> in_some_set(
                v.deep_view(),
                #[trigger] r.deep_view()[k2],
            ),
{
    let ghost vdv = v.deep_view();
    let mut r: Vec<SearchResult> = Vec::new();
    let mut j: usize = 0;
    while j < v.len()
        invariant
            vdv == v.deep_view(),
            vdv.len() == v.len(),
            j <= v.len(),
            no_duplicate_results(r.deep_view()),
            forall|j2: int, k2: int|
                0 <= j2 < j && 0 <= k2 < vdv[j2].len() ==> seq_contains_result(
                    r.deep_view(),
                    #[trigger] vdv[j2][k2],
                ),
            forall|k2: int|
                0 <= k2 < r.deep_view().len() ==> in_some_set(vdv, #[trigger] r.deep_view()[k2]),
        decreases v.len() - j,
    {
        assert(vdv[j as int] == v@[j as int].deep_view());
        let set_len = v[j].len();
        let mut k: usize = 0;
        while k < set_len
            invariant
                vdv == v.deep_view(),
                vdv.len() == v.len(),
                j < v.len(),
                vdv[j as int] == v@[j as int].deep_view(),
                set_len == vdv[j as int].len(),
                k <= set_len,
                no_duplicate_results(r.deep_view()),
                forall|j2: int, k2: int|
                    0 <= j2 < j && 0 <= k2 < vdv[j2].len() ==> seq_contains_result(
                        r.deep_view(),
                        #[trigger] vdv[j2][k2],
                    ),
                forall|k2: int|
                    0 <= k2 < k ==> seq_contains_result(r.deep_view(), #[trigger] vdv[j as int][k2]),
                forall|k2: int|
                    0 <= k2 < r.deep_view().len() ==> in_some_set(
                        vdv,
                        #[trigger] r.deep_view()[k2],
                    ),
            decreases set_len - k,
        {
            assert(vdv[j as int][k as int] == v@[j as int]@[k as int]@);
            let ghost item_view = vdv[j as int][k as int];
            let item = &v[j][k];
            if !vec_contains(&r, item) {
                let ghost dv_old = r.deep_view();
                let copied = item.clone();
                r.push(copied);
                proof {
                    assert(r.deep_view() =~~= dv_old.push(item_view));
                    assert(r.deep_view()[r.deep_view().len() - 1] == item_view);
                    assert(seq_contains_result(r.deep_view(), item_view));
                    assert forall|j2: int, k2: int|
                        0 <= j2 < j && 0 <= k2 < vdv[j2].len() implies seq_contains_result(
                        r.deep_view(),
                        #[trigger] vdv[j2][k2],
                    ) by {
                        lemma_push_keeps_contains(dv_old, item_view, vdv[j2][k2]);
                    }
                    assert forall|k2: int| 0 <= k2 < k implies seq_contains_result(
                        r.deep_view(),
                        #[trigger] vdv[j as int][k2],
                    ) by {
                        lemma_push_keeps_contains(dv_old, item_view, vdv[j as int][k2]);
                    }
                    assert forall|p: int, q: int|
                        0 <= p < q < r.deep_view().len() implies (#[trigger] r.deep_view()[p]) != (
                    #[trigger] r.deep_view()[q]) by {
                        assert(r.deep_view()[p] == dv_old[p]);
                        if q < r.deep_view().len() - 1 {
                            assert(r.deep_view()[q] == dv_old[q]);
                        }
                    }
                    assert forall|k2: int| 0 <= k2 < r.deep_view().len() implies in_some_set(
                        vdv,
                        #[trigger] r.deep_view()[k2],
                    ) by {
                        if k2 == r.deep_view().len() - 1 {
                            assert(r.deep_view()[k2] == vdv[j as int][k as int]);
                            assert(seq_contains_result(vdv[j as int], item_view));
                        } else {
                            assert(r.deep_view()[k2] == dv_old[k2]);
                        }
                    }
                }
            } else {
                proof {
                    assert(seq_contains_result(r.deep_view(), item_view));
                }
            }
            k = k + 1;
        }
        j = j + 1;
    }
    r
}

/// The intersection of several result sets: every entry that appears in
/// all of them, each exactly once, in no promised order. With no sets at
/// all the intersection is empty.
pub fn multi_intersection(v: Vec<Vec<SearchResult>>) -> (r: Vec<SearchResult>)
    ensures
        no_duplicate_results(r.deep_view()),
        forall|k2: int|
            0 <= k2 < r.deep_view().len() ==> v.deep_view().len() > 0 && forall|j: int|
                0 <= j < v.deep_view().len() ==> seq_contains_result(
                    #[trigger] v.deep_view()[j],
                    #[trigger] r.deep_view()[k2],
                ),
        v.deep_view().len() > 0 ==> forall|k: int|
            0 <= k < v.deep_view()[0].len() && (forall|j: int|
                0 <= j < v.deep_view().len() ==> seq_contains_result(
                    #[trigger] v.deep_view()[j],
                    v.deep_view()[0][k],
                )) ==> seq_contains_result(r.deep_view(), #[trigger] v.deep_view()[0][k]),
{
    let ghost vdv = v.deep_view();
    let mut r: Vec<SearchResult> = Vec::new();
    if v.len() == 0 {
        return r;
    }
    assert(vdv[0] == v@[0].deep_view());
    let first_len = v[0].len();
    let mut k: usize = 0;
    while k < first_len
        invariant
            vdv == v.deep_view(),
            vdv.len() == v.len(),
            v.len() > 0,
            vdv[0] == v@[0].deep_view(),
            first_len == vdv[0].len(),
            k <= first_len,
            no_duplicate_results(r.deep_view()),
            forall|k2: int|
                0 <= k2 < r.deep_view().len() ==> forall|j: int|
                    0 <= j < vdv.len() ==> seq_contains_result(
                        #[trigger] vdv[j],
                        #[trigger] r.deep_view()[k2],
                    ),
            forall|k2: int|
                0 <= k2 < k && (forall|j: int|
                    0 <= j < vdv.len() ==> seq_contains_result(#[trigger] vdv[j], vdv[0][k2]))
                    ==> seq_contains_result(r.deep_view(), #[trigger] vdv[0][k2]),
        decreases first_len - k,
    {
        assert(vdv[0][k as int] == v@[0]@[k as int]@);
        let ghost item_view = vdv[0][k as int];
        let item = &v[0][k];
        if all_contain(&v, item) {
            if !vec_contains(&r, item) {
                let ghost dv_old = r.deep_view();
                let copied = item.clone();
                r.push(copied);
                proof {
                    assert(r.deep_view() =~~= dv_old.push(item_view));
                    assert(r.deep_view()[r.deep_view().len() - 1] == item_view);
                    assert(seq_contains_result(r.deep_view(), item_view));
                    assert forall|k2: int| 0 <= k2 < r.deep_view().len() implies forall|j: int|
                        0 <= j < vdv.len() ==> seq_contains_result(
                            #[trigger] vdv[j],
                            #[trigger] r.deep_view()[k2],
                        ) by {
                        if k2 < r.deep_view().len() - 1 {
                            assert(r.deep_view()[k2] == dv_old[k2]);
                        } else {
                            assert(r.deep_view()[k2] == item_view);
                        }
                    }
                    assert forall|k2: int|
                        0 <= k2 < k && (forall|j: int|
                            0 <= j < vdv.len() ==> seq_contains_result(
                                #[trigger] vdv[j],
                                vdv[0][k2],
                            )) implies seq_contains_result(
                        r.deep_view(),
                        #[trigger] vdv[0][k2],
                    ) by {
                        lemma_push_keeps_contains(dv_old, item_view, vdv[0][k2]);
                    }
                    assert forall|p: int, q: int|
                        0 <= p < q < r.deep_view().len() implies (#[trigger] r.deep_view()[p]) != (
                    #[trigger] r.deep_view()[q]) by {
                        assert(r.deep_view()[p] == dv_old[p]);
                        if q < r.deep_view().len() - 1 {
                            assert(r.deep_view()[q] == dv_old[q]);
                        }
                    }
                }
            } else {
                proof {
                    assert(seq_contains_result(r.deep_view(), item_view));
                }
            }
        }
        k = k + 1;
    }
    r
}

} // verus!
