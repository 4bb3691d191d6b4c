//! Laws of the merge: properties that hold of every merge, stated over the
//! merge fold and proved once and for all.

use vstd::prelude::*;

use crate::engine::Engine;
use crate::merge::contribution;
use crate::merge::fold_items;
use crate::merge::fresh;
use crate::merge::has_url;
use crate::merge::init_state;
use crate::merge::is_first_url;
use crate::merge::lemma_is_first_url;
use crate::merge::merge_fold;
use crate::merge::merge_fold_upto;
use crate::merge::step_pair;
use crate::merge::MergeState;
use crate::response::EngineResponseView;

verus! {

/// One engine's response folded in alone changes nothing when it is empty.
pub proof fn lemma_empty_step(st: MergeState, e: Engine, resp: EngineResponseView)
    requires
        resp.is_empty(),
    ensures
        step_pair(st, e, resp) == st,
{
    assert(fold_items(st, e, resp.search_results, resp.search_results.len() as int) == st);
}

/// Two inputs that agree on their first `n` pairs merge to the same state.
pub proof fn lemma_fold_upto_agrees(
    ps: Seq<(Engine, EngineResponseView)>,
    qs: Seq<(Engine, EngineResponseView)>,
    n: int,
)
    requires
        0 <= n <= ps.len(),
        n <= qs.len(),
        forall|k: int| 0 <= k < n ==> ps[k] == qs[k],
    ensures
        merge_fold_upto(ps, n) == merge_fold_upto(qs, n),
    decreases n,
{
    if n > 0 {
        lemma_fold_upto_agrees(ps, qs, n - 1);
    }
}

proof fn lemma_remove_empty_shift(ps: Seq<(Engine, EngineResponseView)>, i: int, m: int)
    requires
        0 <= i < ps.len(),
        ps[i].1.is_empty(),
        i <= m <= ps.len() - 1,
    ensures
        merge_fold_upto(ps.remove(i), m) == merge_fold_upto(ps, m + 1),
    decreases m - i,
{
    let rm = ps.remove(i);
    if m == i {
        lemma_fold_upto_agrees(rm, ps, i);
        lemma_empty_step(merge_fold_upto(ps, i), ps[i].0, ps[i].1);
        assert(merge_fold_upto(ps, i + 1) == step_pair(merge_fold_upto(ps, i), ps[i].0, ps[i].1));
    } else {
        lemma_remove_empty_shift(ps, i, m - 1);
        assert(rm[m - 1] == ps[m]);
        assert(merge_fold_upto(rm, m) == step_pair(merge_fold_upto(rm, m - 1), rm[m - 1].0, rm[m
            - 1].1));
        assert(merge_fold_upto(ps, m + 1) == step_pair(merge_fold_upto(ps, m), ps[m].0, ps[m].1));
    }
}

/// Isolation: an engine whose contribution was degraded to the empty response
/// (as a parse failure is) adds nothing anywhere — merging with it is merging
/// without it.
pub proof fn lemma_empty_contributes_nothing(ps: Seq<(Engine, EngineResponseView)>, i: int)
    requires
        0 <= i < ps.len(),
        ps[i].1.is_empty(),
    ensures
        merge_fold(ps) == merge_fold(ps.remove(i)),
{
    lemma_remove_empty_shift(ps, i, ps.len() - 1);
}

proof fn lemma_fold_items_fresh(e: Engine, items: Seq<crate::response::EngineSearchResultView>, n: int)
    requires
        0 <= n <= items.len(),
        forall|a: int, b: int|
            0 <= a < b < items.len() ==> (#[trigger] items[a]).url != (#[trigger] items[b]).url,
    ensures
        fold_items(init_state(), e, items, n).results.len() == n,
        forall|x: int|
            0 <= x < n ==> (#[trigger] fold_items(init_state(), e, items, n).results[x]) == fresh(
                e,
                x,
                items[x],
            ),
    decreases n,
{
    if n > 0 {
        lemma_fold_items_fresh(e, items, n - 1);
        let prev = fold_items(init_state(), e, items, n - 1);
        let u = items[n - 1].url;
        assert(!has_url(prev.results, u)) by {
            if has_url(prev.results, u) {
                let k = choose|k: int|
                    0 <= k < prev.results.len() && (#[trigger] prev.results[k]).url == u;
                assert(prev.results[k] == fresh(e, k, items[k]));
                assert(items[k].url == items[n - 1].url);
                assert(false);
            }
        }
    }
}

/// Idempotence: merging a single engine's response whose urls are pairwise
/// distinct copies it, hit for hit — same url, title and description, the one
/// engine as sole contributor, and each score scaled to exactly
/// `weight / (100 * (i + 1))`, with no cross-engine aggregation.
pub proof fn lemma_single_engine_merge(e: Engine, resp: EngineResponseView)
    requires
        forall|a: int, b: int|
            0 <= a < b < resp.search_results.len() ==> (#[trigger] resp.search_results[a]).url != (
            #[trigger] resp.search_results[b]).url,
    ensures
        merge_fold(seq![(e, resp)]).results.len() == resp.search_results.len(),
        forall|x: int|
            0 <= x < resp.search_results.len() ==> (#[trigger] merge_fold(
                seq![(e, resp)],
            ).results[x]) == fresh(e, x, resp.search_results[x]),
{
    let ps = seq![(e, resp)];
    assert(ps[0] == (e, resp));
    lemma_fold_items_fresh(e, resp.search_results, resp.search_results.len() as int);
    assert(merge_fold_upto(ps, 1) == step_pair(merge_fold_upto(ps, 0), e, resp));
    assert(merge_fold(ps) == merge_fold_upto(ps, 1));
}

/// Tie-break: when two engines of different weights return the same url, the
/// merged result carries the heavier engine's title and description, whichever
/// order the two responses are merged in.
pub proof fn lemma_tie_break(e1: Engine, e2: Engine, r1: EngineResponseView, r2: EngineResponseView)
    requires
        e1.weight_spec() != e2.weight_spec(),
        r1.search_results.len() == 1,
        r2.search_results.len() == 1,
        r1.search_results[0].url == r2.search_results[0].url,
    ensures
        ({
            let hi = if e1.weight_spec() > e2.weight_spec() {
                r1.search_results[0]
            } else {
                r2.search_results[0]
            };
            let a = merge_fold(seq![(e1, r1), (e2, r2)]);
            let b = merge_fold(seq![(e2, r2), (e1, r1)]);
            &&& a.results.len() == 1
            &&& a.results[0].title == hi.title
            &&& a.results[0].description == hi.description
            &&& b.results.len() == 1
            &&& b.results[0].title == hi.title
            &&& b.results[0].description == hi.description
        }),
{
    lemma_tie_break_one_order(e1, e2, r1, r2);
    lemma_tie_break_one_order(e2, e1, r2, r1);
}

proof fn lemma_tie_break_one_order(
    e1: Engine,
    e2: Engine,
    r1: EngineResponseView,
    r2: EngineResponseView,
)
    requires
        e1.weight_spec() != e2.weight_spec(),
        r1.search_results.len() == 1,
        r2.search_results.len() == 1,
        r1.search_results[0].url == r2.search_results[0].url,
    ensures
        ({
            let hi = if e1.weight_spec() > e2.weight_spec() {
                r1.search_results[0]
            } else {
                r2.search_results[0]
            };
            let a = merge_fold(seq![(e1, r1), (e2, r2)]);
            &&& a.results.len() == 1
            &&& a.results[0].title == hi.title
            &&& a.results[0].description == hi.description
        }),
{
    let ps = seq![(e1, r1), (e2, r2)];
    assert(ps[0] == (e1, r1));
    assert(ps[1] == (e2, r2));
    let item1 = r1.search_results[0];
    let item2 = r2.search_results[0];

    // first pair: one fresh insert
    let st0 = merge_fold_upto(ps, 0);
    assert(st0 == init_state());
    let st1 = merge_fold_upto(ps, 1);
    assert(st1 == step_pair(st0, e1, r1));
    assert(fold_items(st0, e1, r1.search_results, 1) == crate::merge::step_item(
        fold_items(st0, e1, r1.search_results, 0),
        e1,
        0,
        item1,
    ));
    assert(!has_url(st0.results, item1.url));
    assert(st1.results =~= seq![fresh(e1, 0, item1)]);

    // second pair: the same url is found at position 0 and bumped
    let st2 = merge_fold_upto(ps, 2);
    assert(st2 == step_pair(st1, e2, r2));
    assert(fold_items(st1, e2, r2.search_results, 1) == crate::merge::step_item(
        fold_items(st1, e2, r2.search_results, 0),
        e2,
        0,
        item2,
    ));
    assert(is_first_url(st1.results, item2.url, 0));
    lemma_is_first_url(st1.results, item2.url, 0);
    let bumped = crate::merge::bump(st1.results[0], e2, 0, item2);
    assert(st2.results =~= st1.results.update(0, bumped));
    assert(st1.results[0].engines =~= seq![e1]);
    if e2.weight_spec() > e1.weight_spec() {
        assert(crate::merge::all_lighter(st1.results[0].engines, e2));
        assert(bumped.title == item2.title);
    } else {
        assert(st1.results[0].engines[0] == e1);
        assert(!crate::merge::all_lighter(st1.results[0].engines, e2));
        assert(bumped.title == item1.title);
    }
    assert(merge_fold(ps) == st2);
}


/// The exact sum of a sequence of score terms, folded left to right from the
/// zero fraction.
pub open spec fn rat_sum(s: Seq<crate::score::Rat>) -> crate::score::Rat
    decreases s.len(),
{
    if s.len() == 0 {
        crate::score::Rat { num: 0, den: 1 }
    } else {
        rat_sum(s.drop_last()).add(s.last())
    }
}

/// The contributions one engine's first `n` hits make to `url`, in order.
pub open spec fn item_contribs(
    e: Engine,
    items: Seq<crate::response::EngineSearchResultView>,
    url: Seq<char>,
    n: int,
) -> Seq<crate::score::Rat>
    decreases n,
{
    if n <= 0 {
        Seq::empty()
    } else {
        item_contribs(e, items, url, n - 1) + (if items[n - 1].url == url {
            seq![contribution(e, n - 1)]
        } else {
            Seq::empty()
        })
    }
}

/// The contributions the first `n` input pairs make to `url`, in order.
pub open spec fn contribs_upto(
    pairs: Seq<(Engine, EngineResponseView)>,
    url: Seq<char>,
    n: int,
) -> Seq<crate::score::Rat>
    decreases n,
{
    if n <= 0 {
        Seq::empty()
    } else {
        contribs_upto(pairs, url, n - 1) + item_contribs(
            pairs[n - 1].0,
            pairs[n - 1].1.search_results,
            url,
            pairs[n - 1].1.search_results.len() as int,
        )
    }
}

/// Every contribution the whole input makes to `url`, in merge order.
pub open spec fn contributions(pairs: Seq<(Engine, EngineResponseView)>, url: Seq<char>) -> Seq<
    crate::score::Rat,
> {
    contribs_upto(pairs, url, pairs.len() as int)
}

proof fn lemma_rat_sum_snoc(s: Seq<crate::score::Rat>, c: crate::score::Rat)
    ensures
        rat_sum(s + seq![c]) == rat_sum(s).add(c),
{
    assert((s + seq![c]).drop_last() =~= s);
    assert((s + seq![c]).last() == c);
}

proof fn lemma_scores_items(
    st: MergeState,
    e: Engine,
    items: Seq<crate::response::EngineSearchResultView>,
    m: int,
    cs: spec_fn(Seq<char>) -> Seq<crate::score::Rat>,
)
    requires
        0 <= m <= items.len(),
        crate::merge::distinct_urls(st.results),
        forall|x: int|
            0 <= x < st.results.len() ==> (#[trigger] st.results[x]).score == rat_sum(
                cs(st.results[x].url),
            ),
        forall|url: Seq<char>| #[trigger] has_url(st.results, url) <==> cs(url).len() > 0,
    ensures
        ({
            let stm = fold_items(st, e, items, m);
            &&& crate::merge::distinct_urls(stm.results)
            &&& forall|x: int|
                0 <= x < stm.results.len() ==> (#[trigger] stm.results[x]).score == rat_sum(
                    cs(stm.results[x].url) + item_contribs(e, items, stm.results[x].url, m),
                )
            &&& forall|url: Seq<char>| #[trigger] has_url(stm.results, url) <==> (cs(url)
                + item_contribs(e, items, url, m)).len() > 0
        }),
    decreases m,
{
    if m == 0 {
        assert forall|x: int| 0 <= x < st.results.len() implies (#[trigger] st.results[x]).score
            == rat_sum(cs(st.results[x].url) + item_contribs(e, items, st.results[x].url, 0)) by {
            assert(cs(st.results[x].url) + item_contribs(e, items, st.results[x].url, 0) =~= cs(
                st.results[x].url,
            ));
        }
        assert forall|url: Seq<char>| #[trigger] has_url(st.results, url) <==> (cs(url)
            + item_contribs(e, items, url, 0)).len() > 0 by {
            assert(cs(url) + item_contribs(e, items, url, 0) =~= cs(url));
        }
    } else {
        lemma_scores_items(st, e, items, m - 1, cs);
        let prev = fold_items(st, e, items, m - 1);
        let i = m - 1;
        let item = items[i];
        let u = item.url;
        let c = contribution(e, i);
        let stm = fold_items(st, e, items, m);
        assert(stm.results == crate::merge::upsert(prev.results, e, i, item));
        if has_url(prev.results, u) {
            crate::merge::lemma_has_first_url(prev.results, u);
            let j = crate::merge::first_url(prev.results, u);
            let b = crate::merge::bump(prev.results[j], e, i, item);
            assert(stm.results =~= prev.results.update(j, b));
            assert forall|x: int| 0 <= x < stm.results.len() implies (#[trigger] stm.results[x]).score
                == rat_sum(cs(stm.results[x].url) + item_contribs(e, items, stm.results[x].url, m)) by {
                if x == j {
                    assert(prev.results[j].score == rat_sum(cs(u) + item_contribs(e, items, u, i)));
                    assert(item_contribs(e, items, u, m) =~= item_contribs(e, items, u, i)
                        + seq![c]);
                    assert(cs(u) + (item_contribs(e, items, u, i) + seq![c]) =~= (cs(u)
                        + item_contribs(e, items, u, i)) + seq![c]);
                    lemma_rat_sum_snoc(cs(u) + item_contribs(e, items, u, i), c);
                    assert(stm.results[x].score == prev.results[j].score.add(c));
                } else {
                    assert(stm.results[x] == prev.results[x]);
                    assert(prev.results[x].url != u);
                    assert(item_contribs(e, items, prev.results[x].url, m) =~= item_contribs(
                        e,
                        items,
                        prev.results[x].url,
                        i,
                    ));
                }
            }
            assert forall|url: Seq<char>| #[trigger] has_url(stm.results, url) <==> (cs(url)
                + item_contribs(e, items, url, m)).len() > 0 by {
                assert(has_url(prev.results, url) <==> (cs(url) + item_contribs(
                    e,
                    items,
                    url,
                    i,
                )).len() > 0);
                if url == u {
                    assert(stm.results[j].url == u);
                    assert(has_url(stm.results, u));
                } else {
                    assert(item_contribs(e, items, url, m) =~= item_contribs(e, items, url, i));
                    assert forall|k: int| 0 <= k < stm.results.len() implies ((#[trigger] stm.results[k]).url
                        == url <==> prev.results[k].url == url) by {
                        assert(stm.results[k].url == prev.results[k].url);
                    }
                    if has_url(stm.results, url) {
                        let k = choose|k: int|
                            0 <= k < stm.results.len() && (#[trigger] stm.results[k]).url == url;
                        assert(prev.results[k].url == url);
                        assert(has_url(prev.results, url));
                    }
                    if has_url(prev.results, url) {
                        let k = choose|k: int|
                            0 <= k < prev.results.len() && (#[trigger] prev.results[k]).url == url;
                        assert(stm.results[k].url == url);
                        assert(has_url(stm.results, url));
                    }
                }
            }
            assert forall|a: int, b2: int| 0 <= a < b2 < stm.results.len() implies (
            #[trigger] stm.results[a]).url != (#[trigger] stm.results[b2]).url by {
                assert(stm.results[a].url == prev.results[a].url);
                assert(stm.results[b2].url == prev.results[b2].url);
            }
        } else {
            let f = fresh(e, i, item);
            assert(stm.results =~= prev.results.push(f));
            assert(cs(u).len() + item_contribs(e, items, u, i).len() == 0) by {
                if (cs(u) + item_contribs(e, items, u, i)).len() > 0 {
                    assert(has_url(prev.results, u));
                }
            }
            assert forall|x: int| 0 <= x < stm.results.len() implies (#[trigger] stm.results[x]).score
                == rat_sum(cs(stm.results[x].url) + item_contribs(e, items, stm.results[x].url, m)) by {
                if x == stm.results.len() - 1 {
                    assert(stm.results[x] == f);
                    assert(item_contribs(e, items, u, m) =~= item_contribs(e, items, u, i)
                        + seq![c]);
                    assert(cs(u) + item_contribs(e, items, u, m) =~= seq![c]);
                    assert(rat_sum(seq![c]) == rat_sum(Seq::<crate::score::Rat>::empty()).add(c))
                        by {
                        assert(seq![c].drop_last() =~= Seq::<crate::score::Rat>::empty());
                    }
                    let z = rat_sum(Seq::<crate::score::Rat>::empty());
                    assert(z.num == 0 && z.den == 1);
                    assert(0 * c.den == 0) by (nonlinear_arith);
                    assert(c.num * 1 == c.num) by (nonlinear_arith);
                    assert(1 * c.den == c.den) by (nonlinear_arith);
                    assert(z.add(c) =~= c);
                } else {
                    assert(stm.results[x] == prev.results[x]);
                    assert(prev.results[x].url != u);
                    assert(item_contribs(e, items, prev.results[x].url, m) =~= item_contribs(
                        e,
                        items,
                        prev.results[x].url,
                        i,
                    ));
                }
            }
            assert forall|url: Seq<char>| #[trigger] has_url(stm.results, url) <==> (cs(url)
                + item_contribs(e, items, url, m)).len() > 0 by {
                if url == u {
                    assert(stm.results[stm.results.len() - 1].url == u);
                    assert(has_url(stm.results, u));
                } else {
                    assert(item_contribs(e, items, url, m) =~= item_contribs(e, items, url, i));
                    if has_url(stm.results, url) {
                        let k = choose|k: int|
                            0 <= k < stm.results.len() && (#[trigger] stm.results[k]).url == url;
                        assert(k < prev.results.len());
                        assert(has_url(prev.results, url));
                    }
                    if has_url(prev.results, url) {
                        let k = choose|k: int|
                            0 <= k < prev.results.len() && (#[trigger] prev.results[k]).url == url;
                        assert(stm.results[k].url == url);
                        assert(has_url(stm.results, url));
                    }
                }
            }
            assert forall|a: int, b2: int| 0 <= a < b2 < stm.results.len() implies (
            #[trigger] stm.results[a]).url != (#[trigger] stm.results[b2]).url by {
                if b2 == stm.results.len() - 1 {
                    assert(stm.results[a] == prev.results[a]);
                    assert(!has_url(prev.results, u));
                } else {
                    assert(stm.results[a] == prev.results[a]);
                    assert(stm.results[b2] == prev.results[b2]);
                }
            }
        }
    }
}

proof fn lemma_scores_upto(pairs: Seq<(Engine, EngineResponseView)>, n: int)
    requires
        0 <= n <= pairs.len(),
    ensures
        forall|x: int|
            0 <= x < merge_fold_upto(pairs, n).results.len() ==> (#[trigger] merge_fold_upto(
                pairs,
                n,
            ).results[x]).score == rat_sum(
                contribs_upto(pairs, merge_fold_upto(pairs, n).results[x].url, n),
            ),
        forall|url: Seq<char>| #[trigger] has_url(merge_fold_upto(pairs, n).results, url)
            <==> contribs_upto(pairs, url, n).len() > 0,
    decreases n,
{
    if n == 0 {
        assert forall|url: Seq<char>| !(#[trigger] has_url(merge_fold_upto(pairs, 0).results, url)) by {
            if has_url(init_state().results, url) {
                let k = choose|k: int|
                    0 <= k < init_state().results.len() && (#[trigger] init_state().results[k]).url
                        == url;
            }
        }
    } else {
        lemma_scores_upto(pairs, n - 1);
        let st = merge_fold_upto(pairs, n - 1);
        let e = pairs[n - 1].0;
        let resp = pairs[n - 1].1;
        let items = resp.search_results;
        crate::merge::lemma_fold_upto_wf(pairs, n - 1);
        let cs = |url: Seq<char>| contribs_upto(pairs, url, n - 1);
        lemma_scores_items(st, e, items, items.len() as int, cs);
        let stm = fold_items(st, e, items, items.len() as int);
        assert(merge_fold_upto(pairs, n) == step_pair(st, e, resp));
        assert(merge_fold_upto(pairs, n).results == stm.results);
        assert forall|x: int| 0 <= x < stm.results.len() implies (#[trigger] stm.results[x]).score
            == rat_sum(contribs_upto(pairs, stm.results[x].url, n)) by {
            assert(stm.results[x].score == rat_sum(cs(stm.results[x].url) + item_contribs(
                e,
                items,
                stm.results[x].url,
                items.len() as int,
            )));
            assert(contribs_upto(pairs, stm.results[x].url, n) == cs(stm.results[x].url)
                + item_contribs(e, items, stm.results[x].url, items.len() as int));
        }
        assert forall|url: Seq<char>| #[trigger] has_url(stm.results, url) <==> contribs_upto(
            pairs,
            url,
            n,
        ).len() > 0 by {
            assert(has_url(stm.results, url) <==> (cs(url) + item_contribs(
                e,
                items,
                url,
                items.len() as int,
            )).len() > 0);
            assert(contribs_upto(pairs, url, n) == cs(url) + item_contribs(
                e,
                items,
                url,
                items.len() as int,
            ));
        }
    }
}

/// The score invariant: every merged result's accumulated score is exactly
/// the sum of the contributions `weight / (100 * (i + 1))` made to its url by
/// every hit of every input pair, and a url appears among the merged results
/// exactly when some input pair contributed to it.
pub proof fn lemma_score_is_contribution_sum(pairs: Seq<(Engine, EngineResponseView)>)
    ensures
        forall|x: int|
            0 <= x < merge_fold(pairs).results.len() ==> (#[trigger] merge_fold(
                pairs,
            ).results[x]).score == rat_sum(contributions(pairs, merge_fold(pairs).results[x].url)),
        forall|url: Seq<char>| #[trigger] has_url(merge_fold(pairs).results, url) <==> contributions(
            pairs,
            url,
        ).len() > 0,
{
    lemma_scores_upto(pairs, pairs.len() as int);
}

} // verus!
