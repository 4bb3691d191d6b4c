//! Merging per-engine results into one ranked aggregate.
//!
//! The merge is specified by a fold over the input pairs, processed in input
//! order. Each search hit of an engine contributes `weight / (100 * (i + 1))`
//! (weights are in hundredths) to the accumulated score of its url; the first
//! engine whose weight strictly exceeds the weights of every earlier
//! contributor owns the title and description. The featured snippet, answer
//! and infobox are single best-so-far slots won by strict weight comparison.
//! Finally the merged results are sorted by score, descending.
//!
//! Scores are exact fractions; a merge whose exact intermediate values do not
//! fit in 64 bits reports that instead of returning a rounded answer.

use vstd::assert_multisets_equal;
use vstd::multiset::Multiset;
use vstd::prelude::*;

use crate::engine::Engine;
use crate::response::Answer;
use crate::response::AutocompleteResult;
use crate::response::AnswerView;
use crate::response::EngineResponse;
use crate::response::EngineResponseView;
use crate::response::EngineSearchResult;
use crate::response::EngineSearchResultView;
use crate::response::FeaturedSnippet;
use crate::response::FeaturedSnippetView;
use crate::response::Infobox;
use crate::response::InfoboxView;
use crate::response::Response;
use crate::response::SearchResult;
use crate::response::SearchResultView;
use crate::score::Rat;
use crate::score::Score;

verus! {

broadcast use vstd::seq_lib::group_to_multiset_ensures;

/// The exact score one engine's hit at 0-indexed position `i` contributes:
/// `weight / (100 * (i + 1))`, with weights kept in hundredths.
pub open spec fn contribution(e: Engine, i: int) -> Rat {
    Rat { num: e.weight_spec(), den: 100 * (i + 1) }
}

/// Some merged result already carries this url.
pub open spec fn has_url(rs: Seq<SearchResultView>, url: Seq<char>) -> bool {
    exists|k: int| 0 <= k < rs.len() && (#[trigger] rs[k]).url == url
}

/// `j` is the first position carrying `url`.
pub open spec fn is_first_url(rs: Seq<SearchResultView>, url: Seq<char>, j: int) -> bool {
    &&& 0 <= j < rs.len()
    &&& rs[j].url == url
    &&& forall|k: int| 0 <= k < j ==> (#[trigger] rs[k]).url != url
}

/// The first position carrying `url` (meaningful when `has_url` holds).
pub open spec fn first_url(rs: Seq<SearchResultView>, url: Seq<char>) -> int {
    choose|j: int| is_first_url(rs, url, j)
}

/// Every engine in `engines` weighs strictly less than `e`.
pub open spec fn all_lighter(engines: Seq<Engine>, e: Engine) -> bool {
    forall|k: int| 0 <= k < engines.len() ==> (#[trigger] engines[k]).weight_spec()
        < e.weight_spec()
}

/// An existing merged result absorbing one more contribution for its url.
pub open spec fn bump(
    r: SearchResultView,
    e: Engine,
    i: int,
    item: EngineSearchResultView,
) -> SearchResultView {
    SearchResultView {
        url: r.url,
        title: if all_lighter(r.engines, e) {
            item.title
        } else {
            r.title
        },
        description: if all_lighter(r.engines, e) {
            item.description
        } else {
            r.description
        },
        engines: if r.engines.contains(e) {
            r.engines
        } else {
            r.engines.push(e)
        },
        score: r.score.add(contribution(e, i)),
    }
}

/// A url seen for the first time.
pub open spec fn fresh(e: Engine, i: int, item: EngineSearchResultView) -> SearchResultView {
    SearchResultView {
        url: item.url,
        title: item.title,
        description: item.description,
        engines: seq![e],
        score: contribution(e, i),
    }
}

/// One hit folded into the merged results.
pub open spec fn upsert(
    rs: Seq<SearchResultView>,
    e: Engine,
    i: int,
    item: EngineSearchResultView,
) -> Seq<SearchResultView> {
    if has_url(rs, item.url) {
        rs.update(first_url(rs, item.url), bump(rs[first_url(rs, item.url)], e, i, item))
    } else {
        rs.push(fresh(e, i, item))
    }
}

/// The exact values this hit's fold step produces fit in 64 bits.
pub open spec fn item_fits(
    rs: Seq<SearchResultView>,
    e: Engine,
    i: int,
    item: EngineSearchResultView,
) -> bool {
    &&& 100 * (i + 1) <= u64::MAX
    &&& (has_url(rs, item.url) ==> {
        let s = rs[first_url(rs, item.url)].score.add(contribution(e, i));
        s.num <= u64::MAX && s.den <= u64::MAX
    })
}

/// The running state of a merge: the results built so far, the three
/// single-winner slots, and whether every exact value so far fit in 64 bits.
#[verifier::ext_equal]
pub ghost struct MergeState {
    pub results: Seq<SearchResultView>,
    pub featured_snippet: Option<FeaturedSnippetView>,
    pub answer: Option<AnswerView>,
    pub infobox: Option<InfoboxView>,
    pub ok: bool,
}

pub open spec fn init_state() -> MergeState {
    MergeState {
        results: Seq::empty(),
        featured_snippet: None,
        answer: None,
        infobox: None,
        ok: true,
    }
}

pub open spec fn step_item(
    st: MergeState,
    e: Engine,
    i: int,
    item: EngineSearchResultView,
) -> MergeState {
    MergeState {
        results: upsert(st.results, e, i, item),
        featured_snippet: st.featured_snippet,
        answer: st.answer,
        infobox: st.infobox,
        ok: st.ok && item_fits(st.results, e, i, item),
    }
}

/// The state after folding the first `n` hits of one engine's list.
pub open spec fn fold_items(
    st: MergeState,
    e: Engine,
    items: Seq<EngineSearchResultView>,
    n: int,
) -> MergeState
    decreases n,
{
    if n <= 0 {
        st
    } else {
        step_item(fold_items(st, e, items, n - 1), e, n - 1, items[n - 1])
    }
}

/// The weight of the engine holding a slot; an empty slot weighs nothing.
pub open spec fn snippet_weight(o: Option<FeaturedSnippetView>) -> int {
    match o {
        Some(s) => s.engine.weight_spec(),
        None => 0,
    }
}

pub open spec fn answer_weight(o: Option<AnswerView>) -> int {
    match o {
        Some(a) => a.engine.weight_spec(),
        None => 0,
    }
}

pub open spec fn infobox_weight(o: Option<InfoboxView>) -> int {
    match o {
        Some(b) => b.engine.weight_spec(),
        None => 0,
    }
}

/// One engine's slot candidates folded in: a candidate takes a slot only if
/// its engine strictly outweighs the current holder.
pub open spec fn step_slots(st: MergeState, e: Engine, resp: EngineResponseView) -> MergeState {
    MergeState {
        results: st.results,
        featured_snippet: match resp.featured_snippet {
            Some(fs) => if snippet_weight(st.featured_snippet) < e.weight_spec() {
                Some(
                    FeaturedSnippetView {
                        url: fs.url,
                        title: fs.title,
                        description: fs.description,
                        engine: e,
                    },
                )
            } else {
                st.featured_snippet
            },
            None => st.featured_snippet,
        },
        answer: match resp.answer_html {
            Some(html) => if answer_weight(st.answer) < e.weight_spec() {
                Some(AnswerView { html, engine: e })
            } else {
                st.answer
            },
            None => st.answer,
        },
        infobox: match resp.infobox_html {
            Some(html) => if infobox_weight(st.infobox) < e.weight_spec() {
                Some(InfoboxView { html, engine: e })
            } else {
                st.infobox
            },
            None => st.infobox,
        },
        ok: st.ok,
    }
}

/// One engine's whole response folded in: every hit, then the slots.
pub open spec fn step_pair(st: MergeState, e: Engine, resp: EngineResponseView) -> MergeState {
    step_slots(fold_items(st, e, resp.search_results, resp.search_results.len() as int), e, resp)
}

/// The merge of the first `n` input pairs, in input order.
pub open spec fn merge_fold_upto(pairs: Seq<(Engine, EngineResponseView)>, n: int) -> MergeState
    decreases n,
{
    if n <= 0 {
        init_state()
    } else {
        merge_fold_upto(pairs, n - 1).step_with(pairs[n - 1].0, pairs[n - 1].1)
    }
}

impl MergeState {
    pub open spec fn step_with(self, e: Engine, resp: EngineResponseView) -> MergeState {
        step_pair(self, e, resp)
    }
}

/// The merge of the whole input.
pub open spec fn merge_fold(pairs: Seq<(Engine, EngineResponseView)>) -> MergeState {
    merge_fold_upto(pairs, pairs.len() as int)
}

/// The spec view of an exec input vector.
pub open spec fn pairs_view(v: Seq<(Engine, EngineResponse)>) -> Seq<(Engine, EngineResponseView)> {
    v.map_values(|p: (Engine, EngineResponse)| (p.0, p.1@))
}

/// The spec view of an exec result vector.
pub open spec fn results_view(v: Seq<SearchResult>) -> Seq<SearchResultView> {
    v.map_values(|r: SearchResult| r@)
}

/// Scores never increase along the sequence.
pub open spec fn sorted_desc(rs: Seq<SearchResultView>) -> bool {
    forall|i: int, j: int|
        0 <= i <= j < rs.len() ==> (#[trigger] rs[j]).score.le((#[trigger] rs[i]).score)
}

/// No url occurs twice.
pub open spec fn distinct_urls(rs: Seq<SearchResultView>) -> bool {
    forall|i: int, j: int|
        0 <= i < j < rs.len() ==> (#[trigger] rs[i]).url != (#[trigger] rs[j]).url
}

/// Every merged result is well formed: a positive exact score denominator, a
/// non-negative numerator, and at least one contributing engine.
pub open spec fn results_wf(rs: Seq<SearchResultView>) -> bool {
    forall|i: int|
        0 <= i < rs.len() ==> ((#[trigger] rs[i]).score.wf() && rs[i].engines.len() >= 1)
}

/// A first occurrence is unique, so `first_url` returns exactly it.
pub proof fn lemma_is_first_url(rs: Seq<SearchResultView>, url: Seq<char>, j: int)
    requires
        is_first_url(rs, url, j),
    ensures
        has_url(rs, url),
        first_url(rs, url) == j,
{
    assert(has_url(rs, url));
    let j2 = first_url(rs, url);
    assert(is_first_url(rs, url, j2));
    if j2 < j {
        assert(rs[j2].url == url);
        assert(false);
    }
    if j < j2 {
        assert(rs[j].url == url);
        assert(false);
    }
}

/// When a url is present at all, it has a first occurrence.
pub proof fn lemma_has_first_url(rs: Seq<SearchResultView>, url: Seq<char>)
    requires
        has_url(rs, url),
    ensures
        is_first_url(rs, url, first_url(rs, url)),
    decreases rs.len(),
{
    if rs[0].url == url {
        lemma_is_first_url(rs, url, 0);
    } else {
        let k = choose|k: int| 0 <= k < rs.len() && (#[trigger] rs[k]).url == url;
        assert(rs.drop_first()[k - 1] == rs[k]);
        assert(has_url(rs.drop_first(), url));
        lemma_has_first_url(rs.drop_first(), url);
        let j = first_url(rs.drop_first(), url);
        assert(rs.drop_first()[j] == rs[j + 1]);
        assert forall|m: int| 0 <= m < j + 1 implies (#[trigger] rs[m]).url != url by {
            if m > 0 {
                assert(rs.drop_first()[m - 1] == rs[m]);
            }
        }
        assert(is_first_url(rs, url, j + 1));
        lemma_is_first_url(rs, url, j + 1);
    }
}

/// A fold that has overflowed stays overflowed.
pub proof fn lemma_fold_items_ok_prefix(
    st: MergeState,
    e: Engine,
    items: Seq<EngineSearchResultView>,
    m: int,
    n: int,
)
    requires
        0 <= m <= n,
        !fold_items(st, e, items, m).ok,
    ensures
        !fold_items(st, e, items, n).ok,
    decreases n - m,
{
    if m < n {
        lemma_fold_items_ok_prefix(st, e, items, m, n - 1);
    }
}

/// Folding hits never touches the three slots.
pub proof fn lemma_fold_items_slots(
    st: MergeState,
    e: Engine,
    items: Seq<EngineSearchResultView>,
    n: int,
)
    ensures
        fold_items(st, e, items, n).featured_snippet == st.featured_snippet,
        fold_items(st, e, items, n).answer == st.answer,
        fold_items(st, e, items, n).infobox == st.infobox,
    decreases n,
{
    if n > 0 {
        lemma_fold_items_slots(st, e, items, n - 1);
    }
}

/// A merge that has overflowed stays overflowed.
pub proof fn lemma_fold_upto_ok_prefix(pairs: Seq<(Engine, EngineResponseView)>, m: int, n: int)
    requires
        0 <= m <= n,
        !merge_fold_upto(pairs, m).ok,
    ensures
        !merge_fold_upto(pairs, n).ok,
    decreases n - m,
{
    if m < n {
        lemma_fold_upto_ok_prefix(pairs, m, n - 1);
        let st = merge_fold_upto(pairs, n - 1);
        lemma_fold_items_ok_prefix(
            st,
            pairs[n - 1].0,
            pairs[n - 1].1.search_results,
            0,
            pairs[n - 1].1.search_results.len() as int,
        );
    }
}

/// Folding hits preserves well-formedness and url distinctness.
pub proof fn lemma_fold_items_wf(
    st: MergeState,
    e: Engine,
    items: Seq<EngineSearchResultView>,
    n: int,
)
    requires
        results_wf(st.results),
        distinct_urls(st.results),
        0 <= n,
    ensures
        results_wf(fold_items(st, e, items, n).results),
        distinct_urls(fold_items(st, e, items, n).results),
    decreases n,
{
    if n > 0 {
        lemma_fold_items_wf(st, e, items, n - 1);
        let prev = fold_items(st, e, items, n - 1);
        let i = n - 1;
        let item = items[i];
        let rs = prev.results;
        assert(e.weight_spec() >= 0);
        assert(100 * (i + 1) >= 1);
        if has_url(rs, item.url) {
            lemma_has_first_url(rs, item.url);
            let j = first_url(rs, item.url);
            let b = bump(rs[j], e, i, item);
            assert(b.score.den >= 1 && b.score.num >= 0) by (nonlinear_arith)
                requires
                    rs[j].score.den >= 1,
                    rs[j].score.num >= 0,
                    100 * (i + 1) >= 1,
                    e.weight_spec() >= 0,
                    b.score.den == rs[j].score.den * (100 * (i + 1)),
                    b.score.num == rs[j].score.num * (100 * (i + 1)) + e.weight_spec()
                        * rs[j].score.den,
            ;
            let out = upsert(rs, e, i, item);
            assert(out =~= rs.update(j, b));
            assert forall|a: int, c: int| 0 <= a < c < out.len() implies (#[trigger] out[a]).url
                != (#[trigger] out[c]).url by {
                assert(out[a].url == rs[a].url && out[c].url == rs[c].url);
            }
        } else {
            let f = fresh(e, i, item);
            assert(f.score.den >= 1 && f.score.num >= 0);
        }
    }
}

/// The merge fold preserves well-formedness and url distinctness.
pub proof fn lemma_fold_upto_wf(pairs: Seq<(Engine, EngineResponseView)>, n: int)
    requires
        0 <= n,
    ensures
        results_wf(merge_fold_upto(pairs, n).results),
        distinct_urls(merge_fold_upto(pairs, n).results),
    decreases n,
{
    if n > 0 {
        lemma_fold_upto_wf(pairs, n - 1);
        lemma_fold_items_wf(
            merge_fold_upto(pairs, n - 1),
            pairs[n - 1].0,
            pairs[n - 1].1.search_results,
            pairs[n - 1].1.search_results.len() as int,
        );
    }
}

/// A permutation of a sequence with pairwise-distinct keys again has
/// pairwise-distinct keys.
pub proof fn lemma_permutation_distinct<T>(s: Seq<T>, t: Seq<T>, key: spec_fn(T) -> Seq<char>)
    requires
        s.to_multiset() == t.to_multiset(),
        forall|i: int, j: int| 0 <= i < j < s.len() ==> key(#[trigger] s[i]) != key(#[trigger] s[j]),
    ensures
        forall|i: int, j: int| 0 <= i < j < t.len() ==> key(#[trigger] t[i]) != key(#[trigger] t[j]),
{
    assert forall|i: int, j: int| 0 <= i < j < t.len() implies key(#[trigger] t[i]) != key(
        #[trigger] t[j],
    ) by {
        if key(t[i]) == key(t[j]) {
            let x = t[i];
            let y = t[j];
            assert(t.remove(i)[j - 1] == y);
            assert(t.remove(i).contains(y));
            assert(t.remove(i).to_multiset() =~= t.to_multiset().remove(x));
            assert(t.to_multiset().remove(x).count(y) > 0);
            assert(t.to_multiset().count(x) > 0);
            assert(s.to_multiset().count(x) > 0);
            assert(s.contains(x));
            let a = choose|a: int| 0 <= a < s.len() && s[a] == x;
            assert(s.remove(a).to_multiset() =~= s.to_multiset().remove(x));
            assert(s.remove(a).to_multiset().count(y) > 0);
            assert(s.remove(a).contains(y));
            let b0 = choose|b: int| 0 <= b < s.remove(a).len() && s.remove(a)[b] == y;
            let b = if b0 < a {
                b0
            } else {
                b0 + 1
            };
            assert(s[b] == y);
            assert(b != a);
            if a < b {
                assert(key(s[a]) != key(s[b]));
            } else {
                assert(key(s[b]) != key(s[a]));
            }
            assert(false);
        }
    }
}

/// The exact contribution of one hit, or `None` when `100 * (i + 1)` does not
/// fit in 64 bits.
fn contribution_score(e: Engine, i: usize) -> (r: Option<Score>)
    ensures
        r is Some <==> 100 * (i + 1) <= u64::MAX,
        r is Some ==> r.unwrap()@ == contribution(e, i as int) && r.unwrap().wf(),
{
    let d: u128 = 100u128 * (i as u128 + 1);
    if d <= u64::MAX as u128 {
        Some(Score::new(e.weight(), d as u64))
    } else {
        None
    }
}

/// The first merged result carrying `url`, if any.
fn find_result(results: &Vec<SearchResult>, url: &String) -> (r: Option<usize>)
    ensures
        match r {
            Some(j) => is_first_url(results_view(results@), url@, j as int),
            None => !has_url(results_view(results@), url@),
        },
{
    let mut k: usize = 0;
    while k < results.len()
        invariant
            k <= results@.len(),
            forall|m: int| 0 <= m < k ==> (#[trigger] results_view(results@)[m]).url != url@,
        decreases results@.len() - k,
    {
        if results[k].url == *url {
            return Some(k);
        }
        k = k + 1;
    }
    None
}

/// The heaviest weight among `engines` (zero when there are none).
fn max_engine_weight(engines: &Vec<Engine>) -> (w: u64)
    ensures
        forall|k: int| 0 <= k < engines@.len() ==> (#[trigger] engines@[k]).weight_spec()
            <= w as int,
        engines@.len() == 0 ==> w == 0,
        engines@.len() > 0 ==> exists|k: int|
            0 <= k < engines@.len() && (#[trigger] engines@[k]).weight_spec() == w as int,
{
    let mut w: u64 = 0;
    let mut k: usize = 0;
    while k < engines.len()
        invariant
            k <= engines@.len(),
            forall|m: int| 0 <= m < k ==> (#[trigger] engines@[m]).weight_spec() <= w as int,
            k == 0 ==> w == 0,
            k > 0 ==> exists|m: int|
                0 <= m < k && (#[trigger] engines@[m]).weight_spec() == w as int,
            w == 0 || w >= 1,
        decreases engines@.len() - k,
    {
        let we = engines[k].weight();
        if we > w {
            w = we;
        } else {
            proof {
                if k == 0 {
                    assert(engines@[0].weight_spec() >= 1);
                    assert(false);
                }
            }
        }
        k = k + 1;
    }
    w
}

/// Whether `engines` already records `e`.
fn engines_contains(engines: &Vec<Engine>, e: Engine) -> (r: bool)
    ensures
        r == engines@.contains(e),
{
    let mut k: usize = 0;
    while k < engines.len()
        invariant
            k <= engines@.len(),
            forall|m: int| 0 <= m < k ==> engines@[m] != e,
        decreases engines@.len() - k,
    {
        if engines[k] == e {
            return true;
        }
        k = k + 1;
    }
    false
}

/// An owned copy of a contributor list.
fn copy_engines(engines: &Vec<Engine>) -> (r: Vec<Engine>)
    ensures
        r@ == engines@,
{
    let mut out: Vec<Engine> = Vec::new();
    let mut k: usize = 0;
    while k < engines.len()
        invariant
            k <= engines@.len(),
            out@ == engines@.take(k as int),
        decreases engines@.len() - k,
    {
        out.push(engines[k]);
        proof {
            assert(out@ =~= engines@.take(k as int + 1));
        }
        k = k + 1;
    }
    proof {
        assert(engines@.take(engines@.len() as int) =~= engines@);
    }
    out
}

/// Sort merged results by score, descending. The output is a permutation of
/// the input.
fn sort_results(input: Vec<SearchResult>) -> (r: Vec<SearchResult>)
    requires
        results_wf(results_view(input@)),
    ensures
        r@.len() == input@.len(),
        results_view(r@).to_multiset() == results_view(input@).to_multiset(),
        sorted_desc(results_view(r@)),
        results_wf(results_view(r@)),
{
    let ghost orig = results_view(input@);
    let mut rem = input;
    let mut out: Vec<SearchResult> = Vec::new();
    while rem.len() > 0
        invariant
            results_view(out@).to_multiset().add(results_view(rem@).to_multiset())
                =~= orig.to_multiset(),
            out@.len() + rem@.len() == orig.len(),
            sorted_desc(results_view(out@)),
            forall|a: int, b: int|
                0 <= a < out@.len() && 0 <= b < rem@.len() ==> (#[trigger] results_view(
                    rem@,
                )[b]).score.le((#[trigger] results_view(out@)[a]).score),
            results_wf(results_view(out@)),
            results_wf(results_view(rem@)),
        decreases rem@.len(),
    {
        let mut best: usize = 0;
        let mut k: usize = 1;
        while k < rem.len()
            invariant
                0 <= best < k <= rem@.len(),
                rem@.len() > 0,
                results_wf(results_view(rem@)),
                forall|m: int| 0 <= m < k ==> (#[trigger] results_view(rem@)[m]).score.le(
                    results_view(rem@)[best as int].score),
            decreases rem@.len() - k,
        {
            proof {
                let rv = results_view(rem@);
                assert(rv[k as int].score.wf());
                assert(rv[best as int].score.wf());
            }
            let ghost oldbest = best as int;
            if rem[k].score.ge(&rem[best].score) {
                best = k;
                proof {
                    let rv = results_view(rem@);
                    assert forall|m: int| 0 <= m < k + 1 implies (#[trigger] rv[m]).score.le(
                        rv[k as int].score,
                    ) by {
                        if m < k {
                            assert(rv[m].score.le(rv[oldbest].score));
                            crate::score::lemma_rat_le_trans(
                                rv[m].score,
                                rv[oldbest].score,
                                rv[k as int].score,
                            );
                        }
                    }
                }
            } else {
                proof {
                    let rv = results_view(rem@);
                    crate::score::lemma_rat_le_total(rv[k as int].score, rv[best as int].score);
                }
            }
            k = k + 1;
        }
        let ghost rv = results_view(rem@);
        let ghost ov = results_view(out@);
        let x = rem.remove(best);
        out.push(x);
        proof {
            assert(rv[best as int] == x@);
            assert(results_view(rem@) =~= rv.remove(best as int));
            assert(results_view(out@) =~= ov.push(x@));
            assert(rv.contains(x@));
            assert(rv.to_multiset().count(x@) > 0);
            assert_multisets_equal!(
                results_view(out@).to_multiset().add(results_view(rem@).to_multiset()),
                ov.to_multiset().add(rv.to_multiset())
            );
            let nov = results_view(out@);
            assert forall|a: int, b: int|
                0 <= a <= b < nov.len() implies (#[trigger] nov[b]).score.le(
                (#[trigger] nov[a]).score) by {
                if b == nov.len() - 1 {
                    assert(nov[b] == x@);
                    if a < b {
                        assert(nov[a] == ov[a]);
                        assert(rv[best as int].score.le(ov[a].score));
                    } else {
                        let s = x@.score;
                        assert(s.num * s.den <= s.num * s.den);
                    }
                } else {
                    assert(nov[a] == ov[a] && nov[b] == ov[b]);
                }
            }
            let nrv = results_view(rem@);
            assert forall|a: int, b: int|
                0 <= a < nov.len() && 0 <= b < nrv.len() implies (#[trigger] nrv[b]).score.le(
                (#[trigger] nov[a]).score) by {
                let ob = if b < best {
                    b
                } else {
                    b + 1
                };
                assert(nrv[b] == rv[ob]);
                assert(rv[ob].score.le(rv[best as int].score));
                if a < nov.len() - 1 {
                    assert(nov[a] == ov[a]);
                    assert(rv[best as int].score.le(ov[a].score));
                    let p = rv[ob].score;
                    let q = rv[best as int].score;
                    let r = ov[a].score;
                    assert(p.le(r)) by (nonlinear_arith)
                        requires
                            p.den >= 1,
                            q.den >= 1,
                            r.den >= 1,
                            p.le(q),
                            q.le(r),
                    ;
                } else {
                    assert(nov[a] == x@);
                }
            }
        }
    }
    proof {
        assert(results_view(rem@).to_multiset() =~= Multiset::<SearchResultView>::empty());
        assert(results_view(out@).to_multiset().add(Multiset::<SearchResultView>::empty())
            =~= results_view(out@).to_multiset());
    }
    out
}

/// Merge every engine's response into one ranked aggregate.
///
/// Returns `None` exactly when some exact intermediate score does not fit in
/// 64 bits; otherwise the aggregate holds the folded slots and a
/// score-descending permutation of the folded results, whose urls are
/// pairwise distinct.
pub fn merge_engine_responses(responses: &Vec<(Engine, EngineResponse)>) -> (r: Option<Response>)
    ensures
        r is Some <==> merge_fold(pairs_view(responses@)).ok,
        r is Some ==> {
            let st = merge_fold(pairs_view(responses@));
            let resp = r.unwrap()@;
            &&& resp.featured_snippet == st.featured_snippet
            &&& resp.answer == st.answer
            &&& resp.infobox == st.infobox
            &&& resp.search_results.to_multiset() == st.results.to_multiset()
            &&& resp.search_results.len() == st.results.len()
            &&& sorted_desc(resp.search_results)
            &&& distinct_urls(resp.search_results)
            &&& results_wf(resp.search_results)
        },
{
    let ghost pv = pairs_view(responses@);
    let mut results: Vec<SearchResult> = Vec::new();
    let mut featured: Option<FeaturedSnippet> = None;
    let mut answer: Option<Answer> = None;
    let mut infobox: Option<Infobox> = None;

    let mut idx: usize = 0;
    while idx < responses.len()
        invariant
            idx <= responses@.len(),
            pv == pairs_view(responses@),
            pv.len() == responses@.len(),
            merge_fold_upto(pv, idx as int).ok,
            results_view(results@) == merge_fold_upto(pv, idx as int).results,
            snippet_view(featured) == merge_fold_upto(pv, idx as int).featured_snippet,
            answer_view(answer) == merge_fold_upto(pv, idx as int).answer,
            infobox_view(infobox) == merge_fold_upto(pv, idx as int).infobox,
        decreases responses@.len() - idx,
    {
        let pair = &responses[idx];
        let engine = pair.0;
        let ghost st0 = merge_fold_upto(pv, idx as int);
        let ghost items = pv[idx as int].1.search_results;
        proof {
            assert(pv[idx as int] == (responses@[idx as int].0, responses@[idx as int].1@));
            assert(items == pair.1@.search_results);
            lemma_fold_upto_wf(pv, idx as int);
        }

        let mut i: usize = 0;
        while i < pair.1.search_results.len()
            invariant
                i <= pair.1.search_results@.len(),
                idx < responses@.len(),
                pv == pairs_view(responses@),
                pv.len() == responses@.len(),
                engine == pv[idx as int].0,
                items == pv[idx as int].1.search_results,
                st0 == merge_fold_upto(pv, idx as int),
                items == pair.1@.search_results,
                items.len() == pair.1.search_results@.len(),
                fold_items(st0, engine, items, i as int).ok,
                results_view(results@) == fold_items(st0, engine, items, i as int).results,
                results_wf(st0.results),
                distinct_urls(st0.results),
            decreases pair.1.search_results@.len() - i,
        {
            let item = &pair.1.search_results[i];
            let ghost sti = fold_items(st0, engine, items, i as int);
            proof {
                lemma_fold_items_wf(st0, engine, items, i as int);
                assert(items[i as int] == item@);
            }
            let c_opt = contribution_score(engine, i);
            let c = match c_opt {
                Some(c) => c,
                None => {
                    proof {
                        assert(!item_fits(sti.results, engine, i as int, item@));
                        assert(!fold_items(st0, engine, items, i as int + 1).ok);
                        lemma_fold_items_ok_prefix(
                            st0,
                            engine,
                            items,
                            i as int + 1,
                            items.len() as int,
                        );
                        assert(!fold_items(st0, engine, items, items.len() as int).ok);
                        assert(merge_fold_upto(pv, idx as int + 1) == step_pair(
                            st0,
                            engine,
                            pv[idx as int].1,
                        ));
                        assert(!merge_fold_upto(pv, idx as int + 1).ok);
                        lemma_fold_upto_ok_prefix(pv, idx as int + 1, pv.len() as int);
                        assert(!merge_fold(pv).ok);
                    }
                    return None;
                },
            };
            match find_result(&results, &item.url) {
                Some(j) => {
                    proof {
                        lemma_is_first_url(results_view(results@), item.url@, j as int);
                    }
                    let maxw = max_engine_weight(&results[j].engines);
                    let repl = engine.weight() > maxw;
                    let has_e = engines_contains(&results[j].engines, engine);
                    let sc = results[j].score;
                    proof {
                        assert(results_view(results@)[j as int] == results@[j as int]@);
                        assert(sc.wf());
                        assert(repl == all_lighter(results@[j as int]@.engines, engine));
                    }
                    match sc.checked_add(c) {
                        Some(s) => {
                            let new_url = results[j].url.clone();
                            let new_title = if repl {
                                item.title.clone()
                            } else {
                                results[j].title.clone()
                            };
                            let new_description = if repl {
                                item.description.clone()
                            } else {
                                results[j].description.clone()
                            };
                            let mut new_engines = copy_engines(&results[j].engines);
                            if !has_e {
                                new_engines.push(engine);
                            }
                            let ghost old_rv = results_view(results@);
                            let new_entry = SearchResult {
                                url: new_url,
                                title: new_title,
                                description: new_description,
                                engines: new_engines,
                                score: s,
                            };
                            results[j] = new_entry;
                            proof {
                                assert(results_view(results@) =~= upsert(
                                    old_rv,
                                    engine,
                                    i as int,
                                    item@,
                                ));
                                assert(item_fits(sti.results, engine, i as int, item@));
                                assert(results_view(results@) == fold_items(
                                    st0,
                                    engine,
                                    items,
                                    i as int + 1,
                                ).results);
                            }
                        },
                        None => {
                            proof {
                                assert(!item_fits(sti.results, engine, i as int, item@));
                                assert(!fold_items(st0, engine, items, i as int + 1).ok);
                                lemma_fold_items_ok_prefix(
                                    st0,
                                    engine,
                                    items,
                                    i as int + 1,
                                    items.len() as int,
                                );
                                assert(!fold_items(st0, engine, items, items.len() as int).ok);
                                assert(merge_fold_upto(pv, idx as int + 1) == step_pair(
                                    st0,
                                    engine,
                                    pv[idx as int].1,
                                ));
                                lemma_fold_upto_ok_prefix(pv, idx as int + 1, pv.len() as int);
                                assert(!merge_fold(pv).ok);
                            }
                            return None;
                        },
                    }
                },
                None => {
                    let mut new_engines: Vec<Engine> = Vec::new();
                    new_engines.push(engine);
                    let ghost old_rv = results_view(results@);
                    results.push(
                        SearchResult {
                            url: item.url.clone(),
                            title: item.title.clone(),
                            description: item.description.clone(),
                            engines: new_engines,
                            score: c,
                        },
                    );
                    proof {
                        assert(results_view(results@) =~= upsert(old_rv, engine, i as int, item@));
                        assert(item_fits(sti.results, engine, i as int, item@));
                        assert(results_view(results@) == fold_items(
                            st0,
                            engine,
                            items,
                            i as int + 1,
                        ).results);
                    }
                },
            }
            i = i + 1;
        }

        // slots
        let ghost st_items = fold_items(st0, engine, items, items.len() as int);
        match &pair.1.featured_snippet {
            Some(fs) => {
                let cw = match &featured {
                    Some(f) => f.engine.weight(),
                    None => 0,
                };
                if engine.weight() > cw {
                    featured = Some(
                        FeaturedSnippet {
                            url: fs.url.clone(),
                            title: fs.title.clone(),
                            description: fs.description.clone(),
                            engine,
                        },
                    );
                }
            },
            None => {},
        }
        match &pair.1.answer_html {
            Some(html) => {
                let cw = match &answer {
                    Some(a) => a.engine.weight(),
                    None => 0,
                };
                if engine.weight() > cw {
                    answer = Some(Answer { html: html.clone(), engine });
                }
            },
            None => {},
        }
        match &pair.1.infobox_html {
            Some(html) => {
                let cw = match &infobox {
                    Some(b) => b.engine.weight(),
                    None => 0,
                };
                if engine.weight() > cw {
                    infobox = Some(Infobox { html: html.clone(), engine });
                }
            },
            None => {},
        }
        proof {
            let stepped = step_pair(st0, engine, pv[idx as int].1);
            lemma_fold_items_slots(st0, engine, items, items.len() as int);
            assert(merge_fold_upto(pv, idx as int + 1) == stepped);
            assert(snippet_view(featured) == stepped.featured_snippet);
            assert(answer_view(answer) == stepped.answer);
            assert(infobox_view(infobox) == stepped.infobox);
        }
        idx = idx + 1;
    }

    proof {
        lemma_fold_upto_wf(pv, pv.len() as int);
    }
    let ghost st = merge_fold(pv);
    let ghost unsorted = results_view(results@);
    let sorted = sort_results(results);
    proof {
        lemma_permutation_distinct(
            unsorted,
            results_view(sorted@),
            |r: SearchResultView| r.url,
        );
    }
    Some(Response { search_results: sorted, featured_snippet: featured, answer, infobox })
}


/// One autocomplete suggestion treated as a hit keyed by its own text.
pub open spec fn suggestion_item(s: Seq<char>) -> EngineSearchResultView {
    EngineSearchResultView { url: s, title: s, description: s }
}

/// One engine's suggestion list treated as a plain response: suggestions are
/// merged with the same positional weighted scoring as search hits, keyed by
/// exact text, with no snippet, answer or infobox.
pub open spec fn suggestion_response(items: Seq<Seq<char>>) -> EngineResponseView {
    EngineResponseView {
        search_results: items.map_values(|s: Seq<char>| suggestion_item(s)),
        featured_snippet: None,
        answer_html: None,
        infobox_html: None,
    }
}

/// The spec view of an exec autocomplete input vector.
pub open spec fn ac_pairs_view(v: Seq<(Engine, Vec<String>)>) -> Seq<(Engine, EngineResponseView)> {
    v.map_values(
        |p: (Engine, Vec<String>)|
            (p.0, suggestion_response(p.1@.map_values(|s: String| s@))),
    )
}

/// Merge per-engine suggestion lists into one ranked, scored suggestion list.
///
/// Suggestions are scored exactly like search hits (`weight / (100 * (i + 1))`,
/// summed over the engines listing the same text) and returned in descending
/// score order with duplicates merged. Returns `None` exactly when some exact
/// intermediate score does not fit in 64 bits.
pub fn merge_autocomplete_scored(responses: &Vec<(Engine, Vec<String>)>) -> (r: Option<
    Vec<AutocompleteResult>,
>)
    ensures
        r is Some <==> merge_fold(ac_pairs_view(responses@)).ok,
        r is Some ==> exists|sv: Seq<SearchResultView>|
            {
                &&& sv.to_multiset() == merge_fold(ac_pairs_view(responses@)).results.to_multiset()
                &&& sorted_desc(sv)
                &&& distinct_urls(sv)
                &&& r.unwrap()@.map_values(|a: AutocompleteResult| a@.query) == sv.map_values(
                    |x: SearchResultView| x.url,
                )
                &&& r.unwrap()@.map_values(|a: AutocompleteResult| a@.score) == sv.map_values(
                    |x: SearchResultView| x.score,
                )
            },
{
    let ghost av = ac_pairs_view(responses@);
    let mut conv: Vec<(Engine, EngineResponse)> = Vec::new();
    let mut idx: usize = 0;
    while idx < responses.len()
        invariant
            idx <= responses@.len(),
            av == ac_pairs_view(responses@),
            av.len() == responses@.len(),
            conv@.len() == idx,
            forall|k: int| 0 <= k < idx ==> #[trigger] pairs_view(conv@)[k] == av[k],
        decreases responses@.len() - idx,
    {
        let pair = &responses[idx];
        let mut items: Vec<EngineSearchResult> = Vec::new();
        let mut n: usize = 0;
        while n < pair.1.len()
            invariant
                n <= pair.1@.len(),
                items@.len() == n,
                forall|k: int| 0 <= k < n ==> #[trigger] items@[k]@ == suggestion_item(
                    pair.1@[k]@,
                ),
            decreases pair.1@.len() - n,
        {
            let s = &pair.1[n];
            items.push(
                EngineSearchResult { url: s.clone(), title: s.clone(), description: s.clone() },
            );
            n = n + 1;
        }
        let resp = EngineResponse {
            search_results: items,
            featured_snippet: None,
            answer_html: None,
            infobox_html: None,
        };
        let ghost rv = resp@;
        proof {
            assert(rv.search_results =~= suggestion_response(
                pair.1@.map_values(|s: String| s@),
            ).search_results);
            assert(rv =~= suggestion_response(pair.1@.map_values(|s: String| s@)));
            assert(av[idx as int] == (pair.0, suggestion_response(
                pair.1@.map_values(|s: String| s@),
            )));
        }
        let ghost pre = conv@;
        conv.push((pair.0, resp));
        proof {
            assert(conv@[idx as int].1@ == rv);
            assert(pairs_view(conv@)[idx as int] == (conv@[idx as int].0, conv@[idx as int].1@));
            assert(pairs_view(conv@)[idx as int] == av[idx as int]);
            assert forall|k: int| 0 <= k < idx + 1 implies #[trigger] pairs_view(conv@)[k]
                == av[k] by {
                if k < idx {
                    assert(conv@[k] == pre[k]);
                    assert(pairs_view(conv@)[k] == (conv@[k].0, conv@[k].1@));
                    assert(pairs_view(pre)[k] == (pre[k].0, pre[k].1@));
                }
            }
        }
        idx = idx + 1;
    }
    proof {
        assert(pairs_view(conv@) =~= av);
    }
    match merge_engine_responses(&conv) {
        Some(resp) => {
            let ghost sv = results_view(resp.search_results@);
            let mut out: Vec<AutocompleteResult> = Vec::new();
            let mut k: usize = 0;
            while k < resp.search_results.len()
                invariant
                    k <= resp.search_results@.len(),
                    sv == results_view(resp.search_results@),
                    sv.len() == resp.search_results@.len(),
                    out@.len() == k,
                    forall|m: int| 0 <= m < k ==> (#[trigger] out@[m])@.query == sv[m].url
                        && out@[m]@.score == sv[m].score,
                decreases resp.search_results@.len() - k,
            {
                out.push(
                    AutocompleteResult {
                        query: resp.search_results[k].url.clone(),
                        score: resp.search_results[k].score,
                    },
                );
                k = k + 1;
            }
            proof {
                assert(resp@.search_results == sv);
                assert(out@.map_values(|a: AutocompleteResult| a@.query) =~= sv.map_values(
                    |x: SearchResultView| x.url,
                ));
                assert(out@.map_values(|a: AutocompleteResult| a@.score) =~= sv.map_values(
                    |x: SearchResultView| x.score,
                ));
            }
            Some(out)
        },
        None => None,
    }
}

/// Merge per-engine suggestion lists into one ranked suggestion list: the
/// scored merge with the scores dropped from the output.
pub fn merge_autocomplete_responses(responses: &Vec<(Engine, Vec<String>)>) -> (r: Option<
    Vec<String>,
>)
    ensures
        r is Some <==> merge_fold(ac_pairs_view(responses@)).ok,
        r is Some ==> exists|sv: Seq<SearchResultView>|
            {
                &&& sv.to_multiset() == merge_fold(ac_pairs_view(responses@)).results.to_multiset()
                &&& sorted_desc(sv)
                &&& distinct_urls(sv)
                &&& r.unwrap()@.map_values(|s: String| s@) == sv.map_values(
                    |x: SearchResultView| x.url,
                )
            },
{
    match merge_autocomplete_scored(responses) {
        Some(scored) => {
            let ghost sv = choose|sv: Seq<SearchResultView>|
                {
                    &&& sv.to_multiset() == merge_fold(
                        ac_pairs_view(responses@),
                    ).results.to_multiset()
                    &&& sorted_desc(sv)
                    &&& distinct_urls(sv)
                    &&& scored@.map_values(|a: AutocompleteResult| a@.query) == sv.map_values(
                        |x: SearchResultView| x.url,
                    )
                    &&& scored@.map_values(|a: AutocompleteResult| a@.score) == sv.map_values(
                        |x: SearchResultView| x.score,
                    )
                };
            let mut out: Vec<String> = Vec::new();
            let mut k: usize = 0;
            while k < scored.len()
                invariant
                    k <= scored@.len(),
                    out@.len() == k,
                    forall|m: int| 0 <= m < k ==> (#[trigger] out@[m])@ == scored@[m]@.query,
                decreases scored@.len() - k,
            {
                out.push(scored[k].query.clone());
                k = k + 1;
            }
            proof {
                assert(scored@.map_values(|a: AutocompleteResult| a@.query) == sv.map_values(
                    |x: SearchResultView| x.url,
                ));
                assert(out@.map_values(|s: String| s@) =~= sv.map_values(
                    |x: SearchResultView| x.url,
                ));
            }
            Some(out)
        },
        None => None,
    }
}

/// The spec view of the featured-snippet slot.
pub open spec fn snippet_view(o: Option<FeaturedSnippet>) -> Option<FeaturedSnippetView> {
    match o {
        Some(s) => Some(s@),
        None => None,
    }
}

/// The spec view of the answer slot.
pub open spec fn answer_view(o: Option<Answer>) -> Option<AnswerView> {
    match o {
        Some(a) => Some(a@),
        None => None,
    }
}

/// The spec view of the infobox slot.
pub open spec fn infobox_view(o: Option<Infobox>) -> Option<InfoboxView> {
    match o {
        Some(b) => Some(b@),
        None => None,
    }
}

} // verus!
