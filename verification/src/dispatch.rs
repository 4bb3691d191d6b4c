//! Decision logic of the concurrent dispatch waves.
//!
//! The transport and the per-engine adapters live outside this crate; they
//! hand in, per engine, the outcome of their work (a parsed response or an
//! error). The functions here make every decision the waves need: which
//! engines participate, how a parse failure is isolated, when a wave is
//! fatal, when the enrichment wave runs, and which enrichment result wins.

use vstd::prelude::*;

use crate::engine::Engine;
use crate::merge::ac_pairs_view;
use crate::merge::distinct_urls;
use crate::merge::merge_autocomplete_responses;
use crate::merge::merge_engine_responses;
use crate::merge::merge_fold;
use crate::merge::pairs_view;
use crate::merge::results_wf;
use crate::merge::sorted_desc;
use crate::response::EngineResponse;
use crate::response::EngineResponseView;
use crate::response::Infobox;
use crate::response::Response;
use crate::response::SearchResultView;

verus! {

/// An error that is fatal to its whole wave. A transport failure or a closed
/// progress channel aborts the search wave; in the autocomplete wave a parse
/// failure is fatal too. `ScoreOverflow` reports a merge whose exact scores
/// left 64 bits.
#[derive(Debug)]
pub enum WaveError {
    Transport(String),
    Parse(String),
    ChannelClosed,
    ScoreOverflow,
}

/// Parse-failure isolation: a parse error degrades one engine's contribution
/// to the empty response, and the wave goes on.
pub fn resolve_parse_outcome(parsed: Result<EngineResponse, WaveError>) -> (r: EngineResponse)
    ensures
        parsed is Ok ==> r == parsed.unwrap(),
        parsed is Err ==> r@.is_empty(),
{
    match parsed {
        Ok(resp) => resp,
        Err(_) => EngineResponse::new(),
    }
}

/// Fan-in of one wave: either every engine's outcome was a success and all
/// pairs are collected in order, or the first error in order aborts the wave.
pub fn collect_wave<T>(outcomes: Vec<(Engine, Result<T, WaveError>)>) -> (r: Result<
    Vec<(Engine, T)>,
    WaveError,
>)
    ensures
        r is Ok <==> (forall|k: int|
            0 <= k < outcomes@.len() ==> (#[trigger] outcomes@[k].1) is Ok),
        r is Ok ==> r.unwrap()@.len() == outcomes@.len() && (forall|k: int|
            0 <= k < outcomes@.len() ==> (#[trigger] r.unwrap()@[k]) == (
            outcomes@[k].0,
            outcomes@[k].1.unwrap(),
            )),
        r is Err ==> exists|k: int|
            {
                &&& 0 <= k < outcomes@.len()
                &&& (#[trigger] outcomes@[k].1) is Err
                &&& r->Err_0 == outcomes@[k].1->Err_0
                &&& forall|m: int| 0 <= m < k ==> (#[trigger] outcomes@[m].1) is Ok
            },
{
    let ghost orig = outcomes@;
    let mut rest = outcomes;
    let mut out: Vec<(Engine, T)> = Vec::new();
    while rest.len() > 0
        invariant
            outcomes@ == orig,
            out@.len() + rest@.len() == orig.len(),
            rest@ =~= orig.skip(out@.len() as int),
            forall|m: int| 0 <= m < out@.len() ==> (#[trigger] orig[m].1) is Ok,
            forall|m: int|
                0 <= m < out@.len() ==> (#[trigger] out@[m]) == (orig[m].0, orig[m].1.unwrap()),
        decreases rest@.len(),
    {
        let ghost k = out@.len() as int;
        let (e, res) = rest.remove(0);
        proof {
            assert(orig.skip(k)[0] == orig[k]);
            assert(rest@ =~= orig.skip(k + 1));
        }
        match res {
            Ok(t) => {
                out.push((e, t));
            },
            Err(err) => {
                proof {
                    assert(outcomes@ == orig);
                    assert(outcomes@[k].1 is Err);
                    assert(err == outcomes@[k].1->Err_0);
                    assert(forall|m: int| 0 <= m < k ==> (#[trigger] outcomes@[m].1) is Ok);
                }
                return Err(err);
            },
        }
    }
    Ok(out)
}

/// The spec view of a wave's collected pairs, valid when every outcome is a
/// success.
pub open spec fn wave_responses(s: Seq<(Engine, Result<EngineResponse, WaveError>)>) -> Seq<
    (Engine, EngineResponseView),
> {
    s.map_values(
        |p: (Engine, Result<EngineResponse, WaveError>)| (p.0, (p.1->Ok_0)@),
    )
}

/// The search wave's fan-in and merge.
///
/// Exactly one of three things happens: the first wave-fatal error in input
/// order is returned; every outcome succeeded but the exact merged scores left
/// 64 bits, reported as `ScoreOverflow`; or the merged aggregate is returned,
/// with pairwise-distinct urls sorted by non-increasing score and the slots of
/// the merge fold.
pub fn run_search_wave(outcomes: Vec<(Engine, Result<EngineResponse, WaveError>)>) -> (r: Result<
    Response,
    WaveError,
>)
    ensures
        r is Ok <==> ((forall|k: int|
            0 <= k < outcomes@.len() ==> (#[trigger] outcomes@[k].1) is Ok) && merge_fold(
            wave_responses(outcomes@),
        ).ok),
        (exists|k: int| 0 <= k < outcomes@.len() && (#[trigger] outcomes@[k].1) is Err)
            ==> r is Err && exists|k: int|
            {
                &&& 0 <= k < outcomes@.len()
                &&& (#[trigger] outcomes@[k].1) is Err
                &&& r->Err_0 == outcomes@[k].1->Err_0
                &&& forall|m: int| 0 <= m < k ==> (#[trigger] outcomes@[m].1) is Ok
            },
        ((forall|k: int| 0 <= k < outcomes@.len() ==> (#[trigger] outcomes@[k].1) is Ok)
            && !merge_fold(wave_responses(outcomes@)).ok) ==> r is Err && r->Err_0
            == WaveError::ScoreOverflow,
        r is Ok ==> {
            let st = merge_fold(wave_responses(outcomes@));
            let resp = r.unwrap()@;
            &&& resp.featured_snippet == st.featured_snippet
            &&& resp.answer == st.answer
            &&& resp.infobox == st.infobox
            &&& resp.search_results.to_multiset() == st.results.to_multiset()
            &&& sorted_desc(resp.search_results)
            &&& distinct_urls(resp.search_results)
            &&& results_wf(resp.search_results)
        },
{
    let ghost ov = outcomes@;
    match collect_wave(outcomes) {
        Ok(pairs) => {
            proof {
                assert(pairs_view(pairs@) =~= wave_responses(ov));
            }
            match merge_engine_responses(&pairs) {
                Some(resp) => Ok(resp),
                None => Err(WaveError::ScoreOverflow),
            }
        },
        Err(err) => Err(err),
    }
}

/// The spec view of an autocomplete wave's collected pairs, valid when every
/// outcome is a success.
pub open spec fn autocomplete_responses(
    s: Seq<(Engine, Result<Vec<String>, WaveError>)>,
) -> Seq<(Engine, Vec<String>)> {
    s.map_values(|p: (Engine, Result<Vec<String>, WaveError>)| (p.0, p.1->Ok_0))
}

/// The autocomplete wave's fan-in and merge. Unlike the search wave there is
/// no isolation tier: the caller reports parse failures as errors here, and
/// the first error in input order is fatal to the call.
pub fn run_autocomplete_wave(outcomes: Vec<(Engine, Result<Vec<String>, WaveError>)>) -> (r: Result<
    Vec<String>,
    WaveError,
>)
    ensures
        r is Ok <==> ((forall|k: int|
            0 <= k < outcomes@.len() ==> (#[trigger] outcomes@[k].1) is Ok) && merge_fold(
            ac_pairs_view(autocomplete_responses(outcomes@)),
        ).ok),
        (exists|k: int| 0 <= k < outcomes@.len() && (#[trigger] outcomes@[k].1) is Err)
            ==> r is Err && exists|k: int|
            {
                &&& 0 <= k < outcomes@.len()
                &&& (#[trigger] outcomes@[k].1) is Err
                &&& r->Err_0 == outcomes@[k].1->Err_0
                &&& forall|m: int| 0 <= m < k ==> (#[trigger] outcomes@[m].1) is Ok
            },
        r is Ok ==> exists|sv: Seq<SearchResultView>|
            {
                &&& sv.to_multiset() == merge_fold(
                    ac_pairs_view(autocomplete_responses(outcomes@)),
                ).results.to_multiset()
                &&& sorted_desc(sv)
                &&& distinct_urls(sv)
                &&& r.unwrap()@.map_values(|s: String| s@) == sv.map_values(
                    |x: SearchResultView| x.url,
                )
            },
{
    let ghost ov = outcomes@;
    match collect_wave(outcomes) {
        Ok(pairs) => {
            proof {
                assert(pairs@ =~= autocomplete_responses(ov));
            }
            match merge_autocomplete_responses(&pairs) {
                Some(list) => Ok(list),
                None => Err(WaveError::ScoreOverflow),
            }
        },
        Err(err) => Err(err),
    }
}

/// Enrichment gating: the second wave runs only when the merged aggregate has
/// no infobox.
pub fn needs_enrichment(response: &Response) -> (r: bool)
    ensures
        r == (response@.infobox is None),
{
    match &response.infobox {
        Some(_) => false,
        None => true,
    }
}

/// The engines the enrichment wave will query: none at all when the aggregate
/// already has an infobox, otherwise exactly the enrichment-capable ones.
pub fn plan_enrichment(engines: &Vec<Engine>, response: &Response) -> (r: Vec<Engine>)
    ensures
        response@.infobox is Some ==> r@.len() == 0,
        forall|k: int| 0 <= k < r@.len() ==> (#[trigger] r@[k]).supports_enrichment_spec(),
        response@.infobox is None ==> forall|k: int|
            0 <= k < engines@.len() ==> ((#[trigger] engines@[k]).supports_enrichment_spec()
                ==> r@.contains(engines@[k])),
{
    let mut out: Vec<Engine> = Vec::new();
    if !needs_enrichment(response) {
        return out;
    }
    let mut k: usize = 0;
    while k < engines.len()
        invariant
            k <= engines@.len(),
            forall|m: int| 0 <= m < out@.len() ==> (#[trigger] out@[m]).supports_enrichment_spec(),
            forall|m: int|
                0 <= m < k ==> ((#[trigger] engines@[m]).supports_enrichment_spec()
                    ==> out@.contains(engines@[m])),
        decreases engines@.len() - k,
    {
        let e = engines[k];
        if e.supports_enrichment() {
            let ghost pre = out@;
            out.push(e);
            proof {
                assert(out@[out@.len() - 1] == e);
                assert forall|m: int|
                    0 <= m < k + 1 && (#[trigger] engines@[m]).supports_enrichment_spec()
                    implies out@.contains(engines@[m]) by {
                    if m < k {
                        assert(pre.contains(engines@[m]));
                        let i = choose|i: int| 0 <= i < pre.len() && pre[i] == engines@[m];
                        assert(out@[i] == engines@[m]);
                    } else {
                        assert(out@[out@.len() - 1] == engines@[m]);
                    }
                }
            }
        }
        k = k + 1;
    }
    out
}

/// The enrichment wave's single winner: the first non-empty fragment in input
/// order becomes the one emitted infobox; everything after it is discarded.
pub fn pick_enrichment(outcomes: &Vec<(Engine, Option<String>)>) -> (r: Option<Infobox>)
    ensures
        r is Some <==> exists|k: int|
            0 <= k < outcomes@.len() && (#[trigger] outcomes@[k].1) is Some,
        r is Some ==> exists|k: int|
            {
                &&& 0 <= k < outcomes@.len()
                &&& (#[trigger] outcomes@[k].1) is Some
                &&& r.unwrap()@.html == outcomes@[k].1.unwrap()@
                &&& r.unwrap()@.engine == outcomes@[k].0
                &&& forall|m: int| 0 <= m < k ==> (#[trigger] outcomes@[m].1) is None
            },
{
    let mut k: usize = 0;
    while k < outcomes.len()
        invariant
            k <= outcomes@.len(),
            forall|m: int| 0 <= m < k ==> (#[trigger] outcomes@[m].1) is None,
        decreases outcomes@.len() - k,
    {
        match &outcomes[k].1 {
            Some(html) => {
                return Some(Infobox { html: html.clone(), engine: outcomes[k].0 });
            },
            None => {},
        }
        k = k + 1;
    }
    None
}

} // verus!
