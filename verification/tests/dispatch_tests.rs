use metasearch::dispatch::collect_wave;
use metasearch::dispatch::needs_enrichment;
use metasearch::dispatch::pick_enrichment;
use metasearch::dispatch::plan_enrichment;
use metasearch::dispatch::resolve_parse_outcome;
use metasearch::dispatch::run_autocomplete_wave;
use metasearch::dispatch::run_search_wave;
use metasearch::Engine;
use metasearch::EngineResponse;
use metasearch::EngineSearchResult;
use metasearch::Infobox;
use metasearch::Response;
use metasearch::WaveError;

fn hit(url: &str) -> EngineSearchResult {
    EngineSearchResult {
        url: url.to_string(),
        title: "t".to_string(),
        description: "d".to_string(),
    }
}

fn resp(hits: Vec<EngineSearchResult>) -> EngineResponse {
    EngineResponse {
        search_results: hits,
        featured_snippet: None,
        answer_html: None,
        infobox_html: None,
    }
}

#[test]
fn parse_error_is_isolated() {
    // A parse failure degrades one engine's contribution to empty; with all
    // transports succeeding the wave still yields every other engine's hits.
    let failed = resolve_parse_outcome(Err(WaveError::Parse("bad html".to_string())));
    assert!(failed.search_results.is_empty());
    let outcomes = vec![
        (Engine::Bing, Ok(resp(vec![hit("a"), hit("b")]))),
        (Engine::Brave, Ok(failed)),
    ];
    let merged = run_search_wave(outcomes).unwrap();
    assert_eq!(merged.search_results.len(), 2);
    assert_eq!(merged.search_results[0].url, "a");
    for r in &merged.search_results {
        assert_eq!(r.engines, vec![Engine::Bing]);
    }
}

#[test]
fn transport_error_is_wave_fatal() {
    // One transport failure aborts the wave even though the other engine
    // succeeded; the error is the wave's sole outcome.
    let outcomes = vec![
        (Engine::Bing, Ok(resp(vec![hit("a")]))),
        (Engine::Brave, Err(WaveError::Transport("connection reset".to_string()))),
    ];
    let r = run_search_wave(outcomes);
    match r {
        Err(WaveError::Transport(msg)) => assert_eq!(msg, "connection reset"),
        _ => panic!("expected a transport error"),
    }
}

#[test]
fn first_error_in_order_wins() {
    let outcomes: Vec<(Engine, Result<EngineResponse, WaveError>)> = vec![
        (Engine::Bing, Err(WaveError::ChannelClosed)),
        (Engine::Brave, Err(WaveError::Transport("late".to_string()))),
    ];
    let r = collect_wave(outcomes);
    assert!(matches!(r, Err(WaveError::ChannelClosed)));
}

#[test]
fn score_overflow_is_an_error() {
    let mut outcomes = Vec::new();
    for _ in 0..11 {
        outcomes.push((Engine::Bing, Ok(resp(vec![hit("x")]))));
    }
    let r = run_search_wave(outcomes);
    assert!(matches!(r, Err(WaveError::ScoreOverflow)));
}

#[test]
fn enrichment_gated_on_infobox() {
    let without = Response {
        search_results: Vec::new(),
        featured_snippet: None,
        answer: None,
        infobox: None,
    };
    let with = Response {
        search_results: Vec::new(),
        featured_snippet: None,
        answer: None,
        infobox: Some(Infobox { html: "box".to_string(), engine: Engine::Wikipedia }),
    };
    assert!(needs_enrichment(&without));
    assert!(!needs_enrichment(&with));
    let engines = Engine::all();
    let planned = plan_enrichment(&engines, &without);
    assert_eq!(planned, vec![Engine::StackExchange, Engine::GitHub, Engine::DocsRs]);
    assert!(plan_enrichment(&engines, &with).is_empty());
}

#[test]
fn enrichment_single_winner() {
    // Two engines both return a fragment: exactly one infobox comes out, the
    // first in order.
    let outcomes = vec![
        (Engine::StackExchange, None),
        (Engine::GitHub, Some("github box".to_string())),
        (Engine::DocsRs, Some("docs box".to_string())),
    ];
    let winner = pick_enrichment(&outcomes).unwrap();
    assert_eq!(winner.engine, Engine::GitHub);
    assert_eq!(winner.html, "github box");
}

#[test]
fn enrichment_no_fragment_no_event() {
    let outcomes = vec![(Engine::StackExchange, None), (Engine::GitHub, None)];
    assert!(pick_enrichment(&outcomes).is_none());
}

#[test]
fn autocomplete_wave_parse_failure_is_fatal() {
    // Autocomplete has no isolation tier: a parse failure fails the call.
    let outcomes = vec![
        (Engine::Calc, Ok(vec!["cat".to_string()])),
        (Engine::Google, Err(WaveError::Parse("bad json".to_string()))),
    ];
    let r = run_autocomplete_wave(outcomes);
    assert!(matches!(r, Err(WaveError::Parse(_))));
}

#[test]
fn autocomplete_wave_merges() {
    let outcomes = vec![
        (Engine::Calc, Ok(vec!["cat".to_string(), "car".to_string()])),
        (Engine::Google, Ok(vec!["car".to_string()])),
    ];
    let r = run_autocomplete_wave(outcomes).unwrap();
    assert_eq!(r, vec!["car".to_string(), "cat".to_string()]);
}

#[test]
fn progress_events() {
    let stages = metasearch::progress::lifecycle_stages();
    assert_eq!(stages.len(), 4);
    assert_eq!(stages[0], metasearch::EngineProgressUpdate::Requesting);
    assert_eq!(stages[3], metasearch::EngineProgressUpdate::Done);
    for w in stages.windows(2) {
        assert!(w[0].stage() < w[1].stage());
    }
    let ev = metasearch::ProgressUpdate::new(
        metasearch::ProgressUpdateData::Engine {
            engine: Engine::Bing,
            update: metasearch::EngineProgressUpdate::Requesting,
        },
        42,
    );
    assert_eq!(ev.time_ms, 42);
    match ev.data {
        metasearch::ProgressUpdateData::Engine { engine, update } => {
            assert_eq!(engine, Engine::Bing);
            assert_eq!(update, metasearch::EngineProgressUpdate::Requesting);
        },
        _ => panic!("expected an engine event"),
    }
}
