use metasearch::merge::merge_autocomplete_responses;
use metasearch::merge::merge_engine_responses;
use metasearch::Engine;
use metasearch::EngineFeaturedSnippet;
use metasearch::EngineResponse;
use metasearch::EngineSearchResult;

fn hit(url: &str, title: &str, description: &str) -> EngineSearchResult {
    EngineSearchResult {
        url: url.to_string(),
        title: title.to_string(),
        description: description.to_string(),
    }
}

fn resp(hits: Vec<EngineSearchResult>) -> EngineResponse {
    EngineResponse {
        search_results: hits,
        featured_snippet: None,
        answer_html: None,
        infobox_html: None,
    }
}

/// score == num/den equals a/b, compared exactly.
fn score_is(s: &metasearch::Score, a: u128, b: u128) -> bool {
    (s.num as u128) * b == a * (s.den as u128)
}

#[test]
fn registry_lists_twelve_engines() {
    let all = Engine::all();
    assert_eq!(all.len(), 12);
    assert_eq!(all[0].id(), "google");
    assert_eq!(all[11].id(), "docs.rs");
}

#[test]
fn registry_weights() {
    assert_eq!(Engine::Google.weight(), 105);
    assert_eq!(Engine::Bing.weight(), 100);
    assert_eq!(Engine::Brave.weight(), 125);
    assert_eq!(Engine::Marginalia.weight(), 15);
    assert_eq!(Engine::Wikipedia.weight(), 100);
    assert_eq!(Engine::StackExchange.weight(), 100);
}

#[test]
fn registry_capabilities() {
    assert!(Engine::Google.supports_search());
    assert!(!Engine::Google.supports_answer());
    assert!(Engine::Calc.supports_answer());
    assert!(Engine::Google.supports_autocomplete());
    assert!(Engine::Calc.supports_autocomplete());
    assert!(!Engine::Bing.supports_autocomplete());
    assert!(Engine::StackExchange.supports_enrichment());
    assert!(Engine::GitHub.supports_enrichment());
    assert!(Engine::DocsRs.supports_enrichment());
    assert!(!Engine::Bing.supports_enrichment());
}

#[test]
fn merge_two_engines_scores_and_order() {
    // Bing (weight 1.00) returns [url1, url2]; Brave (weight 1.25) returns
    // [url2]. Expected exact scores: url1 = 1.00, url2 = 0.50 + 1.25 = 1.75;
    // order: [url2, url1].
    let input = vec![
        (Engine::Bing, resp(vec![hit("url1", "t1", "d1"), hit("url2", "t2", "d2")])),
        (Engine::Brave, resp(vec![hit("url2", "t2b", "d2b")])),
    ];
    let merged = merge_engine_responses(&input).unwrap();
    assert_eq!(merged.search_results.len(), 2);
    assert_eq!(merged.search_results[0].url, "url2");
    assert_eq!(merged.search_results[1].url, "url1");
    assert!(score_is(&merged.search_results[0].score, 7, 4));
    assert!(score_is(&merged.search_results[1].score, 1, 1));
    assert_eq!(merged.search_results[0].engines, vec![Engine::Bing, Engine::Brave]);
    assert_eq!(merged.search_results[1].engines, vec![Engine::Bing]);
}

#[test]
fn merge_title_follows_heavier_engine() {
    // Brave outweighs Bing, so Brave's title and description win whichever
    // side is merged first.
    let a = vec![
        (Engine::Bing, resp(vec![hit("x", "bing-title", "bing-desc")])),
        (Engine::Brave, resp(vec![hit("x", "brave-title", "brave-desc")])),
    ];
    let b = vec![
        (Engine::Brave, resp(vec![hit("x", "brave-title", "brave-desc")])),
        (Engine::Bing, resp(vec![hit("x", "bing-title", "bing-desc")])),
    ];
    let ma = merge_engine_responses(&a).unwrap();
    let mb = merge_engine_responses(&b).unwrap();
    assert_eq!(ma.search_results[0].title, "brave-title");
    assert_eq!(ma.search_results[0].description, "brave-desc");
    assert_eq!(mb.search_results[0].title, "brave-title");
    assert_eq!(mb.search_results[0].description, "brave-desc");
}

#[test]
fn merge_title_tie_keeps_earliest() {
    // Useragent and Ip both weigh 1.00: on an exact tie the earliest-seen
    // title stays.
    let input = vec![
        (Engine::Useragent, resp(vec![hit("x", "first", "fd")])),
        (Engine::Ip, resp(vec![hit("x", "second", "sd")])),
    ];
    let merged = merge_engine_responses(&input).unwrap();
    assert_eq!(merged.search_results[0].title, "first");
    assert!(score_is(&merged.search_results[0].score, 2, 1));
}

#[test]
fn merge_single_engine_copies_scaled() {
    // One engine alone: every hit is copied with score weight / (i + 1).
    let input = vec![
        (Engine::Marginalia, resp(vec![hit("a", "ta", "da"), hit("b", "tb", "db"), hit(
            "c", "tc", "dc",
        )])),
    ];
    let merged = merge_engine_responses(&input).unwrap();
    assert_eq!(merged.search_results.len(), 3);
    // weight 0.15: scores 0.15, 0.075, 0.05
    assert_eq!(merged.search_results[0].url, "a");
    assert!(score_is(&merged.search_results[0].score, 15, 100));
    assert!(score_is(&merged.search_results[1].score, 15, 200));
    assert!(score_is(&merged.search_results[2].score, 15, 300));
    for r in &merged.search_results {
        assert_eq!(r.engines, vec![Engine::Marginalia]);
    }
}

#[test]
fn merge_answer_slot_heavier_wins() {
    let mut r1 = EngineResponse::answer_html("bing answer".to_string());
    r1.search_results = Vec::new();
    let r2 = EngineResponse::answer_html("google answer".to_string());
    let input = vec![(Engine::Bing, r1), (Engine::Google, r2)];
    let merged = merge_engine_responses(&input).unwrap();
    let answer = merged.answer.unwrap();
    assert_eq!(answer.html, "google answer");
    assert_eq!(answer.engine, Engine::Google);
    assert!(merged.infobox.is_none());
    assert!(merged.featured_snippet.is_none());
}

#[test]
fn merge_infobox_slot_tie_keeps_first() {
    let input = vec![
        (Engine::Wikipedia, EngineResponse::infobox_html("first box".to_string())),
        (Engine::Dictionary, EngineResponse::infobox_html("second box".to_string())),
    ];
    let merged = merge_engine_responses(&input).unwrap();
    let infobox = merged.infobox.unwrap();
    assert_eq!(infobox.html, "first box");
    assert_eq!(infobox.engine, Engine::Wikipedia);
}

#[test]
fn merge_featured_snippet_slot() {
    let mut r = resp(vec![hit("u", "t", "d")]);
    r.featured_snippet = Some(EngineFeaturedSnippet {
        url: "snip-url".to_string(),
        title: "snip-title".to_string(),
        description: "snip-desc".to_string(),
    });
    let merged = merge_engine_responses(&vec![(Engine::Bing, r)]).unwrap();
    let snip = merged.featured_snippet.unwrap();
    assert_eq!(snip.url, "snip-url");
    assert_eq!(snip.title, "snip-title");
    assert_eq!(snip.engine, Engine::Bing);
}

#[test]
fn merge_results_sorted_and_distinct() {
    let input = vec![
        (Engine::Google, resp(vec![hit("a", "t", "d"), hit("b", "t", "d"), hit("c", "t", "d")])),
        (Engine::Brave, resp(vec![hit("c", "t", "d"), hit("a", "t", "d")])),
        (Engine::Marginalia, resp(vec![hit("b", "t", "d"), hit("d", "t", "d")])),
    ];
    let merged = merge_engine_responses(&input).unwrap();
    assert_eq!(merged.search_results.len(), 4);
    for i in 0..merged.search_results.len() {
        for j in (i + 1)..merged.search_results.len() {
            assert_ne!(merged.search_results[i].url, merged.search_results[j].url);
            let a = &merged.search_results[i].score;
            let b = &merged.search_results[j].score;
            assert!((a.num as u128) * (b.den as u128) >= (b.num as u128) * (a.den as u128));
        }
    }
}

#[test]
fn merge_empty_input() {
    let merged = merge_engine_responses(&Vec::new()).unwrap();
    assert!(merged.search_results.is_empty());
    assert!(merged.featured_snippet.is_none());
    assert!(merged.answer.is_none());
    assert!(merged.infobox.is_none());
}

#[test]
fn merge_overflow_reported() {
    // The same url contributed many times multiplies exact denominators until
    // they leave 64 bits; the merge reports that rather than rounding.
    let mut input = Vec::new();
    for _ in 0..11 {
        input.push((Engine::Bing, resp(vec![hit("x", "t", "d")])));
    }
    assert!(merge_engine_responses(&input).is_none());
}

#[test]
fn autocomplete_scores_and_order() {
    // Calc (weight 1.00) suggests [cat, car]; Google (weight 1.05) suggests
    // [car]. car = 0.50 + 1.05 = 1.55 beats cat = 1.00.
    let input = vec![
        (Engine::Calc, vec!["cat".to_string(), "car".to_string()]),
        (Engine::Google, vec!["car".to_string()]),
    ];
    let merged = merge_autocomplete_responses(&input).unwrap();
    assert_eq!(merged, vec!["car".to_string(), "cat".to_string()]);
}

#[test]
fn autocomplete_exact_tie_is_a_set() {
    // Useragent and Ip both weigh 1.00, so their lone suggestions tie at 1.00
    // and the order between them is unspecified: assert set equality only.
    let input = vec![
        (Engine::Useragent, vec!["cat".to_string()]),
        (Engine::Ip, vec!["car".to_string()]),
    ];
    let merged = merge_autocomplete_responses(&input).unwrap();
    assert_eq!(merged.len(), 2);
    assert!(merged.contains(&"cat".to_string()));
    assert!(merged.contains(&"car".to_string()));
}

#[test]
fn autocomplete_dedups_by_exact_text() {
    let input = vec![
        (Engine::Calc, vec!["rust".to_string(), "Rust".to_string()]),
        (Engine::Google, vec!["rust".to_string()]),
    ];
    let merged = merge_autocomplete_responses(&input).unwrap();
    // "rust" and "Rust" are different keys: no normalization.
    assert_eq!(merged.len(), 2);
    assert_eq!(merged[0], "rust");
}

#[test]
fn engine_response_constructors() {
    let empty = EngineResponse::new();
    assert!(empty.search_results.is_empty());
    assert!(empty.featured_snippet.is_none());
    assert!(empty.answer_html.is_none());
    assert!(empty.infobox_html.is_none());
    let ans = EngineResponse::answer_html("a".to_string());
    assert_eq!(ans.answer_html.as_deref(), Some("a"));
    assert!(ans.infobox_html.is_none());
    let ib = EngineResponse::infobox_html("b".to_string());
    assert_eq!(ib.infobox_html.as_deref(), Some("b"));
    assert!(ib.answer_html.is_none());
}

#[test]
fn score_arithmetic_exact() {
    let a = metasearch::Score::new(1, 2);
    let b = metasearch::Score::new(1, 3);
    let s = a.checked_add(b).unwrap();
    assert!(score_is(&s, 5, 6));
    assert!(s.ge(&a));
    assert!(!b.ge(&a));
    let big = metasearch::Score::new(u64::MAX, u64::MAX);
    assert!(big.checked_add(big).is_none());
}

#[test]
fn autocomplete_scored_keeps_exact_scores() {
    let input = vec![
        (Engine::Calc, vec!["cat".to_string(), "car".to_string()]),
        (Engine::Google, vec!["car".to_string()]),
    ];
    let scored = metasearch::merge::merge_autocomplete_scored(&input).unwrap();
    assert_eq!(scored.len(), 2);
    assert_eq!(scored[0].query, "car");
    // car = 100/200 + 105/100 = 1.55 = 31/20
    assert!(score_is(&scored[0].score, 31, 20));
    assert_eq!(scored[1].query, "cat");
    assert!(score_is(&scored[1].score, 1, 1));
}
