//! Result data: what one engine hands back for a query, and the merged
//! aggregate that the consumer receives.

use vstd::prelude::*;

use crate::engine::Engine;
use crate::score::{Rat, Score};

verus! {

/// One search hit as a single engine reported it.
#[derive(Debug, Clone)]
pub struct EngineSearchResult {
    pub url: String,
    pub title: String,
    pub description: String,
}

#[verifier::ext_equal]
pub ghost struct EngineSearchResultView {
    pub url: Seq<char>,
    pub title: Seq<char>,
    pub description: Seq<char>,
}

impl View for EngineSearchResult {
    type V = EngineSearchResultView;

    open spec fn view(&self) -> EngineSearchResultView {
        EngineSearchResultView { url: self.url@, title: self.title@, description: self.description@ }
    }
}

/// A featured snippet as a single engine reported it.
#[derive(Debug, Clone)]
pub struct EngineFeaturedSnippet {
    pub url: String,
    pub title: String,
    pub description: String,
}

#[verifier::ext_equal]
pub ghost struct EngineFeaturedSnippetView {
    pub url: Seq<char>,
    pub title: Seq<char>,
    pub description: Seq<char>,
}

impl View for EngineFeaturedSnippet {
    type V = EngineFeaturedSnippetView;

    open spec fn view(&self) -> EngineFeaturedSnippetView {
        EngineFeaturedSnippetView {
            url: self.url@,
            title: self.title@,
            description: self.description@,
        }
    }
}

/// Everything one engine produced for one query, before merging: an ordered
/// list of search hits, and at most one featured snippet, one instant-answer
/// fragment, and one infobox fragment.
#[derive(Debug)]
pub struct EngineResponse {
    pub search_results: Vec<EngineSearchResult>,
    pub featured_snippet: Option<EngineFeaturedSnippet>,
    pub answer_html: Option<String>,
    pub infobox_html: Option<String>,
}

#[verifier::ext_equal]
pub ghost struct EngineResponseView {
    pub search_results: Seq<EngineSearchResultView>,
    pub featured_snippet: Option<EngineFeaturedSnippetView>,
    pub answer_html: Option<Seq<char>>,
    pub infobox_html: Option<Seq<char>>,
}

impl View for EngineResponse {
    type V = EngineResponseView;

    open spec fn view(&self) -> EngineResponseView {
        EngineResponseView {
            search_results: self.search_results@.map_values(|r: EngineSearchResult| r@),
            featured_snippet: match self.featured_snippet {
                Some(s) => Some(s@),
                None => None,
            },
            answer_html: match self.answer_html {
                Some(s) => Some(s@),
                None => None,
            },
            infobox_html: match self.infobox_html {
                Some(s) => Some(s@),
                None => None,
            },
        }
    }
}

impl EngineResponseView {
    /// A response that contributes nothing to a merge.
    pub open spec fn is_empty(self) -> bool {
        self.search_results.len() == 0 && self.featured_snippet is None && self.answer_html is None
            && self.infobox_html is None
    }
}

impl EngineResponse {
    /// The empty response: no hits, no snippet, no answer, no infobox.
    pub fn new() -> (r: EngineResponse)
        ensures
            r@.is_empty(),
    {
        EngineResponse {
            search_results: Vec::new(),
            featured_snippet: None,
            answer_html: None,
            infobox_html: None,
        }
    }

    /// A response carrying only an instant-answer fragment.
    pub fn answer_html(html: String) -> (r: EngineResponse)
        ensures
            r@.search_results.len() == 0,
            r@.featured_snippet is None,
            r@.answer_html == Some(html@),
            r@.infobox_html is None,
    {
        EngineResponse {
            search_results: Vec::new(),
            featured_snippet: None,
            answer_html: Some(html),
            infobox_html: None,
        }
    }

    /// A response carrying only an infobox fragment.
    pub fn infobox_html(html: String) -> (r: EngineResponse)
        ensures
            r@.search_results.len() == 0,
            r@.featured_snippet is None,
            r@.answer_html is None,
            r@.infobox_html == Some(html@),
    {
        EngineResponse {
            search_results: Vec::new(),
            featured_snippet: None,
            answer_html: None,
            infobox_html: Some(html),
        }
    }
}

impl Default for EngineResponse {
    /// Same as `EngineResponse::new`.
    fn default() -> (r: EngineResponse)
        ensures
            r@.is_empty(),
    {
        EngineResponse::new()
    }
}

/// One merged search result: the url is the dedup key; `engines` are the
/// contributors in first-seen order, never empty; `score` is the exact
/// accumulated weighted score.
#[derive(Debug, Clone)]
pub struct SearchResult {
    pub url: String,
    pub title: String,
    pub description: String,
    pub engines: Vec<Engine>,
    pub score: Score,
}

#[verifier::ext_equal]
pub ghost struct SearchResultView {
    pub url: Seq<char>,
    pub title: Seq<char>,
    pub description: Seq<char>,
    pub engines: Seq<Engine>,
    pub score: Rat,
}

impl View for SearchResult {
    type V = SearchResultView;

    open spec fn view(&self) -> SearchResultView {
        SearchResultView {
            url: self.url@,
            title: self.title@,
            description: self.description@,
            engines: self.engines@,
            score: self.score@,
        }
    }
}

/// The merged featured snippet and the engine whose candidate won the slot.
#[derive(Debug, Clone)]
pub struct FeaturedSnippet {
    pub url: String,
    pub title: String,
    pub description: String,
    pub engine: Engine,
}

#[verifier::ext_equal]
pub ghost struct FeaturedSnippetView {
    pub url: Seq<char>,
    pub title: Seq<char>,
    pub description: Seq<char>,
    pub engine: Engine,
}

impl View for FeaturedSnippet {
    type V = FeaturedSnippetView;

    open spec fn view(&self) -> FeaturedSnippetView {
        FeaturedSnippetView {
            url: self.url@,
            title: self.title@,
            description: self.description@,
            engine: self.engine,
        }
    }
}

/// The merged instant answer and the engine whose candidate won the slot.
#[derive(Debug, Clone)]
pub struct Answer {
    pub html: String,
    pub engine: Engine,
}

#[verifier::ext_equal]
pub ghost struct AnswerView {
    pub html: Seq<char>,
    pub engine: Engine,
}

impl View for Answer {
    type V = AnswerView;

    open spec fn view(&self) -> AnswerView {
        AnswerView { html: self.html@, engine: self.engine }
    }
}

/// An infobox fragment and the engine that produced it.
#[derive(Debug, Clone)]
pub struct Infobox {
    pub html: String,
    pub engine: Engine,
}

#[verifier::ext_equal]
pub ghost struct InfoboxView {
    pub html: Seq<char>,
    pub engine: Engine,
}

impl View for Infobox {
    type V = InfoboxView;

    open spec fn view(&self) -> InfoboxView {
        InfoboxView { html: self.html@, engine: self.engine }
    }
}

/// The merged aggregate handed to the consumer: ranked results, and at most
/// one featured snippet, answer and infobox.
#[derive(Debug, Clone)]
pub struct Response {
    pub search_results: Vec<SearchResult>,
    pub featured_snippet: Option<FeaturedSnippet>,
    pub answer: Option<Answer>,
    pub infobox: Option<Infobox>,
}

#[verifier::ext_equal]
pub ghost struct ResponseView {
    pub search_results: Seq<SearchResultView>,
    pub featured_snippet: Option<FeaturedSnippetView>,
    pub answer: Option<AnswerView>,
    pub infobox: Option<InfoboxView>,
}

impl View for Response {
    type V = ResponseView;

    open spec fn view(&self) -> ResponseView {
        ResponseView {
            search_results: self.search_results@.map_values(|r: SearchResult| r@),
            featured_snippet: match self.featured_snippet {
                Some(s) => Some(s@),
                None => None,
            },
            answer: match self.answer {
                Some(s) => Some(s@),
                None => None,
            },
            infobox: match self.infobox {
                Some(s) => Some(s@),
                None => None,
            },
        }
    }
}

/// One merged autocomplete suggestion with its exact accumulated score.
#[derive(Debug, Clone)]
pub struct AutocompleteResult {
    pub query: String,
    pub score: Score,
}

#[verifier::ext_equal]
pub ghost struct AutocompleteResultView {
    pub query: Seq<char>,
    pub score: Rat,
}

impl View for AutocompleteResult {
    type V = AutocompleteResultView;

    open spec fn view(&self) -> AutocompleteResultView {
        AutocompleteResultView { query: self.query@, score: self.score@ }
    }
}

} // verus!
