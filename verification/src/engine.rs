//! The closed registry of engines: identities, trust weights, capabilities.
//!
//! Weights are relative trust multipliers. They are kept exactly, in
//! hundredths of a unit, so a weight of `105` here means a multiplier of
//! `1.05`; the registry's heaviest engine has weight `125`.

use vstd::prelude::*;

verus! {

/// A backend data source. The set is closed: every engine the system can
/// dispatch to is a variant here, with a fixed id, weight and capability set.
#[derive(Clone, Copy, Debug, PartialEq, Eq, Hash, PartialOrd, Ord, Structural)]
pub enum Engine {
    Google,
    Bing,
    Brave,
    Marginalia,
    Useragent,
    Ip,
    Calc,
    Wikipedia,
    Dictionary,
    StackExchange,
    GitHub,
    DocsRs,
}

impl Engine {
    /// The registry order: every known engine, each exactly once.
    pub open spec fn all_spec() -> Seq<Engine> {
        seq![
            Engine::Google,
            Engine::Bing,
            Engine::Brave,
            Engine::Marginalia,
            Engine::Useragent,
            Engine::Ip,
            Engine::Calc,
            Engine::Wikipedia,
            Engine::Dictionary,
            Engine::StackExchange,
            Engine::GitHub,
            Engine::DocsRs,
        ]
    }

    /// The fixed ordered list of known engines.
    pub fn all() -> (r: Vec<Engine>)
        ensures
            r@ == Engine::all_spec(),
    {
        let mut v: Vec<Engine> = Vec::new();
        v.push(Engine::Google);
        v.push(Engine::Bing);
        v.push(Engine::Brave);
        v.push(Engine::Marginalia);
        v.push(Engine::Useragent);
        v.push(Engine::Ip);
        v.push(Engine::Calc);
        v.push(Engine::Wikipedia);
        v.push(Engine::Dictionary);
        v.push(Engine::StackExchange);
        v.push(Engine::GitHub);
        v.push(Engine::DocsRs);
        proof {
            assert(v@ =~= Engine::all_spec());
        }
        v
    }

    pub open spec fn id_spec(self) -> Seq<char> {
        match self {
            Engine::Google => "google"@,
            Engine::Bing => "bing"@,
            Engine::Brave => "brave"@,
            Engine::Marginalia => "marginalia"@,
            Engine::Useragent => "useragent"@,
            Engine::Ip => "ip"@,
            Engine::Calc => "calc"@,
            Engine::Wikipedia => "wikipedia"@,
            Engine::Dictionary => "dictionary"@,
            Engine::StackExchange => "stackexchange"@,
            Engine::GitHub => "github"@,
            Engine::DocsRs => "docs.rs"@,
        }
    }

    /// The stable string id of the engine.
    pub fn id(&self) -> (r: &'static str)
        ensures
            r@ == self.id_spec(),
    {
        match self {
            Engine::Google => "google",
            Engine::Bing => "bing",
            Engine::Brave => "brave",
            Engine::Marginalia => "marginalia",
            Engine::Useragent => "useragent",
            Engine::Ip => "ip",
            Engine::Calc => "calc",
            Engine::Wikipedia => "wikipedia",
            Engine::Dictionary => "dictionary",
            Engine::StackExchange => "stackexchange",
            Engine::GitHub => "github",
            Engine::DocsRs => "docs.rs",
        }
    }

    /// The trust weight, in hundredths of a unit (default one unit).
    pub open spec fn weight_spec(self) -> int {
        match self {
            Engine::Google => 105,
            Engine::Bing => 100,
            Engine::Brave => 125,
            Engine::Marginalia => 15,
            _ => 100,
        }
    }

    /// The relative trust weight of the engine, in hundredths of a unit.
    pub fn weight(&self) -> (w: u64)
        ensures
            w as int == self.weight_spec(),
            1 <= w <= 125,
    {
        match self {
            Engine::Google => 105,
            Engine::Bing => 100,
            Engine::Brave => 125,
            Engine::Marginalia => 15,
            _ => 100,
        }
    }

    pub open spec fn supports_search_spec(self) -> bool {
        self == Engine::Google || self == Engine::Bing || self == Engine::Brave || self
            == Engine::Marginalia
    }

    /// Whether the engine serves the web-search capability.
    pub fn supports_search(&self) -> (r: bool)
        ensures
            r == self.supports_search_spec(),
    {
        matches!(self, Engine::Google | Engine::Bing | Engine::Brave | Engine::Marginalia)
    }

    pub open spec fn supports_answer_spec(self) -> bool {
        self == Engine::Useragent || self == Engine::Ip || self == Engine::Calc || self
            == Engine::Wikipedia || self == Engine::Dictionary
    }

    /// Whether the engine serves the instant-answer capability.
    pub fn supports_answer(&self) -> (r: bool)
        ensures
            r == self.supports_answer_spec(),
    {
        matches!(
            self,
            Engine::Useragent | Engine::Ip | Engine::Calc | Engine::Wikipedia | Engine::Dictionary
        )
    }

    pub open spec fn supports_autocomplete_spec(self) -> bool {
        self == Engine::Google || self == Engine::Calc
    }

    /// Whether the engine can source autocomplete suggestions.
    pub fn supports_autocomplete(&self) -> (r: bool)
        ensures
            r == self.supports_autocomplete_spec(),
    {
        matches!(self, Engine::Google | Engine::Calc)
    }

    pub open spec fn supports_enrichment_spec(self) -> bool {
        self == Engine::StackExchange || self == Engine::GitHub || self == Engine::DocsRs
    }

    /// Whether the engine participates in the post-search enrichment wave.
    pub fn supports_enrichment(&self) -> (r: bool)
        ensures
            r == self.supports_enrichment_spec(),
    {
        matches!(self, Engine::StackExchange | Engine::GitHub | Engine::DocsRs)
    }
}

/// One search invocation's input: the raw query text, the caller's
/// originating IP, and the forwarded request headers, kept as name/value
/// pairs. Immutable for the duration of one search.
pub struct SearchQuery {
    pub query: String,
    pub request_headers: Vec<(String, String)>,
    pub ip: String,
}

} // verus!
