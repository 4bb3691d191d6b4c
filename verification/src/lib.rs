//! Metasearch core: a closed registry of search engines with trust weights,
//! exact rational scoring, weighted merging of per-engine results, and the
//! decision logic of the concurrent dispatch waves (search, autocomplete,
//! enrichment). All transport and adapter work stays outside this crate;
//! the functions here are pure and fully specified.

pub mod dispatch;
pub mod engine;
pub mod laws;
pub mod merge;
pub mod progress;
pub mod response;
pub mod score;

pub use dispatch::WaveError;
pub use engine::Engine;
pub use engine::SearchQuery;
pub use response::Answer;
pub use response::AutocompleteResult;
pub use response::EngineFeaturedSnippet;
pub use response::EngineResponse;
pub use response::EngineSearchResult;
pub use response::FeaturedSnippet;
pub use response::Infobox;
pub use response::Response;
pub use progress::EngineProgressUpdate;
pub use progress::ProgressUpdate;
pub use progress::ProgressUpdateData;
pub use response::SearchResult;
pub use score::Score;
