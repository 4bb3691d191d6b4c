//! The progress-event model: per-engine lifecycle events, the final merged
//! aggregate, and the optional enrichment result, each stamped with the
//! elapsed milliseconds since the search started.

use vstd::prelude::*;

use crate::engine::Engine;
use crate::response::Infobox;
use crate::response::Response;

verus! {

/// One engine's lifecycle stage within a search wave.
#[derive(Debug, Clone, Copy, PartialEq, Eq, Structural)]
pub enum EngineProgressUpdate {
    Requesting,
    Downloading,
    Parsing,
    Done,
}

impl EngineProgressUpdate {
    /// The order of an HTTP-backed engine's lifecycle: requesting, then
    /// downloading, then parsing, then done.
    pub open spec fn stage_spec(self) -> int {
        match self {
            EngineProgressUpdate::Requesting => 0,
            EngineProgressUpdate::Downloading => 1,
            EngineProgressUpdate::Parsing => 2,
            EngineProgressUpdate::Done => 3,
        }
    }

    /// The position of this stage in the lifecycle order.
    pub fn stage(&self) -> (r: u64)
        ensures
            r as int == self.stage_spec(),
    {
        match self {
            EngineProgressUpdate::Requesting => 0,
            EngineProgressUpdate::Downloading => 1,
            EngineProgressUpdate::Parsing => 2,
            EngineProgressUpdate::Done => 3,
        }
    }
}

/// The lifecycle stages an HTTP-backed engine emits, in emission order.
pub fn lifecycle_stages() -> (r: Vec<EngineProgressUpdate>)
    ensures
        r@ =~= seq![
            EngineProgressUpdate::Requesting,
            EngineProgressUpdate::Downloading,
            EngineProgressUpdate::Parsing,
            EngineProgressUpdate::Done,
        ],
        forall|a: int, b: int| 0 <= a <= b < r@.len() ==> (#[trigger] r@[a]).stage_spec()
            <= (#[trigger] r@[b]).stage_spec(),
{
    let mut v: Vec<EngineProgressUpdate> = Vec::new();
    v.push(EngineProgressUpdate::Requesting);
    v.push(EngineProgressUpdate::Downloading);
    v.push(EngineProgressUpdate::Parsing);
    v.push(EngineProgressUpdate::Done);
    v
}

/// What one progress event carries.
#[derive(Debug)]
pub enum ProgressUpdateData {
    Engine { engine: Engine, update: EngineProgressUpdate },
    Response(Response),
    PostSearchInfobox(Infobox),
}

/// One progress event: its payload, and the elapsed milliseconds from the
/// start of the search at which it was produced.
#[derive(Debug)]
pub struct ProgressUpdate {
    pub data: ProgressUpdateData,
    pub time_ms: u64,
}

impl ProgressUpdate {
    /// An event stamped with the caller's elapsed-time reading.
    pub fn new(data: ProgressUpdateData, time_ms: u64) -> (r: ProgressUpdate)
        ensures
            r.data == data,
            r.time_ms == time_ms,
    {
        ProgressUpdate { data, time_ms }
    }
}

} // verus!
