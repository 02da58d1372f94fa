//! Session runtime of a local game launcher: the single-session admission gate,
//! the composition of a compatibility-tool invocation, the merge-on-insert play
//! history and the grouping of aggregated history into report entries.
use vstd::prelude::*;

pub mod api;
pub mod history;
pub mod launch;
pub mod report;
pub mod runtime;

verus! {

} // verus!
