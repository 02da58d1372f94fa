//! The operations that the session runtime offers to its callers.
use vstd::prelude::*;

verus! {

/// One operation of the session runtime.
#[derive(Clone, Copy, Debug, PartialEq, Eq, Structural)]
pub enum RuntimeEndpoint {
    /// Report the runtime fields.
    Status,
    /// Signal the running game and mark the runtime idle.
    Terminate,
    /// Start a game and wait for it.
    Launch,
    /// Report aggregated play history.
    History,
}

/// The runtime's operations, in the order they are mounted.
pub fn routes() -> (r: Vec<RuntimeEndpoint>)
    ensures
        r@ == seq![
            RuntimeEndpoint::Status,
            RuntimeEndpoint::Terminate,
            RuntimeEndpoint::Launch,
            RuntimeEndpoint::History,
        ],
{
    let mut r: Vec<RuntimeEndpoint> = Vec::new();
    r.push(RuntimeEndpoint::Status);
    r.push(RuntimeEndpoint::Terminate);
    r.push(RuntimeEndpoint::Launch);
    r.push(RuntimeEndpoint::History);
    r
}

} // verus!
