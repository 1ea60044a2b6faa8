//! The periodic pass over the registry: records whose lease has run out
//! leave, and what is left is persisted.

use vstd::prelude::*;
use crate::crank::CrankInstance;
use crate::state::{crank_views, dormant_all, lapsed, lasting, State};

verus! {

/// The number of seconds between two passes.
pub const TICK_SECONDS: u64 = 10;

/// What one pass asks of the caller.
#[derive(Debug)]
pub struct Tick {
    /// The records that left the registry; the process of each is to be
    /// terminated.
    pub evicted: Vec<CrankInstance>,
    /// The registry to persist.
    pub snapshot: State,
}

/// One pass at `now`: every record whose lease has run out leaves the
/// registry, whether or not its process can be terminated, and the registry
/// is then to be persisted as it stands, also where nothing left.
pub fn tick(state: &mut State, now: u64) -> (pass: Tick)
    requires
        old(state).wf(),
    ensures
        final(state).wf(),
        final(state)@.params == old(state)@.params,
        final(state)@.cranks == lasting(old(state)@.cranks, now),
        crank_views(pass.evicted@) == lapsed(old(state)@.cranks, now),
        pass.snapshot.wf(),
        pass.snapshot@.params == old(state)@.params,
        pass.snapshot@.cranks == dormant_all(lasting(old(state)@.cranks, now)),
{
    let evicted: Vec<CrankInstance> = state.cleanup_finished(now);
    let snapshot: State = state.snapshot();
    Tick { evicted, snapshot }
}

} // verus!
