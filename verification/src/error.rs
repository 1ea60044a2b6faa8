//! What the caller reports of the processes it handles, and what the
//! supervisor can refuse.

use vstd::prelude::*;
use vstd::string::*;

verus! {

/// The result of one attempt to launch a worker process.
#[derive(Clone, Copy, Debug, PartialEq, Eq, Structural)]
pub enum SpawnOutcome {
    /// The process runs; `process` is the number by which the caller finds it
    /// again.
    Started { process: u64 },
    /// The system refused to launch the worker binary.
    Failed,
}

/// The result of one request to terminate a worker process.
#[derive(Clone, Copy, Debug, PartialEq, Eq, Structural)]
pub enum KillOutcome {
    /// The termination signal was delivered.
    Killed,
    /// The signal could not be delivered.
    Failed,
}

/// The reasons for which a supervisor operation fails.
#[derive(Clone, Copy, Debug, PartialEq, Eq, Structural)]
pub enum CrankError {
    /// The worker process could not be launched.
    SpawnFailed,
    /// A halt was asked of a record that holds no process.
    NoHandle,
    /// The process could not be signalled.
    SignalFailed,
    /// No record is kept for the market.
    NotFound,
}

/// The text of an error about the market `market_id`.
pub open spec fn message_spec(error: CrankError, market_id: Seq<char>) -> Seq<char> {
    match error {
        CrankError::SpawnFailed => "could not start crank for market "@ + market_id,
        CrankError::NoHandle => "something went wrong, no process handle for market "@
            + market_id,
        CrankError::SignalFailed => "could not stop crank for market "@ + market_id,
        CrankError::NotFound => "something went wrong, cannot find crank with market id "@
            + market_id,
    }
}

impl CrankError {
    /// Describes the error for the market it arose on.
    pub fn message(&self, market_id: &str) -> (text: String)
        ensures
            text@ == message_spec(*self, market_id@),
    {
        let head: &'static str = match self {
            CrankError::SpawnFailed => "could not start crank for market ",
            CrankError::NoHandle => "something went wrong, no process handle for market ",
            CrankError::SignalFailed => "could not stop crank for market ",
            CrankError::NotFound => "something went wrong, cannot find crank with market id ",
        };
        String::from_str(head).concat(market_id)
    }
}

} // verus!
