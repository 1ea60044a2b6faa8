//! What each request to the supervisor does to the registry. The caller
//! holds the registry for the length of a call, performs the launch or the
//! termination that the request stands for, and reports how it went.

use vstd::prelude::*;
use crate::crank::CrankView;
use crate::error::{CrankError, KillOutcome, SpawnOutcome};
use crate::model::{market_views, CrankRequest, Market, MarketView};
use crate::state::{descriptors, filed, State};

verus! {

/// Starts the crank that `req` asks for: the market is added to the
/// registry where its worker was launched, and the request fails where it
/// was not.
pub fn start_crank(req: CrankRequest, state: &mut State, outcome: SpawnOutcome, now: u64) -> (done:
    Result<(), CrankError>)
    requires
        old(state).wf(),
    ensures
        final(state).wf(),
        final(state)@.params == old(state)@.params,
        match outcome {
            SpawnOutcome::Started { process } => done == Ok::<(), CrankError>(())
                && final(state)@.cranks == filed(
                old(state)@.cranks,
                CrankView::fresh(old(state)@.params, req.market_info@, req.crank_duration).started(
                    process,
                    now,
                ),
            ),
            SpawnOutcome::Failed => done == Err::<(), CrankError>(CrankError::SpawnFailed)
                && final(state)@.cranks == old(state)@.cranks,
        },
{
    state.add_market(req.market_info, req.crank_duration, outcome, now)
}

/// The markets that are cranked now, one descriptor for each record, in the
/// order of the registry.
pub fn active_cranks(state: &State) -> (markets: Vec<Market>)
    ensures
        market_views(markets@) == descriptors(state@.cranks),
{
    let cranks = state.get_cranks();
    let mut markets: Vec<Market> = Vec::new();
    let mut place: usize = 0;
    while place < cranks.len()
        invariant
            place <= cranks@.len(),
            markets@.len() == place,
            forall|i: int| 0 <= i < place ==> (#[trigger] markets@[i])@ == cranks@[i]@.descriptor(),
        decreases cranks@.len() - place,
    {
        markets.push(cranks[place].descriptor());
        place = place + 1;
    }
    assert forall|i: int| 0 <= i < markets@.len() implies market_views(markets@)[i] == descriptors(
        state@.cranks,
    )[i] by {
        assert(crate::state::crank_views(cranks@)[i] == cranks@[i]@);
    }
    assert(market_views(markets@) =~= descriptors(state@.cranks));
    markets
}

/// What a purge of `market_id` answers, given the report `kill` of the
/// request to terminate the worker's process.
pub open spec fn purge_answer(
    cranks: Seq<CrankView>,
    market_id: Seq<char>,
    kill: KillOutcome,
) -> Result<MarketView, CrankError> {
    match State::purged(cranks, market_id, kill) {
        Ok(Some(market)) => Ok(market),
        Ok(None) => Err(CrankError::NotFound),
        Err(error) => Err(error),
    }
}

/// Halts the crank of `market_id` and takes it off the registry; the answer
/// is the descriptor of the market that left. The registry changes only
/// where the answer is a market.
pub fn purge(state: &mut State, market_id: String, kill: KillOutcome) -> (removed: Result<
    Market,
    CrankError,
>)
    requires
        old(state).wf(),
    ensures
        final(state).wf(),
        final(state)@.params == old(state)@.params,
        match removed {
            Ok(market) => Ok::<MarketView, CrankError>(market@) == purge_answer(
                old(state)@.cranks,
                market_id@,
                kill,
            ),
            Err(error) => Err::<MarketView, CrankError>(error) == purge_answer(
                old(state)@.cranks,
                market_id@,
                kill,
            ),
        },
        final(state)@.cranks == State::after_purge(old(state)@.cranks, market_id@, kill),
{
    match state.purge_market(market_id.as_str(), kill) {
        Ok(Some(market)) => Ok(market),
        Ok(None) => Err(CrankError::NotFound),
        Err(error) => Err(error),
    }
}

} // verus!
