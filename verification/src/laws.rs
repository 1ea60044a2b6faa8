//! What holds of the registry across its operations.

use vstd::prelude::*;
use crate::crank::CrankView;
use crate::error::{CrankError, KillOutcome};
use crate::model::MarketView;
use crate::state::{
    descriptors, distinct_markets, dormant_all, filed, has_market, lapsed, lasting,
    lease_follows_process, lemma_filed, lemma_filter_distinct, lemma_position, lemma_removed,
    lemma_restored_distinct, position, restored, well_formed, ParametersView, State,
};

verus! {

/// A market that was added is listed exactly once: the list of active
/// markets holds the descriptor of the new record at one place, and no
/// other entry of the list has the market's address.
pub proof fn lemma_added_market_listed_once(
    cranks: Seq<CrankView>,
    params: ParametersView,
    market: MarketView,
    crank_duration: Option<u64>,
    process: u64,
    now: u64,
)
    requires
        distinct_markets(cranks),
    ensures
        ({
            let crank = CrankView::fresh(params, market, crank_duration).started(process, now);
            let listed = descriptors(filed(cranks, crank));
            let place = position(cranks, market.address);
            &&& 0 <= place < listed.len()
            &&& listed[place] == crank.descriptor()
            &&& listed[place].address == market.address
            &&& forall|j: int|
                0 <= j < listed.len() && j != place ==> (#[trigger] listed[j]).address
                    != market.address
        }),
{
    let crank = CrankView::fresh(params, market, crank_duration).started(process, now);
    let after = filed(cranks, crank);
    let listed = descriptors(after);
    let place = position(cranks, market.address);
    lemma_position(cranks, market.address);
    lemma_filed(cranks, crank);
    assert forall|j: int| 0 <= j < listed.len() && j != place implies (#[trigger] listed[j]).address
        != market.address by {
        if j < place {
            assert(after[j].market != after[place].market);
        } else {
            assert(after[place].market != after[j].market);
        }
    }
}

/// Adding a market twice leaves one record for it, the later one: the
/// registry is as if the first addition had not taken place.
pub proof fn lemma_added_twice(cranks: Seq<CrankView>, first: CrankView, second: CrankView)
    requires
        distinct_markets(cranks),
        first.market == second.market,
    ensures
        filed(filed(cranks, first), second) == filed(cranks, second),
        filed(filed(cranks, first), second).len() == filed(cranks, first).len(),
{
    lemma_position(cranks, first.market);
    lemma_filed(cranks, first);
    lemma_filed(cranks, second);
    let once = filed(cranks, first);
    lemma_filed(once, second);
    assert(filed(once, second) =~= filed(cranks, second));
}

/// A purge of a market that the registry does not keep answers that the
/// market was not found, and leaves the registry as it was.
pub proof fn lemma_purge_unknown(cranks: Seq<CrankView>, market_id: Seq<char>, kill: KillOutcome)
    requires
        !has_market(cranks, market_id),
    ensures
        State::purged(cranks, market_id, kill) == Err::<Option<MarketView>, CrankError>(
            CrankError::NotFound,
        ),
        State::after_purge(cranks, market_id, kill) == cranks,
{
}

/// A purge that answers with a market has taken its record off the registry
/// and off the list of active markets, and the process that the record held
/// was signalled to terminate.
pub proof fn lemma_purged_gone(cranks: Seq<CrankView>, market_id: Seq<char>, kill: KillOutcome)
    requires
        distinct_markets(cranks),
        State::purged(cranks, market_id, kill) is Ok,
    ensures
        has_market(cranks, market_id),
        cranks[position(cranks, market_id)].handle is Some,
        kill == KillOutcome::Killed,
        State::purged(cranks, market_id, kill) == Ok::<Option<MarketView>, CrankError>(
            Some(cranks[position(cranks, market_id)].descriptor()),
        ),
        distinct_markets(State::after_purge(cranks, market_id, kill)),
        State::after_purge(cranks, market_id, kill).len() == cranks.len() - 1,
        !has_market(State::after_purge(cranks, market_id, kill), market_id),
        forall|j: int|
            0 <= j < descriptors(State::after_purge(cranks, market_id, kill)).len() ==> (
            #[trigger] descriptors(State::after_purge(cranks, market_id, kill))[j]).address
                != market_id,
{
    lemma_position(cranks, market_id);
    lemma_removed(cranks, market_id);
    let after = State::after_purge(cranks, market_id, kill);
    lemma_position(after, market_id);
}

/// A bounded lease that started at `start` has run out at `now` exactly when
/// sixty seconds have passed for each of its minutes; a lease of no minutes
/// has run out as soon as it starts.
pub proof fn lemma_finished_when(crank: CrankView, start: u64, minutes: u64, now: u64)
    requires
        crank.start_time == Some(start),
        crank.should_run_for == Some(minutes),
    ensures
        crank.finished(now) <==> (minutes == 0 || now >= start + 60 * minutes),
{
    if now >= start {
        let passed: int = now - start;
        assert((passed / 60 >= minutes) <==> (passed >= 60 * minutes)) by (nonlinear_arith)
            requires
                passed >= 0,
                minutes >= 0,
        ;
    }
}

/// A record without a bound on its run, or one that was never launched,
/// never runs out.
pub proof fn lemma_unbounded_never_finished(crank: CrankView, now: u64)
    requires
        crank.should_run_for is None || crank.start_time is None,
    ensures
        !crank.finished(now),
{
}

/// A pass over the registry evicts the records whose lease has run out and
/// no others: such a record is among those handed back, it holds the process
/// to terminate, and its market is no longer kept; any other record stays.
pub proof fn lemma_pass_evicts(cranks: Seq<CrankView>, now: u64, place: int)
    requires
        well_formed(cranks),
        0 <= place < cranks.len(),
    ensures
        cranks[place].finished(now) ==> lapsed(cranks, now).contains(cranks[place])
            && cranks[place].handle is Some && !has_market(
            lasting(cranks, now),
            cranks[place].market,
        ),
        !cranks[place].finished(now) ==> lasting(cranks, now).contains(cranks[place])
            && has_market(lasting(cranks, now), cranks[place].market),
{
    let gone = |crank: CrankView| crank.finished(now);
    let stays = |crank: CrankView| !crank.finished(now);
    let kept = lasting(cranks, now);
    let market_id = cranks[place].market;
    assert(lease_follows_process(cranks[place]));
    lemma_filter_distinct(cranks, stays);
    lemma_position(kept, market_id);
    if cranks[place].finished(now) {
        cranks.lemma_filter_contains(gone, place);
        if has_market(kept, market_id) {
            let at = position(kept, market_id);
            cranks.lemma_filter_pred(stays, at);
            assert(cranks.contains(kept[at]));
            let from = choose|from: int| 0 <= from < cranks.len() && cranks[from] == kept[at];
            if from < place {
                assert(cranks[from].market != cranks[place].market);
            } else if from > place {
                assert(cranks[place].market != cranks[from].market);
            }
        }
    } else {
        cranks.lemma_filter_contains(stays, place);
        let at = choose|at: int| 0 <= at < kept.len() && kept[at] == cranks[place];
        if !has_market(kept, market_id) {
            assert(kept[at].market != market_id);
        }
    }
}

/// Every record that a pass hands back holds a process, and its lease has
/// run out; every record that the pass leaves has time left.
pub proof fn lemma_pass_parts(cranks: Seq<CrankView>, now: u64)
    requires
        well_formed(cranks),
    ensures
        forall|i: int|
            0 <= i < lapsed(cranks, now).len() ==> {
                let crank = #[trigger] lapsed(cranks, now)[i];
                crank.finished(now) && crank.handle is Some && cranks.contains(crank)
            },
        forall|i: int|
            0 <= i < lasting(cranks, now).len() ==> {
                let crank = #[trigger] lasting(cranks, now)[i];
                !crank.finished(now) && cranks.contains(crank)
            },
        lapsed(cranks, now).len() + lasting(cranks, now).len() == cranks.len(),
{
    let gone = |crank: CrankView| crank.finished(now);
    let stays = |crank: CrankView| !crank.finished(now);
    lemma_filter_distinct(cranks, gone);
    lemma_filter_distinct(cranks, stays);
    assert forall|i: int| 0 <= i < lapsed(cranks, now).len() implies {
        let crank = #[trigger] lapsed(cranks, now)[i];
        crank.finished(now) && crank.handle is Some && cranks.contains(crank)
    } by {
        let crank = lapsed(cranks, now)[i];
        cranks.lemma_filter_pred(gone, i);
        assert(cranks.contains(crank));
        let from = choose|from: int| 0 <= from < cranks.len() && cranks[from] == crank;
        assert(lease_follows_process(cranks[from]));
    }
    assert forall|i: int| 0 <= i < lasting(cranks, now).len() implies {
        let crank = #[trigger] lasting(cranks, now)[i];
        !crank.finished(now) && cranks.contains(crank)
    } by {
        cranks.lemma_filter_pred(stays, i);
    }
    lemma_parts_len(cranks, now);
}

/// A pass divides the records: each is handed back or left.
proof fn lemma_parts_len(cranks: Seq<CrankView>, now: u64)
    ensures
        lapsed(cranks, now).len() + lasting(cranks, now).len() == cranks.len(),
    decreases cranks.len(),
{
    reveal(Seq::filter);
    if cranks.len() > 0 {
        lemma_parts_len(cranks.drop_last(), now);
    }
}

/// What is persisted of a registry comes back as it was persisted: as many
/// records, each with the launch configuration it had, and none with a
/// process or a lease.
pub proof fn lemma_snapshot_restores(cranks: Seq<CrankView>)
    requires
        distinct_markets(cranks),
    ensures
        restored(dormant_all(cranks)) == dormant_all(cranks),
        restored(dormant_all(cranks)).len() == cranks.len(),
        forall|i: int|
            0 <= i < cranks.len() ==> {
                let back = #[trigger] restored(dormant_all(cranks))[i];
                &&& back == cranks[i].dormant()
                &&& back.handle is None
                &&& back.start_time is None
                &&& back.market == cranks[i].market
                &&& back.args() == cranks[i].args()
                &&& back.crank_bin == cranks[i].crank_bin
                &&& back.should_run_for == cranks[i].should_run_for
            },
{
    let persisted = dormant_all(cranks);
    assert forall|i: int, j: int| 0 <= i < j < persisted.len() implies (
    #[trigger] persisted[i]).market != (#[trigger] persisted[j]).market by {
        assert(cranks[i].market != cranks[j].market);
    }
    lemma_restored_distinct(persisted);
}

} // verus!
