//! The supervisor's configuration and its registry of cranks.

use vstd::prelude::*;
use vstd::string::*;
use crate::paths::{
    expand_tilde, join, joined, tilde_outcome, DEFAULT_PERSIST_PATH, MARKETS_FILE, STATE_FILE,
};
use crate::crank::{CrankInstance, CrankView};
use crate::error::{CrankError, KillOutcome, SpawnOutcome};
use crate::model::{Market, MarketView, Markets};
use crate::text::opt_text;

verus! {

/// What the supervisor is started with. The two folders may be left out.
#[derive(Debug)]
pub struct Arguments {
    /// Path to the crank binary.
    pub crank: String,
    /// RPC endpoint.
    pub rpc: String,
    /// Path to the gas payer's key file.
    pub gas_payer: String,
    /// Server socket.
    pub socket: u16,
    /// Path to the market list.
    pub markets: Option<String>,
    /// Path to the folder where state and logs are stored.
    pub persist: Option<String>,
}

/// What an [`Arguments`] holds.
pub ghost struct ArgumentsView {
    pub crank: Seq<char>,
    pub rpc: Seq<char>,
    pub gas_payer: Seq<char>,
    pub socket: u16,
    pub markets: Option<Seq<char>>,
    pub persist: Option<Seq<char>>,
}

impl View for Arguments {
    type V = ArgumentsView;

    open spec fn view(&self) -> ArgumentsView {
        ArgumentsView {
            crank: self.crank@,
            rpc: self.rpc@,
            gas_payer: self.gas_payer@,
            socket: self.socket,
            markets: opt_text(self.markets),
            persist: opt_text(self.persist),
        }
    }
}

/// The launch parameters that all cranks share: [`Arguments`] with every
/// folder filled in.
#[derive(Debug)]
pub struct Parameters {
    /// Path to the crank binary.
    pub crank: String,
    /// RPC endpoint.
    pub rpc: String,
    /// Path to the gas payer's key file.
    pub gas_payer: String,
    /// Server socket.
    pub socket: u16,
    /// Path to the market list.
    pub markets: String,
    /// Path to the folder where state and logs are stored.
    pub persist: String,
}

/// What a [`Parameters`] holds.
pub ghost struct ParametersView {
    pub crank: Seq<char>,
    pub rpc: Seq<char>,
    pub gas_payer: Seq<char>,
    pub socket: u16,
    pub markets: Seq<char>,
    pub persist: Seq<char>,
}

impl View for Parameters {
    type V = ParametersView;

    open spec fn view(&self) -> ParametersView {
        ParametersView {
            crank: self.crank@,
            rpc: self.rpc@,
            gas_payer: self.gas_payer@,
            socket: self.socket,
            markets: self.markets@,
            persist: self.persist@,
        }
    }
}

impl Clone for Parameters {
    fn clone(&self) -> (copy: Self)
        ensures
            copy@ == self@,
    {
        Parameters {
            crank: self.crank.clone(),
            rpc: self.rpc.clone(),
            gas_payer: self.gas_payer.clone(),
            socket: self.socket,
            markets: self.markets.clone(),
            persist: self.persist.clone(),
        }
    }
}

impl ArgumentsView {
    /// The parameters that these arguments stand for, where `default_dir` is
    /// the folder to use when none is named: the market list defaults to
    /// `markets.json` in that folder.
    pub open spec fn resolved(self, default_dir: Seq<char>) -> ParametersView {
        ParametersView {
            crank: self.crank,
            rpc: self.rpc,
            gas_payer: self.gas_payer,
            socket: self.socket,
            markets: match self.markets {
                Some(path) => path,
                None => joined(default_dir, MARKETS_FILE@),
            },
            persist: match self.persist {
                Some(path) => path,
                None => default_dir,
            },
        }
    }

    /// The file in which a registry persisted under these arguments is
    /// looked for.
    pub open spec fn state_file(self, default_dir: Seq<char>) -> Seq<char> {
        match self.persist {
            Some(folder) => joined(folder, STATE_FILE@),
            None => joined(default_dir, STATE_FILE@),
        }
    }
}

impl ParametersView {
    /// The file in which the registry is persisted.
    pub open spec fn state_file(self) -> Seq<char> {
        joined(self.persist, STATE_FILE@)
    }
}

impl Parameters {
    /// Fills in what `args` leaves out, with `default_dir` as the folder to
    /// use when none is named.
    pub fn resolve(args: &Arguments, default_dir: &str) -> (params: Parameters)
        ensures
            params@ == args@.resolved(default_dir@),
    {
        let markets: String = match &args.markets {
            Some(path) => path.clone(),
            None => join(default_dir, MARKETS_FILE),
        };
        let persist: String = match &args.persist {
            Some(path) => path.clone(),
            None => String::from_str(default_dir),
        };
        Parameters {
            crank: args.crank.clone(),
            rpc: args.rpc.clone(),
            gas_payer: args.gas_payer.clone(),
            socket: args.socket,
            markets,
            persist,
        }
    }

    /// Fills in what `args` leaves out. The default folder is
    /// [`DEFAULT_PERSIST_PATH`] with its tilde expanded to the home directory
    /// of the user, as far as one is known.
    pub fn from_arguments(args: &Arguments) -> (params: Parameters)
        ensures
            exists|default_dir: Seq<char>|
                tilde_outcome(DEFAULT_PERSIST_PATH@, default_dir) && params@ == args@.resolved(
                    default_dir,
                ),
    {
        let default_dir: String = expand_tilde(DEFAULT_PERSIST_PATH);
        Parameters::resolve(args, default_dir.as_str())
    }

    /// The file in which the registry is persisted.
    pub fn state_file(&self) -> (path: String)
        ensures
            path@ == self@.state_file(),
    {
        join(self.persist.as_str(), STATE_FILE)
    }
}

impl Arguments {
    /// The file in which a persisted registry is looked for, with
    /// `default_dir` as the folder to use when none is named.
    pub fn state_file_under(&self, default_dir: &str) -> (path: String)
        ensures
            path@ == self@.state_file(default_dir@),
    {
        match &self.persist {
            Some(folder) => join(folder.as_str(), STATE_FILE),
            None => join(default_dir, STATE_FILE),
        }
    }

    /// The file in which a persisted registry is looked for; the default
    /// folder is found as in [`Parameters::from_arguments`].
    pub fn state_file(&self) -> (path: String)
        ensures
            exists|default_dir: Seq<char>|
                tilde_outcome(DEFAULT_PERSIST_PATH@, default_dir) && path@ == self@.state_file(
                    default_dir,
                ),
    {
        let default_dir: String = expand_tilde(DEFAULT_PERSIST_PATH);
        self.state_file_under(default_dir.as_str())
    }
}

/// Holds when no two records of `cranks` are for the same market.
pub open spec fn distinct_markets(cranks: Seq<CrankView>) -> bool {
    forall|i: int, j: int|
        0 <= i < j < cranks.len() ==> (#[trigger] cranks[i]).market != (#[trigger] cranks[j]).market
}

/// Holds when a record holds a process exactly when its lease has a start:
/// the two are set together at a launch and dropped together.
pub open spec fn lease_follows_process(crank: CrankView) -> bool {
    crank.handle is Some <==> crank.start_time is Some
}

/// Holds when the lease of every record of `cranks` follows its process.
pub open spec fn leases_follow_processes(cranks: Seq<CrankView>) -> bool {
    forall|i: int| 0 <= i < cranks.len() ==> lease_follows_process(#[trigger] cranks[i])
}

/// What holds of the records of every registry: no market has two records,
/// and a record has a lease exactly while it holds a process.
pub open spec fn well_formed(cranks: Seq<CrankView>) -> bool {
    distinct_markets(cranks) && leases_follow_processes(cranks)
}

/// The place of the first record for `market_id` in `cranks`; the length of
/// `cranks` where there is none.
pub open spec fn position(cranks: Seq<CrankView>, market_id: Seq<char>) -> int
    decreases cranks.len(),
{
    if cranks.len() == 0 {
        0
    } else if cranks[0].market == market_id {
        0
    } else {
        1 + position(cranks.skip(1), market_id)
    }
}

/// Holds when `cranks` has a record for `market_id`.
pub open spec fn has_market(cranks: Seq<CrankView>, market_id: Seq<char>) -> bool {
    position(cranks, market_id) < cranks.len()
}

/// `cranks` with `crank` filed under its market: in the place of the record
/// that was kept for that market, or behind all others where there was none.
pub open spec fn filed(cranks: Seq<CrankView>, crank: CrankView) -> Seq<CrankView> {
    let place = position(cranks, crank.market);
    if place < cranks.len() {
        cranks.update(place, crank)
    } else {
        cranks.push(crank)
    }
}

/// Every record of `cranks` in its persisted form.
pub open spec fn dormant_all(cranks: Seq<CrankView>) -> Seq<CrankView> {
    Seq::new(cranks.len(), |i: int| cranks[i].dormant())
}

/// The registry that a list of persisted records stands for: each record
/// in its persisted form, a later record for a market in the place of an
/// earlier one.
pub open spec fn restored(records: Seq<CrankView>) -> Seq<CrankView>
    decreases records.len(),
{
    if records.len() == 0 {
        Seq::empty()
    } else {
        filed(restored(records.drop_last()), records.last().dormant())
    }
}

/// The descriptors under which the records of `cranks` are reported.
pub open spec fn descriptors(cranks: Seq<CrankView>) -> Seq<MarketView> {
    Seq::new(cranks.len(), |i: int| cranks[i].descriptor())
}

/// What the records of a vector hold.
pub open spec fn crank_views(cranks: Seq<CrankInstance>) -> Seq<CrankView> {
    Seq::new(cranks.len(), |i: int| cranks[i]@)
}

/// `position` is the place of the first record for the market: nothing
/// before it is for the market, and it is, unless it is the length.
pub proof fn lemma_position(cranks: Seq<CrankView>, market_id: Seq<char>)
    ensures
        0 <= position(cranks, market_id) <= cranks.len(),
        position(cranks, market_id) < cranks.len() ==> cranks[position(
            cranks,
            market_id,
        )].market == market_id,
        forall|j: int|
            0 <= j < position(cranks, market_id) ==> (#[trigger] cranks[j]).market != market_id,
    decreases cranks.len(),
{
    if cranks.len() > 0 && cranks[0].market != market_id {
        let rest = cranks.skip(1);
        lemma_position(rest, market_id);
        assert forall|j: int| 0 <= j < position(cranks, market_id) implies (#[trigger] cranks[j]).market
            != market_id by {
            if j > 0 {
                assert(rest[j - 1] == cranks[j]);
            }
        }
    }
}

/// The place at which a scan from the front first meets the market is its
/// `position`.
pub proof fn lemma_position_is(cranks: Seq<CrankView>, market_id: Seq<char>, place: int)
    requires
        0 <= place <= cranks.len(),
        forall|j: int| 0 <= j < place ==> (#[trigger] cranks[j]).market != market_id,
        place < cranks.len() ==> cranks[place].market == market_id,
    ensures
        position(cranks, market_id) == place,
{
    lemma_position(cranks, market_id);
    let found = position(cranks, market_id);
    if found < place {
        assert(cranks[found].market == market_id);
    } else if found > place {
        assert(cranks[place].market == market_id);
    }
}

/// Filing a record keeps the markets of a registry distinct, and the
/// registry then has exactly one record for that market: the one filed.
pub proof fn lemma_filed(cranks: Seq<CrankView>, crank: CrankView)
    requires
        distinct_markets(cranks),
    ensures
        distinct_markets(filed(cranks, crank)),
        position(filed(cranks, crank), crank.market) == position(cranks, crank.market),
        filed(cranks, crank)[position(cranks, crank.market)] == crank,
        filed(cranks, crank).len() == if has_market(cranks, crank.market) {
            cranks.len()
        } else {
            cranks.len() + 1
        },
{
    lemma_position(cranks, crank.market);
    let place = position(cranks, crank.market);
    let after = filed(cranks, crank);
    assert forall|i: int, j: int| 0 <= i < j < after.len() implies (#[trigger] after[i]).market != (
    #[trigger] after[j]).market by {
        if place < cranks.len() {
            if i == place {
                assert(after[j] == cranks[j]);
                assert(cranks[place].market != cranks[j].market);
            } else if j == place {
                assert(after[i] == cranks[i]);
                assert(cranks[i].market != cranks[place].market);
            } else {
                assert(after[i] == cranks[i] && after[j] == cranks[j]);
            }
        } else {
            if j == cranks.len() {
                assert(after[i] == cranks[i]);
            } else {
                assert(after[i] == cranks[i] && after[j] == cranks[j]);
            }
        }
    }
    assert forall|j: int| 0 <= j < place implies (#[trigger] after[j]).market != crank.market by {
        assert(after[j] == cranks[j]);
    }
    lemma_position_is(after, crank.market, place);
}

/// Taking the record for a market out of a registry keeps its markets
/// distinct and leaves no record for that market.
pub proof fn lemma_removed(cranks: Seq<CrankView>, market_id: Seq<char>)
    requires
        distinct_markets(cranks),
        has_market(cranks, market_id),
    ensures
        distinct_markets(cranks.remove(position(cranks, market_id))),
        !has_market(cranks.remove(position(cranks, market_id)), market_id),
{
    lemma_position(cranks, market_id);
    let place = position(cranks, market_id);
    let after = cranks.remove(place);
    assert forall|i: int, j: int| 0 <= i < j < after.len() implies (#[trigger] after[i]).market != (
    #[trigger] after[j]).market by {
        let from_i = if i < place {
            i
        } else {
            i + 1
        };
        let from_j = if j < place {
            j
        } else {
            j + 1
        };
        assert(after[i] == cranks[from_i] && after[j] == cranks[from_j]);
    }
    assert forall|j: int| 0 <= j < after.len() implies (#[trigger] after[j]).market
        != market_id by {
        let from_j = if j < place {
            j
        } else {
            j + 1
        };
        assert(after[j] == cranks[from_j]);
        if from_j > place {
            assert(cranks[place].market != cranks[from_j].market);
        }
    }
    lemma_position_is(after, market_id, after.len() as int);
}

/// The records of `cranks` whose lease has run out at `now`, in their order.
pub open spec fn lapsed(cranks: Seq<CrankView>, now: u64) -> Seq<CrankView> {
    cranks.filter(|crank: CrankView| crank.finished(now))
}

/// The records of `cranks` whose lease has not run out at `now`, in their
/// order.
pub open spec fn lasting(cranks: Seq<CrankView>, now: u64) -> Seq<CrankView> {
    cranks.filter(|crank: CrankView| !crank.finished(now))
}

/// How `lapsed` and `lasting` grow with one more record looked at.
pub proof fn lemma_lease_step(cranks: Seq<CrankView>, now: u64, k: int)
    requires
        0 <= k < cranks.len(),
    ensures
        lapsed(cranks.take(k + 1), now) == if cranks[k].finished(now) {
            lapsed(cranks.take(k), now).push(cranks[k])
        } else {
            lapsed(cranks.take(k), now)
        },
        lasting(cranks.take(k + 1), now) == if cranks[k].finished(now) {
            lasting(cranks.take(k), now)
        } else {
            lasting(cranks.take(k), now).push(cranks[k])
        },
{
    reveal(Seq::filter);
    assert(cranks.take(k + 1).drop_last() =~= cranks.take(k));
    assert(cranks.take(k + 1).last() == cranks[k]);
}

/// A selection from a registry keeps its markets distinct, and holds only
/// records of the registry.
pub proof fn lemma_filter_distinct(cranks: Seq<CrankView>, pred: spec_fn(CrankView) -> bool)
    requires
        distinct_markets(cranks),
    ensures
        distinct_markets(cranks.filter(pred)),
        forall|i: int|
            0 <= i < cranks.filter(pred).len() ==> cranks.contains(
                #[trigger] cranks.filter(pred)[i],
            ),
    decreases cranks.len(),
{
    reveal(Seq::filter);
    if cranks.len() > 0 {
        let front = cranks.drop_last();
        let last = cranks.last();
        assert forall|i: int, j: int| 0 <= i < j < front.len() implies (#[trigger] front[i]).market
            != (#[trigger] front[j]).market by {
            assert(front[i] == cranks[i] && front[j] == cranks[j]);
        }
        lemma_filter_distinct(front, pred);
        let sub = front.filter(pred);
        let out = cranks.filter(pred);
        assert forall|i: int| 0 <= i < out.len() implies cranks.contains(#[trigger] out[i]) by {
            if i < sub.len() {
                assert(out[i] == sub[i]);
                assert(front.contains(sub[i]));
                let at = choose|at: int| 0 <= at < front.len() && front[at] == sub[i];
                assert(cranks[at] == sub[i]);
            } else {
                assert(out[i] == cranks[cranks.len() - 1]);
            }
        }
        assert forall|i: int, j: int| 0 <= i < j < out.len() implies (#[trigger] out[i]).market != (
        #[trigger] out[j]).market by {
            if j < sub.len() {
                assert(out[i] == sub[i] && out[j] == sub[j]);
            } else {
                assert(out[i] == sub[i]);
                assert(front.contains(sub[i]));
                let at = choose|at: int| 0 <= at < front.len() && front[at] == sub[i];
                assert(cranks[at] == sub[i]);
                assert(out[j] == cranks[cranks.len() - 1]);
                assert(cranks[at].market != cranks[cranks.len() - 1].market);
            }
        }
    }
}

/// The number of launches at the front of `outcomes` that succeeded: the
/// place of the first failure, or the length where there is none.
pub open spec fn leading_started(outcomes: Seq<SpawnOutcome>) -> int
    decreases outcomes.len(),
{
    if outcomes.len() == 0 {
        0
    } else if outcomes[0] == SpawnOutcome::Failed {
        0
    } else {
        1 + leading_started(outcomes.skip(1))
    }
}

/// The number of records that a restart with `outcomes` launches: one for
/// each success at the front of `outcomes`, as far as there are records.
pub open spec fn relaunched(cranks: Seq<CrankView>, outcomes: Seq<SpawnOutcome>) -> int {
    if leading_started(outcomes) <= cranks.len() {
        leading_started(outcomes)
    } else {
        cranks.len() as int
    }
}

/// The registry after a restart of its records, in their order, with
/// `outcomes` as the reports of the launches at `now`: the records up to the
/// first failure hold their new process, the others are as they were.
pub open spec fn restarted(
    cranks: Seq<CrankView>,
    outcomes: Seq<SpawnOutcome>,
    now: u64,
) -> Seq<CrankView> {
    Seq::new(
        cranks.len(),
        |i: int|
            if i < relaunched(cranks, outcomes) {
                cranks[i].after_launch(outcomes[i], now)
            } else {
                cranks[i]
            },
    )
}

/// Holds when a restart with `outcomes` meets a failed launch of one of the
/// records.
pub open spec fn restart_fails(cranks: Seq<CrankView>, outcomes: Seq<SpawnOutcome>) -> bool {
    leading_started(outcomes) < outcomes.len() && leading_started(outcomes) < cranks.len()
}

/// `leading_started` is the place of the first failure: every outcome before
/// it is a success, and it is a failure, unless it is the length.
pub proof fn lemma_leading_started(outcomes: Seq<SpawnOutcome>)
    ensures
        0 <= leading_started(outcomes) <= outcomes.len(),
        leading_started(outcomes) < outcomes.len() ==> outcomes[leading_started(outcomes)]
            == SpawnOutcome::Failed,
        forall|j: int|
            0 <= j < leading_started(outcomes) ==> #[trigger] outcomes[j] != SpawnOutcome::Failed,
    decreases outcomes.len(),
{
    if outcomes.len() > 0 && outcomes[0] != SpawnOutcome::Failed {
        let rest = outcomes.skip(1);
        lemma_leading_started(rest);
        assert forall|j: int| 0 <= j < leading_started(outcomes) implies #[trigger] outcomes[j]
            != SpawnOutcome::Failed by {
            if j > 0 {
                assert(rest[j - 1] == outcomes[j]);
            }
        }
    }
}

/// A list of persisted records with distinct markets stands for itself.
pub proof fn lemma_restored_distinct(records: Seq<CrankView>)
    requires
        distinct_markets(records),
        forall|i: int| 0 <= i < records.len() ==> (#[trigger] records[i]).dormant() == records[i],
    ensures
        restored(records) == records,
    decreases records.len(),
{
    if records.len() > 0 {
        let front = records.drop_last();
        let last = records.last();
        assert forall|i: int, j: int| 0 <= i < j < front.len() implies (#[trigger] front[i]).market
            != (#[trigger] front[j]).market by {
            assert(front[i] == records[i] && front[j] == records[j]);
        }
        assert forall|i: int| 0 <= i < front.len() implies (#[trigger] front[i]).dormant()
            == front[i] by {
            assert(front[i] == records[i]);
        }
        lemma_restored_distinct(front);
        assert forall|j: int| 0 <= j < front.len() implies (#[trigger] front[j]).market
            != last.market by {
            assert(front[j] == records[j]);
            assert(records[j].market != records[records.len() - 1].market);
        }
        lemma_position_is(front, last.market, front.len() as int);
        assert(last.dormant() == last);
        assert(front.push(last) =~= records);
    }
}

/// The registry of cranks, with the parameters that all of them are launched
/// with. It keeps at most one record for a market.
#[derive(Debug)]
pub struct State {
    /// The launch parameters.
    pub params: Parameters,
    /// The records, in the order in which their markets were first added.
    cranks: Vec<CrankInstance>,
}

/// What a [`State`] holds.
pub ghost struct StateView {
    pub params: ParametersView,
    pub cranks: Seq<CrankView>,
}

impl View for State {
    type V = StateView;

    closed spec fn view(&self) -> StateView {
        StateView { params: self.params@, cranks: crank_views(self.cranks@) }
    }
}

impl State {
    /// The invariant of the registry: no market has two records, and a
    /// record has a lease exactly while it holds a process.
    pub open spec fn wf(&self) -> bool {
        well_formed(self@.cranks)
    }

    /// A registry without records.
    pub fn new(params: Parameters) -> (state: State)
        ensures
            state.wf(),
            state@.params == params@,
            state@.cranks == Seq::<CrankView>::empty(),
    {
        let state = State { params, cranks: Vec::new() };
        assert(state@.cranks =~= Seq::<CrankView>::empty());
        state
    }

    /// The launch parameters.
    pub fn params(&self) -> (params: &Parameters)
        ensures
            params@ == self@.params,
    {
        &self.params
    }

    /// The number of records.
    pub fn len(&self) -> (n: usize)
        ensures
            n == self@.cranks.len(),
    {
        self.cranks.len()
    }

    /// All records, in the order of the registry.
    pub fn get_cranks(&self) -> (cranks: &Vec<CrankInstance>)
        ensures
            crank_views(cranks@) == self@.cranks,
    {
        &self.cranks
    }

    /// The place of the record for `market_id`; the number of records where
    /// there is none.
    pub fn find(&self, market_id: &str) -> (place: usize)
        ensures
            place == position(self@.cranks, market_id@),
            place <= self@.cranks.len(),
    {
        let key: String = String::from_str(market_id);
        let mut place: usize = 0;
        while place < self.cranks.len()
            invariant
                key@ == market_id@,
                place <= self.cranks@.len(),
                forall|j: int|
                    0 <= j < place ==> (#[trigger] self@.cranks[j]).market != market_id@,
            decreases self.cranks@.len() - place,
        {
            if self.cranks[place].market == key {
                proof {
                    lemma_position_is(self@.cranks, market_id@, place as int);
                }
                return place;
            }
            place = place + 1;
        }
        proof {
            lemma_position_is(self@.cranks, market_id@, place as int);
        }
        place
    }

    /// Tells whether a record is kept for `market_id`.
    pub fn contains(&self, market_id: &str) -> (present: bool)
        ensures
            present == has_market(self@.cranks, market_id@),
    {
        self.find(market_id) < self.cranks.len()
    }

    /// The record for `market_id`, if one is kept.
    pub fn get(&self, market_id: &str) -> (found: Option<&CrankInstance>)
        ensures
            match found {
                Some(crank) => has_market(self@.cranks, market_id@) && crank@
                    == self@.cranks[position(self@.cranks, market_id@)],
                None => !has_market(self@.cranks, market_id@),
            },
    {
        let place: usize = self.find(market_id);
        if place < self.cranks.len() {
            Some(&self.cranks[place])
        } else {
            None
        }
    }

    /// Files `crank` under its market.
    fn file(&mut self, crank: CrankInstance)
        requires
            old(self).wf(),
            lease_follows_process(crank@),
        ensures
            final(self).wf(),
            final(self)@.params == old(self)@.params,
            final(self)@.cranks == filed(old(self)@.cranks, crank@),
    {
        let place: usize = self.find(crank.market.as_str());
        proof {
            lemma_filed(self@.cranks, crank@);
        }
        let ghost before = self@.cranks;
        if place < self.cranks.len() {
            self.cranks[place] = crank;
            assert(self@.cranks =~= before.update(place as int, crank@));
        } else {
            self.cranks.push(crank);
            assert(self@.cranks =~= before.push(crank@));
        }
        assert forall|i: int| 0 <= i < self@.cranks.len() implies lease_follows_process(
            #[trigger] self@.cranks[i],
        ) by {
            if i != place {
                assert(self@.cranks[i] == before[i]);
            }
        }
    }

    /// The registry as it is persisted: the parameters, and every record
    /// without its lease and its process.
    pub fn snapshot(&self) -> (copy: State)
        requires
            self.wf(),
        ensures
            copy.wf(),
            copy@.params == self@.params,
            copy@.cranks == dormant_all(self@.cranks),
    {
        let mut cranks: Vec<CrankInstance> = Vec::new();
        let mut place: usize = 0;
        while place < self.cranks.len()
            invariant
                place <= self.cranks@.len(),
                cranks@.len() == place,
                forall|i: int|
                    0 <= i < place ==> (#[trigger] cranks@[i])@ == self@.cranks[i].dormant(),
            decreases self.cranks@.len() - place,
        {
            cranks.push(self.cranks[place].dormant());
            place = place + 1;
        }
        let copy = State { params: self.params.clone(), cranks };
        assert(copy@.cranks =~= dormant_all(self@.cranks));
        assert forall|i: int, j: int| 0 <= i < j < copy@.cranks.len() implies (
        #[trigger] copy@.cranks[i]).market != (#[trigger] copy@.cranks[j]).market by {
            assert(self@.cranks[i].market != self@.cranks[j].market);
        }
        assert forall|i: int| 0 <= i < copy@.cranks.len() implies lease_follows_process(
            #[trigger] copy@.cranks[i],
        ) by {
            assert(copy@.cranks[i] == self@.cranks[i].dormant());
        }
        copy
    }

    /// The registry that a persisted list of records stands for. No record
    /// of it holds a process or a lease, whatever the list says: a worker
    /// does not outlive the supervisor that launched it. Of two records for
    /// one market the later one is kept.
    pub fn restore(params: Parameters, records: Vec<CrankInstance>) -> (state: State)
        ensures
            state.wf(),
            state@.params == params@,
            state@.cranks == restored(crank_views(records@)),
    {
        let mut state: State = State::new(params);
        let ghost all = crank_views(records@);
        let mut place: usize = 0;
        assert(all.take(0) =~= Seq::<CrankView>::empty());
        while place < records.len()
            invariant
                all == crank_views(records@),
                place <= records@.len(),
                state.wf(),
                state@.params == params@,
                state@.cranks == restored(all.take(place as int)),
            decreases records@.len() - place,
        {
            assert(all.take(place + 1).drop_last() =~= all.take(place as int));
            assert(all.take(place + 1).last() == records@[place as int]@);
            state.file(records[place].dormant());
            place = place + 1;
        }
        assert(all.take(place as int) =~= all);
        state
    }

    /// The registry that the supervisor starts from: what was `persisted`,
    /// every record without lease and process, or, where nothing was, an
    /// empty registry with the parameters that `args` stand for. The workers
    /// are not running yet in either case.
    pub fn from_args(args: &Arguments, persisted: Option<State>) -> (state: State)
        requires
            persisted matches Some(saved) ==> saved.wf(),
        ensures
            state.wf(),
            match persisted {
                Some(saved) => state@.params == saved@.params && state@.cranks == dormant_all(
                    saved@.cranks,
                ),
                None => state@.cranks == Seq::<CrankView>::empty() && exists|
                    default_dir: Seq<char>,
                |
                    tilde_outcome(DEFAULT_PERSIST_PATH@, default_dir) && state@.params
                        == args@.resolved(default_dir),
            },
    {
        match persisted {
            Some(saved) => saved.snapshot(),
            None => State::new(Parameters::from_arguments(args)),
        }
    }

    /// Takes note of a restart of the records, in their order: `outcomes`
    /// holds the reports of the launches at `now`, the first for the first
    /// record. The records up to the first failed launch hold their new
    /// process; that failure ends the restart, and the records from there on
    /// are left as they were, as are those for which no report is given.
    pub fn restart_cranks(&mut self, outcomes: &Vec<SpawnOutcome>, now: u64) -> (done: Result<
        (),
        CrankError,
    >)
        requires
            old(self).wf(),
        ensures
            final(self).wf(),
            final(self)@.params == old(self)@.params,
            final(self)@.cranks == restarted(old(self)@.cranks, outcomes@, now),
            done == if restart_fails(old(self)@.cranks, outcomes@) {
                Err::<(), CrankError>(CrankError::SpawnFailed)
            } else {
                Ok::<(), CrankError>(())
            },
    {
        let ghost before = self@.cranks;
        proof {
            lemma_leading_started(outcomes@);
        }
        let mut place: usize = 0;
        let mut done: Result<(), CrankError> = Ok(());
        while place < self.cranks.len() && place < outcomes.len() && done.is_ok()
            invariant
                self@.params == old(self)@.params,
                before == old(self)@.cranks,
                self@.cranks.len() == before.len(),
                place <= before.len(),
                place <= outcomes@.len(),
                done is Ok ==> done == Ok::<(), CrankError>(()) && place <= leading_started(
                    outcomes@,
                ),
                done is Err ==> done == Err::<(), CrankError>(CrankError::SpawnFailed) && place
                    == leading_started(outcomes@) && place < before.len() && place
                    < outcomes@.len(),
                forall|i: int|
                    0 <= i < before.len() ==> #[trigger] self@.cranks[i] == if i < place {
                        before[i].after_launch(outcomes@[i], now)
                    } else {
                        before[i]
                    },
            decreases
                    self@.cranks.len() - place + if done is Ok {
                        1int
                    } else {
                        0int
                    },
        {
            let ghost current = self@.cranks;
            proof {
                lemma_leading_started(outcomes@);
                assert(current[place as int] == before[place as int]);
            }
            let answer: Result<(), CrankError> = self.cranks[place].start(outcomes[place], now);
            assert(self@.cranks =~= current.update(
                place as int,
                before[place as int].after_launch(outcomes@[place as int], now),
            ));
            match answer {
                Ok(()) => {
                    proof {
                        if leading_started(outcomes@) <= place {
                            assert(outcomes@[leading_started(outcomes@)] == SpawnOutcome::Failed);
                        }
                    }
                    place = place + 1;
                },
                Err(error) => {
                    proof {
                        if place < leading_started(outcomes@) {
                            assert(outcomes@[place as int] != SpawnOutcome::Failed);
                        }
                    }
                    done = Err(error);
                },
            }
        }
        proof {
            lemma_leading_started(outcomes@);
            if done is Ok && place < leading_started(outcomes@) {
                assert(place == before.len() || place == outcomes@.len());
            }
        }
        assert(self@.cranks =~= restarted(before, outcomes@, now));
        assert forall|i: int, j: int| 0 <= i < j < self@.cranks.len() implies (
        #[trigger] self@.cranks[i]).market != (#[trigger] self@.cranks[j]).market by {
            assert(before[i].market != before[j].market);
        }
        assert forall|i: int| 0 <= i < self@.cranks.len() implies lease_follows_process(
            #[trigger] self@.cranks[i],
        ) by {
            assert(lease_follows_process(before[i]));
        }
        done
    }

    /// The place in `markets`, at or behind `from`, of the first market that
    /// the registry keeps no record for under the identifier it is listed
    /// with: the next one to import. `None` where every market from there on
    /// is kept already.
    pub fn next_import(&self, markets: &Markets, from: usize) -> (next: Option<usize>)
        ensures
            match next {
                Some(place) => from <= place < markets.ids().len() && !has_market(
                    self@.cranks,
                    markets.ids()[place as int],
                ) && forall|j: int|
                    from <= j < place ==> has_market(self@.cranks, #[trigger] markets.ids()[j]),
                None => forall|j: int|
                    from <= j < markets.ids().len() ==> has_market(
                        self@.cranks,
                        #[trigger] markets.ids()[j],
                    ),
            },
    {
        let mut place: usize = from;
        while place < markets.markets.len()
            invariant
                from <= place,
                forall|j: int|
                    from <= j < place && j < markets.ids().len() ==> has_market(
                        self@.cranks,
                        #[trigger] markets.ids()[j],
                    ),
            decreases markets.markets@.len() - place,
        {
            if !self.contains(markets.markets[place].id.as_str()) {
                return Some(place);
            }
            place = place + 1;
        }
        None
    }

    /// Imports the market at `place` of `markets`, once the caller has tried
    /// to launch its worker at `now` and reports the `outcome`: the market is
    /// added as by [`State::add_market`], to run until told otherwise.
    pub fn import_market(
        &mut self,
        markets: &Markets,
        place: usize,
        outcome: SpawnOutcome,
        now: u64,
    ) -> (done: Result<(), CrankError>)
        requires
            old(self).wf(),
            place < markets.descriptors().len(),
        ensures
            final(self).wf(),
            final(self)@.params == old(self)@.params,
            match outcome {
                SpawnOutcome::Started { process } => done == Ok::<(), CrankError>(())
                    && final(self)@.cranks == filed(
                    old(self)@.cranks,
                    CrankView::fresh(
                        old(self)@.params,
                        markets.descriptors()[place as int],
                        None,
                    ).started(process, now),
                ),
                SpawnOutcome::Failed => done == Err::<(), CrankError>(CrankError::SpawnFailed)
                    && final(self)@.cranks == old(self)@.cranks,
            },
    {
        let market: Market = markets.markets[place].market.clone();
        self.add_market(market, None, outcome, now)
    }

    /// Adds the market `market` to the registry, once the caller has tried to
    /// launch its worker at `now` and reports the `outcome`. Where the
    /// process runs, the record is filed under the market's address, in the
    /// place of a record kept for it before, if there was one. Where the
    /// launch failed, the registry keeps no trace of the request.
    pub fn add_market(
        &mut self,
        market: Market,
        crank_duration: Option<u64>,
        outcome: SpawnOutcome,
        now: u64,
    ) -> (done: Result<(), CrankError>)
        requires
            old(self).wf(),
        ensures
            final(self).wf(),
            final(self)@.params == old(self)@.params,
            match outcome {
                SpawnOutcome::Started { process } => done == Ok::<(), CrankError>(())
                    && final(self)@.cranks == filed(
                    old(self)@.cranks,
                    CrankView::fresh(old(self)@.params, market@, crank_duration).started(
                        process,
                        now,
                    ),
                ),
                SpawnOutcome::Failed => done == Err::<(), CrankError>(CrankError::SpawnFailed)
                    && final(self)@.cranks == old(self)@.cranks,
            },
    {
        let mut crank: CrankInstance = CrankInstance::new(&self.params, market, crank_duration);
        match crank.start(outcome, now) {
            Ok(()) => {},
            Err(error) => {
                return Err(error);
            },
        }
        self.file(crank);
        Ok(())
    }

    /// What a purge of `market_id` answers, given the report `kill` of the
    /// request to terminate the worker's process.
    pub open spec fn purged(
        cranks: Seq<CrankView>,
        market_id: Seq<char>,
        kill: KillOutcome,
    ) -> Result<Option<MarketView>, CrankError> {
        let place = position(cranks, market_id);
        if place >= cranks.len() {
            Err(CrankError::NotFound)
        } else {
            match cranks[place].halted(kill) {
                Err(error) => Err(error),
                Ok(()) => Ok(Some(cranks[place].descriptor())),
            }
        }
    }

    /// The registry after a purge of `market_id`: without the record where the
    /// purge answers with a market, as it was where it answers with an error.
    pub open spec fn after_purge(
        cranks: Seq<CrankView>,
        market_id: Seq<char>,
        kill: KillOutcome,
    ) -> Seq<CrankView> {
        if State::purged(cranks, market_id, kill) is Ok {
            cranks.remove(position(cranks, market_id))
        } else {
            cranks
        }
    }

    /// Takes the market `market_id` out of the registry, once the caller has
    /// asked the worker's process to terminate and reports in `kill` how that
    /// went. The record leaves only where it was kept, held a process, and the
    /// process was signalled; its descriptor is then handed back. In every
    /// other case the registry stays as it was and the reason is returned.
    pub fn purge_market(&mut self, market_id: &str, kill: KillOutcome) -> (removed: Result<
        Option<Market>,
        CrankError,
    >)
        requires
            old(self).wf(),
        ensures
            final(self).wf(),
            final(self)@.params == old(self)@.params,
            match removed {
                Ok(found) => Ok::<Option<MarketView>, CrankError>(
                    match found {
                        Some(market) => Some(market@),
                        None => None,
                    },
                ) == State::purged(old(self)@.cranks, market_id@, kill),
                Err(error) => Err::<Option<MarketView>, CrankError>(error) == State::purged(
                    old(self)@.cranks,
                    market_id@,
                    kill,
                ),
            },
            final(self)@.cranks == State::after_purge(old(self)@.cranks, market_id@, kill),
    {
        let place: usize = self.find(market_id);
        if place >= self.cranks.len() {
            return Err(CrankError::NotFound);
        }
        let ghost before = self@.cranks;
        let halted: Result<(), CrankError> = self.cranks[place].halt(kill);
        assert(self@.cranks =~= before);
        match halted {
            Ok(()) => {},
            Err(error) => {
                return Err(error);
            },
        }
        proof {
            lemma_removed(before, market_id@);
        }
        let crank: CrankInstance = self.cranks.remove(place);
        assert(self@.cranks =~= before.remove(place as int));
        assert forall|i: int| 0 <= i < self@.cranks.len() implies lease_follows_process(
            #[trigger] self@.cranks[i],
        ) by {
            let from = if i < place {
                i
            } else {
                i + 1
            };
            assert(self@.cranks[i] == before[from]);
        }
        Ok(Some(crank.descriptor()))
    }

    /// Evicts every record whose lease has run out at `now`, and hands the
    /// evicted records back, in their order, for the caller to terminate
    /// their processes. The eviction does not wait for that: a process that
    /// cannot be signalled does not keep its record in the registry.
    pub fn cleanup_finished(&mut self, now: u64) -> (evicted: Vec<CrankInstance>)
        requires
            old(self).wf(),
        ensures
            final(self).wf(),
            final(self)@.params == old(self)@.params,
            final(self)@.cranks == lasting(old(self)@.cranks, now),
            crank_views(evicted@) == lapsed(old(self)@.cranks, now),
    {
        let ghost before = self@.cranks;
        let ghost mut seen: int = 0;
        let mut evicted: Vec<CrankInstance> = Vec::new();
        let mut place: usize = 0;
        assert(before.take(0) =~= Seq::<CrankView>::empty());
        assert(lasting(before.take(0), now) =~= Seq::<CrankView>::empty()
            && lapsed(before.take(0), now) =~= Seq::<CrankView>::empty()) by {
            reveal(Seq::filter);
        }
        while place < self.cranks.len()
            invariant
                self@.params == old(self)@.params,
                before == old(self)@.cranks,
                0 <= seen <= before.len(),
                place <= self@.cranks.len(),
                self@.cranks.len() - place == before.len() - seen,
                self@.cranks.take(place as int) =~= lasting(before.take(seen), now),
                self@.cranks.skip(place as int) =~= before.skip(seen),
                crank_views(evicted@) =~= lapsed(before.take(seen), now),
            decreases self@.cranks.len() - place,
        {
            let ghost current = self@.cranks;
            assert(current[place as int] == current.skip(place as int)[0]);
            assert(before.skip(seen)[0] == before[seen]);
            proof {
                lemma_lease_step(before, now, seen);
            }
            if self.cranks[place].is_finished(now) {
                let ghost gone = evicted@;
                let crank: CrankInstance = self.cranks.remove(place);
                evicted.push(crank);
                assert(self@.cranks =~= current.remove(place as int));
                assert(self@.cranks.take(place as int) =~= current.take(place as int));
                assert(self@.cranks.skip(place as int) =~= current.skip(place as int).skip(1));
                assert(before.skip(seen).skip(1) =~= before.skip(seen + 1));
                assert(crank_views(evicted@) =~= crank_views(gone).push(crank@));
            } else {
                assert(current.take(place + 1) =~= current.take(place as int).push(
                    current[place as int],
                ));
                assert(current.skip(place + 1) =~= current.skip(place as int).skip(1));
                assert(before.skip(seen).skip(1) =~= before.skip(seen + 1));
                place = place + 1;
            }
            proof {
                seen = seen + 1;
            }
        }
        proof {
            assert(before.take(seen) =~= before);
            assert(self@.cranks.take(place as int) =~= self@.cranks);
            lemma_filter_distinct(before, |crank: CrankView| !crank.finished(now));
            assert forall|i: int| 0 <= i < self@.cranks.len() implies lease_follows_process(
                #[trigger] self@.cranks[i],
            ) by {
                assert(before.contains(self@.cranks[i]));
            }
        }
        evicted
    }
}

} // verus!
