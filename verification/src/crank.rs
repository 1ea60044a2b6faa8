//! The record of one market's crank: how its worker is launched, for how long
//! it may run, and which process, if any, runs it now.

use vstd::prelude::*;
use vstd::string::*;
use crate::error::{CrankError, KillOutcome, SpawnOutcome};
use crate::model::{Market, MarketView};
use crate::paths::{join, joined, LOGS_DIR};
use crate::state::{Parameters, ParametersView};
use crate::text::{copy_opt, decimal, decimal_spec, opt_text};

verus! {

/// The number of workers that a crank is launched with.
pub const DEFAULT_NUM_WORKERS: usize = 1;

/// The number of events that each worker of a crank takes on.
pub const DEFAULT_EVENTS_PER_WORKER: usize = 10;

/// The number of seconds in a minute of lease.
pub const SECONDS_PER_MINUTE: u64 = 60;

/// One market's crank. The launch configuration is what is persisted;
/// `start_time` and `handle` live only as long as the supervisor process.
#[derive(Debug)]
pub struct CrankInstance {
    /// Name of the market.
    pub name: Option<String>,
    /// Path to the crank binary.
    pub crank_bin: String,
    /// RPC endpoint.
    pub rpc: String,
    /// The worker's `--dex-program-id`.
    pub dex_program_id: String,
    /// The worker's `--payer`.
    pub payer: String,
    /// The worker's `--market`; the key of the record.
    pub market: String,
    /// Mint of the base token.
    pub base_mint_address: Option<String>,
    /// Base token symbol.
    pub base_symbol: Option<String>,
    /// The worker's `--coin-wallet`.
    pub coin_wallet: String,
    /// Mint of the quote token.
    pub quote_mint_address: Option<String>,
    /// Quote token symbol.
    pub quote_symbol: Option<String>,
    /// The worker's `--pc-wallet`.
    pub pc_wallet: String,
    /// The worker's `--num-workers`.
    pub num_workers: usize,
    /// The worker's `--events-per-worker`.
    pub events_per_worker: usize,
    /// The worker's `--log-directory`.
    pub log_directory: String,
    /// For how many minutes the worker may run; `None` stands for ever.
    pub should_run_for: Option<u64>,
    /// The caller's clock, in seconds, at the most recent launch.
    pub start_time: Option<u64>,
    /// The number of the process that runs the worker.
    pub handle: Option<u64>,
}

/// What a [`CrankInstance`] holds.
pub ghost struct CrankView {
    pub name: Option<Seq<char>>,
    pub crank_bin: Seq<char>,
    pub rpc: Seq<char>,
    pub dex_program_id: Seq<char>,
    pub payer: Seq<char>,
    pub market: Seq<char>,
    pub base_mint_address: Option<Seq<char>>,
    pub base_symbol: Option<Seq<char>>,
    pub coin_wallet: Seq<char>,
    pub quote_mint_address: Option<Seq<char>>,
    pub quote_symbol: Option<Seq<char>>,
    pub pc_wallet: Seq<char>,
    pub num_workers: usize,
    pub events_per_worker: usize,
    pub log_directory: Seq<char>,
    pub should_run_for: Option<u64>,
    pub start_time: Option<u64>,
    pub handle: Option<u64>,
}

impl View for CrankInstance {
    type V = CrankView;

    open spec fn view(&self) -> CrankView {
        CrankView {
            name: opt_text(self.name),
            crank_bin: self.crank_bin@,
            rpc: self.rpc@,
            dex_program_id: self.dex_program_id@,
            payer: self.payer@,
            market: self.market@,
            base_mint_address: opt_text(self.base_mint_address),
            base_symbol: opt_text(self.base_symbol),
            coin_wallet: self.coin_wallet@,
            quote_mint_address: opt_text(self.quote_mint_address),
            quote_symbol: opt_text(self.quote_symbol),
            pc_wallet: self.pc_wallet@,
            num_workers: self.num_workers,
            events_per_worker: self.events_per_worker,
            log_directory: self.log_directory@,
            should_run_for: self.should_run_for,
            start_time: self.start_time,
            handle: self.handle,
        }
    }
}

/// The whole minutes that have passed at `now` since `start`, both in seconds
/// of one clock; none where the clock reads less than at the start.
pub open spec fn elapsed_minutes(start: u64, now: u64) -> int {
    if now >= start {
        (now - start) / 60
    } else {
        0
    }
}

impl CrankView {
    /// The record of a market that was never launched.
    pub open spec fn fresh(
        params: ParametersView,
        market: MarketView,
        crank_duration: Option<u64>,
    ) -> CrankView {
        CrankView {
            name: market.name,
            crank_bin: params.crank,
            rpc: params.rpc,
            dex_program_id: market.program_id,
            payer: params.gas_payer,
            market: market.address,
            base_mint_address: market.base_mint_address,
            base_symbol: market.base_symbol,
            coin_wallet: market.base_token_account,
            quote_mint_address: market.quote_mint_address,
            quote_symbol: market.quote_symbol,
            pc_wallet: market.quote_token_account,
            num_workers: DEFAULT_NUM_WORKERS,
            events_per_worker: DEFAULT_EVENTS_PER_WORKER,
            log_directory: joined(joined(params.persist, LOGS_DIR@), market.address),
            should_run_for: crank_duration,
            start_time: None,
            handle: None,
        }
    }

    /// The argument vector of the worker: the endpoint, the subcommand, then
    /// eight flags, each followed by its value.
    pub open spec fn args(self) -> Seq<Seq<char>> {
        seq![
            self.rpc,
            "consume-events"@,
            "--dex-program-id"@,
            self.dex_program_id,
            "--payer"@,
            self.payer,
            "--market"@,
            self.market,
            "--coin-wallet"@,
            self.coin_wallet,
            "--pc-wallet"@,
            self.pc_wallet,
            "--num-workers"@,
            decimal_spec(self.num_workers as nat),
            "--events-per-worker"@,
            decimal_spec(self.events_per_worker as nat),
            "--log-directory"@,
            self.log_directory,
        ]
    }

    /// The record once the process `process` was launched for it at `now`.
    pub open spec fn started(self, process: u64, now: u64) -> CrankView {
        CrankView { start_time: Some(now), handle: Some(process), ..self }
    }

    /// The record as it is persisted: the launch configuration alone.
    pub open spec fn dormant(self) -> CrankView {
        CrankView { start_time: None, handle: None, ..self }
    }

    /// The record after the report `outcome` of a launch at `now`.
    pub open spec fn after_launch(self, outcome: SpawnOutcome, now: u64) -> CrankView {
        match outcome {
            SpawnOutcome::Started { process } => self.started(process, now),
            SpawnOutcome::Failed => self,
        }
    }

    /// Holds when the lease has run out at `now`: the record was launched,
    /// its run is bounded, and at least that many whole minutes have passed.
    pub open spec fn finished(self, now: u64) -> bool {
        match (self.start_time, self.should_run_for) {
            (Some(start), Some(minutes)) => elapsed_minutes(start, now) >= minutes,
            _ => false,
        }
    }

    /// The descriptor under which the record is reported to callers.
    pub open spec fn descriptor(self) -> MarketView {
        MarketView {
            address: self.market,
            deprecated: Some(false),
            name: self.name,
            program_id: self.dex_program_id,
            base_mint_address: self.base_mint_address,
            quote_mint_address: self.quote_mint_address,
            base_token_account: self.coin_wallet,
            quote_token_account: self.pc_wallet,
            base_symbol: self.base_symbol,
            quote_symbol: self.quote_symbol,
        }
    }

    /// What a halt of the record answers, given the report `kill` of the
    /// request to terminate its process.
    pub open spec fn halted(self, kill: KillOutcome) -> Result<(), CrankError> {
        if self.handle is None {
            Err(CrankError::NoHandle)
        } else if kill == KillOutcome::Failed {
            Err(CrankError::SignalFailed)
        } else {
            Ok(())
        }
    }
}

impl Clone for CrankInstance {
    fn clone(&self) -> (copy: Self)
        ensures
            copy@ == self@,
    {
        CrankInstance {
            name: copy_opt(&self.name),
            crank_bin: self.crank_bin.clone(),
            rpc: self.rpc.clone(),
            dex_program_id: self.dex_program_id.clone(),
            payer: self.payer.clone(),
            market: self.market.clone(),
            base_mint_address: copy_opt(&self.base_mint_address),
            base_symbol: copy_opt(&self.base_symbol),
            coin_wallet: self.coin_wallet.clone(),
            quote_mint_address: copy_opt(&self.quote_mint_address),
            quote_symbol: copy_opt(&self.quote_symbol),
            pc_wallet: self.pc_wallet.clone(),
            num_workers: self.num_workers,
            events_per_worker: self.events_per_worker,
            log_directory: self.log_directory.clone(),
            should_run_for: self.should_run_for,
            start_time: self.start_time,
            handle: self.handle,
        }
    }
}

impl CrankInstance {
    /// The record of a market that is not cranked yet: one worker, ten events
    /// for each, and a log directory of its own under the persistence folder.
    pub fn new(params: &Parameters, market_info: Market, crank_duration: Option<u64>) -> (crank:
        Self)
        ensures
            crank@ == CrankView::fresh(params@, market_info@, crank_duration),
    {
        let logs: String = join(params.persist.as_str(), LOGS_DIR);
        let log_directory: String = join(logs.as_str(), market_info.address.as_str());
        CrankInstance {
            name: market_info.name,
            crank_bin: params.crank.clone(),
            rpc: params.rpc.clone(),
            dex_program_id: market_info.program_id,
            payer: params.gas_payer.clone(),
            market: market_info.address,
            base_mint_address: market_info.base_mint_address,
            base_symbol: market_info.base_symbol,
            coin_wallet: market_info.base_token_account,
            quote_mint_address: market_info.quote_mint_address,
            quote_symbol: market_info.quote_symbol,
            pc_wallet: market_info.quote_token_account,
            num_workers: DEFAULT_NUM_WORKERS,
            events_per_worker: DEFAULT_EVENTS_PER_WORKER,
            log_directory,
            should_run_for: crank_duration,
            start_time: None,
            handle: None,
        }
    }

    /// The argument vector with which the worker is launched.
    pub fn arrange_args(&self) -> (args: Vec<String>)
        ensures
            texts(args@) == self@.args(),
    {
        let mut args: Vec<String> = Vec::new();
        args.push(self.rpc.clone());
        args.push(String::from_str("consume-events"));
        args.push(String::from_str("--dex-program-id"));
        args.push(self.dex_program_id.clone());
        args.push(String::from_str("--payer"));
        args.push(self.payer.clone());
        args.push(String::from_str("--market"));
        args.push(self.market.clone());
        args.push(String::from_str("--coin-wallet"));
        args.push(self.coin_wallet.clone());
        args.push(String::from_str("--pc-wallet"));
        args.push(self.pc_wallet.clone());
        args.push(String::from_str("--num-workers"));
        args.push(decimal(self.num_workers as u64));
        args.push(String::from_str("--events-per-worker"));
        args.push(decimal(self.events_per_worker as u64));
        args.push(String::from_str("--log-directory"));
        args.push(self.log_directory.clone());
        assert(texts(args@) =~= self@.args());
        args
    }

    /// Takes note of a launch of the worker at `now`. Where the process runs,
    /// the record holds it from now on and its lease starts anew; where the
    /// launch failed, the record stays as it was.
    pub fn start(&mut self, outcome: SpawnOutcome, now: u64) -> (done: Result<(), CrankError>)
        ensures
            final(self)@ == old(self)@.after_launch(outcome, now),
            done == match outcome {
                SpawnOutcome::Started { process } => Ok::<(), CrankError>(()),
                SpawnOutcome::Failed => Err::<(), CrankError>(CrankError::SpawnFailed),
            },
    {
        match outcome {
            SpawnOutcome::Started { process } => {
                self.start_time = Some(now);
                self.handle = Some(process);
                Ok(())
            },
            SpawnOutcome::Failed => Err(CrankError::SpawnFailed),
        }
    }

    /// Answers a halt of the worker, of which `kill` reports how the request
    /// to terminate its process went. A record without a process cannot be
    /// halted, whatever `kill` says. The record keeps what it holds.
    pub fn halt(&mut self, kill: KillOutcome) -> (done: Result<(), CrankError>)
        ensures
            final(self)@ == old(self)@,
            done == old(self)@.halted(kill),
    {
        match self.handle {
            Some(_) => match kill {
                KillOutcome::Killed => Ok(()),
                KillOutcome::Failed => Err(CrankError::SignalFailed),
            },
            None => Err(CrankError::NoHandle),
        }
    }

    /// Tells whether the lease has run out at `now`, in seconds of the clock
    /// that `start_time` was read from.
    pub fn is_finished(&self, now: u64) -> (finished: bool)
        ensures
            finished == self@.finished(now),
    {
        match (self.start_time, self.should_run_for) {
            (Some(start), Some(minutes)) => {
                let elapsed: u64 = if now >= start {
                    (now - start) / SECONDS_PER_MINUTE
                } else {
                    0
                };
                elapsed >= minutes
            },
            _ => false,
        }
    }

    /// The record as it is persisted: a copy without lease and process.
    pub fn dormant(&self) -> (copy: Self)
        ensures
            copy@ == self@.dormant(),
    {
        let mut copy: CrankInstance = self.clone();
        copy.start_time = None;
        copy.handle = None;
        copy
    }

    /// The descriptor under which the record is reported to callers, field
    /// by field.
    pub open spec fn as_market(&self) -> Market {
        Market {
            address: self.market,
            deprecated: Some(false),
            name: self.name,
            program_id: self.dex_program_id,
            base_mint_address: self.base_mint_address,
            quote_mint_address: self.quote_mint_address,
            base_token_account: self.coin_wallet,
            quote_token_account: self.pc_wallet,
            base_symbol: self.base_symbol,
            quote_symbol: self.quote_symbol,
        }
    }

    /// The descriptor under which the record is reported to callers.
    pub fn descriptor(&self) -> (market: Market)
        ensures
            market == self.as_market(),
            market@ == self@.descriptor(),
    {
        Market {
            address: self.market.clone(),
            deprecated: Some(false),
            name: copy_opt(&self.name),
            program_id: self.dex_program_id.clone(),
            base_mint_address: copy_opt(&self.base_mint_address),
            quote_mint_address: copy_opt(&self.quote_mint_address),
            base_token_account: self.coin_wallet.clone(),
            quote_token_account: self.pc_wallet.clone(),
            base_symbol: copy_opt(&self.base_symbol),
            quote_symbol: copy_opt(&self.quote_symbol),
        }
    }
}

impl<'a> From<&'a CrankInstance> for Market {
    fn from(crank: &'a CrankInstance) -> (market: Market) {
        crank.descriptor()
    }
}

impl<'a> vstd::std_specs::convert::FromSpecImpl<&'a CrankInstance> for Market {
    open spec fn obeys_from_spec() -> bool {
        true
    }

    open spec fn from_spec(crank: &'a CrankInstance) -> Market {
        crank.as_market()
    }
}

/// The texts that a vector of strings holds.
pub open spec fn texts(strings: Seq<String>) -> Seq<Seq<char>> {
    Seq::new(strings.len(), |i: int| strings[i]@)
}

} // verus!
