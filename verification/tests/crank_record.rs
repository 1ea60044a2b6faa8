use multicrank::crank::CrankInstance;
use multicrank::error::{CrankError, KillOutcome, SpawnOutcome};
use multicrank::model::Market;
use multicrank::paths::join;
use multicrank::state::Parameters;
use multicrank::text::decimal;

fn params() -> Parameters {
    Parameters {
        crank: "/opt/serum/crank".to_string(),
        rpc: "https://rpc.example.org".to_string(),
        gas_payer: "/home/op/id.json".to_string(),
        socket: 8080,
        markets: "/home/op/.multicrank/markets.json".to_string(),
        persist: "/home/op/.multicrank".to_string(),
    }
}

fn market(address: &str) -> Market {
    Market {
        address: address.to_string(),
        deprecated: None,
        name: Some("SOL/USDC".to_string()),
        program_id: "DexProgram111".to_string(),
        base_mint_address: Some("BaseMint111".to_string()),
        quote_mint_address: Some("QuoteMint111".to_string()),
        base_token_account: "CoinWallet111".to_string(),
        quote_token_account: "PcWallet111".to_string(),
        base_symbol: Some("SOL".to_string()),
        quote_symbol: Some("USDC".to_string()),
    }
}

#[test]
fn decimal_writes_plain_numerals() {
    assert_eq!(decimal(0), "0");
    assert_eq!(decimal(1), "1");
    assert_eq!(decimal(9), "9");
    assert_eq!(decimal(10), "10");
    assert_eq!(decimal(105), "105");
    assert_eq!(decimal(1_000_000), "1000000");
    assert_eq!(decimal(u64::MAX), "18446744073709551615");
    assert_eq!(decimal(u64::MAX), u64::MAX.to_string());
}

#[test]
fn join_puts_one_separator_between() {
    assert_eq!(join("/var/lib", "logs"), "/var/lib/logs");
    assert_eq!(join("/var/lib/", "logs"), "/var/lib/logs");
    assert_eq!(join("", "logs"), "logs");
    assert_eq!(join("rel", "a/b"), "rel/a/b");
    assert_eq!(join("/var/lib", ""), "/var/lib/");
}

#[test]
fn join_lets_a_rooted_part_replace_the_base() {
    assert_eq!(join("/var/lib", "/etc/passwd"), "/etc/passwd");
    assert_eq!(join("", "/"), "/");
}

#[test]
fn join_agrees_with_the_platform_paths() {
    let cases = [
        ("/var/lib", "logs"),
        ("/var/lib/", "logs"),
        ("", "logs"),
        ("/var/lib", "/etc"),
        ("rel", "a/b"),
        ("/", "x"),
        ("/var/lib", ""),
    ];
    for (base, part) in cases {
        let expected = std::path::Path::new(base).join(part);
        assert_eq!(join(base, part), expected.to_string_lossy());
    }
}

#[test]
fn new_record_takes_launch_configuration_and_is_not_started() {
    let crank = CrankInstance::new(&params(), market("M1"), Some(5));
    assert_eq!(crank.name, Some("SOL/USDC".to_string()));
    assert_eq!(crank.crank_bin, "/opt/serum/crank");
    assert_eq!(crank.rpc, "https://rpc.example.org");
    assert_eq!(crank.dex_program_id, "DexProgram111");
    assert_eq!(crank.payer, "/home/op/id.json");
    assert_eq!(crank.market, "M1");
    assert_eq!(crank.base_mint_address, Some("BaseMint111".to_string()));
    assert_eq!(crank.base_symbol, Some("SOL".to_string()));
    assert_eq!(crank.coin_wallet, "CoinWallet111");
    assert_eq!(crank.quote_mint_address, Some("QuoteMint111".to_string()));
    assert_eq!(crank.quote_symbol, Some("USDC".to_string()));
    assert_eq!(crank.pc_wallet, "PcWallet111");
    assert_eq!(crank.num_workers, 1);
    assert_eq!(crank.events_per_worker, 10);
    assert_eq!(crank.log_directory, "/home/op/.multicrank/logs/M1");
    assert_eq!(crank.should_run_for, Some(5));
    assert_eq!(crank.start_time, None);
    assert_eq!(crank.handle, None);
}

#[test]
fn arrange_args_gives_the_fixed_order() {
    let crank = CrankInstance::new(&params(), market("M1"), None);
    let expected: Vec<String> = [
        "https://rpc.example.org",
        "consume-events",
        "--dex-program-id",
        "DexProgram111",
        "--payer",
        "/home/op/id.json",
        "--market",
        "M1",
        "--coin-wallet",
        "CoinWallet111",
        "--pc-wallet",
        "PcWallet111",
        "--num-workers",
        "1",
        "--events-per-worker",
        "10",
        "--log-directory",
        "/home/op/.multicrank/logs/M1",
    ]
    .iter()
    .map(|s| s.to_string())
    .collect();
    assert_eq!(crank.arrange_args(), expected);
}

#[test]
fn arrange_args_writes_the_worker_counts_in_decimal() {
    let mut crank = CrankInstance::new(&params(), market("M1"), None);
    crank.num_workers = 12;
    crank.events_per_worker = 250;
    let args = crank.arrange_args();
    assert_eq!(args.len(), 18);
    assert_eq!(args[13], "12");
    assert_eq!(args[15], "250");
}

#[test]
fn start_holds_the_process_and_sets_the_lease() {
    let mut crank = CrankInstance::new(&params(), market("M1"), Some(5));
    let done = crank.start(SpawnOutcome::Started { process: 4711 }, 1000);
    assert_eq!(done, Ok(()));
    assert_eq!(crank.handle, Some(4711));
    assert_eq!(crank.start_time, Some(1000));
    assert_eq!(crank.market, "M1");
}

#[test]
fn start_after_a_failed_launch_changes_nothing() {
    let mut crank = CrankInstance::new(&params(), market("M1"), Some(5));
    let done = crank.start(SpawnOutcome::Failed, 1000);
    assert_eq!(done, Err(CrankError::SpawnFailed));
    assert_eq!(crank.handle, None);
    assert_eq!(crank.start_time, None);
}

#[test]
fn start_again_replaces_the_process_and_restarts_the_lease() {
    let mut crank = CrankInstance::new(&params(), market("M1"), Some(5));
    assert_eq!(crank.start(SpawnOutcome::Started { process: 1 }, 100), Ok(()));
    assert_eq!(crank.start(SpawnOutcome::Started { process: 2 }, 200), Ok(()));
    assert_eq!(crank.handle, Some(2));
    assert_eq!(crank.start_time, Some(200));
}

#[test]
fn halt_without_a_process_is_an_error() {
    let mut crank = CrankInstance::new(&params(), market("M1"), None);
    assert_eq!(crank.halt(KillOutcome::Killed), Err(CrankError::NoHandle));
    assert_eq!(crank.halt(KillOutcome::Failed), Err(CrankError::NoHandle));
}

#[test]
fn halt_reports_how_the_signal_went() {
    let mut crank = CrankInstance::new(&params(), market("M1"), None);
    assert_eq!(crank.start(SpawnOutcome::Started { process: 7 }, 0), Ok(()));
    assert_eq!(crank.halt(KillOutcome::Failed), Err(CrankError::SignalFailed));
    assert_eq!(crank.halt(KillOutcome::Killed), Ok(()));
    assert_eq!(crank.handle, Some(7));
}

#[test]
fn lease_runs_out_on_the_minute() {
    let mut crank = CrankInstance::new(&params(), market("M1"), Some(1));
    assert_eq!(crank.start(SpawnOutcome::Started { process: 7 }, 1000), Ok(()));
    assert!(!crank.is_finished(1000));
    assert!(!crank.is_finished(1059));
    assert!(crank.is_finished(1060));
    assert!(crank.is_finished(1120));
}

#[test]
fn lease_of_five_minutes() {
    let mut crank = CrankInstance::new(&params(), market("M1"), Some(5));
    assert_eq!(crank.start(SpawnOutcome::Started { process: 7 }, 50), Ok(()));
    assert!(!crank.is_finished(50 + 299));
    assert!(crank.is_finished(50 + 300));
    assert!(crank.is_finished(50 + 360));
}

#[test]
fn lease_of_no_minutes_runs_out_at_once() {
    let mut crank = CrankInstance::new(&params(), market("M1"), Some(0));
    assert!(!crank.is_finished(0));
    assert_eq!(crank.start(SpawnOutcome::Started { process: 7 }, 10), Ok(()));
    assert!(crank.is_finished(10));
}

#[test]
fn lease_never_runs_out_without_bound_or_launch() {
    let mut forever = CrankInstance::new(&params(), market("M1"), None);
    assert_eq!(forever.start(SpawnOutcome::Started { process: 7 }, 0), Ok(()));
    assert!(!forever.is_finished(u64::MAX));
    let never_started = CrankInstance::new(&params(), market("M2"), Some(1));
    assert!(!never_started.is_finished(u64::MAX));
}

#[test]
fn lease_ignores_a_clock_that_reads_less_than_at_the_start() {
    let mut crank = CrankInstance::new(&params(), market("M1"), Some(1));
    assert_eq!(crank.start(SpawnOutcome::Started { process: 7 }, 1000), Ok(()));
    assert!(!crank.is_finished(10));
}

#[test]
fn dormant_copy_drops_lease_and_process_only() {
    let mut crank = CrankInstance::new(&params(), market("M1"), Some(5));
    assert_eq!(crank.start(SpawnOutcome::Started { process: 7 }, 1000), Ok(()));
    let copy = crank.dormant();
    assert_eq!(copy.handle, None);
    assert_eq!(copy.start_time, None);
    assert_eq!(copy.should_run_for, Some(5));
    assert_eq!(copy.arrange_args(), crank.arrange_args());
    assert_eq!(copy.crank_bin, crank.crank_bin);
    assert_eq!(crank.handle, Some(7));
}

#[test]
fn descriptor_reports_the_market_as_not_deprecated() {
    let crank = CrankInstance::new(&params(), market("M1"), Some(5));
    let m = crank.descriptor();
    assert_eq!(m.address, "M1");
    assert_eq!(m.deprecated, Some(false));
    assert_eq!(m.name, Some("SOL/USDC".to_string()));
    assert_eq!(m.program_id, "DexProgram111");
    assert_eq!(m.base_mint_address, Some("BaseMint111".to_string()));
    assert_eq!(m.quote_mint_address, Some("QuoteMint111".to_string()));
    assert_eq!(m.base_token_account, "CoinWallet111");
    assert_eq!(m.quote_token_account, "PcWallet111");
    assert_eq!(m.base_symbol, Some("SOL".to_string()));
    assert_eq!(m.quote_symbol, Some("USDC".to_string()));
}

#[test]
fn error_messages_name_the_market() {
    assert_eq!(
        CrankError::NoHandle.message("M1"),
        "something went wrong, no process handle for market M1"
    );
    assert_eq!(
        CrankError::NotFound.message("M1"),
        "something went wrong, cannot find crank with market id M1"
    );
    assert_eq!(CrankError::SpawnFailed.message("M1"), "could not start crank for market M1");
    assert_eq!(CrankError::SignalFailed.message("M1"), "could not stop crank for market M1");
}

#[test]
fn market_from_a_record_is_its_descriptor() {
    let mut crank = CrankInstance::new(&params(), market("M1"), Some(5));
    assert_eq!(crank.start(SpawnOutcome::Started { process: 3 }, 9), Ok(()));
    let m = Market::from(&crank);
    assert_eq!(m.address, "M1");
    assert_eq!(m.deprecated, Some(false));
    assert_eq!(m.name, crank.name);
    assert_eq!(m.program_id, crank.dex_program_id);
    assert_eq!(m.base_token_account, crank.coin_wallet);
    assert_eq!(m.quote_token_account, crank.pc_wallet);
    assert_eq!(m.base_symbol, Some("SOL".to_string()));
    assert_eq!(m.quote_mint_address, Some("QuoteMint111".to_string()));
}
