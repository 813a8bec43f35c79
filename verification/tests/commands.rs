use algomln_core::strategies::StrategyTable;
use algomln_core::commands::{confirm_mode_check, confirm_step, confirm_symbol};
use algomln_core::live::guard::LiveGuard;
use algomln_core::commands::{
    live_start_allowed, live_symbol, open_positions, status_text, stop_result, strategy_id,
    strategy_not_found, StrategyMode, StrategyStatus, TradeIn,
};
use algomln_core::data::parse_market_row;
use algomln_core::indices::{is_stale, parse_constituents, refresh_outcome, DURATION_MAX_NANOS};
use algomln_core::live::session::SessionStatus;
use algomln_core::models::OrderStatus;

#[test]
fn strategy_mode_parses_lowercase() {
    assert_eq!(StrategyMode::parse("paper").unwrap(), StrategyMode::Paper);
    assert_eq!(StrategyMode::parse("LIVE").unwrap(), StrategyMode::Live);
    assert!(StrategyMode::parse("sideways").is_err());
}

#[test]
fn strategy_status_parses_lowercase() {
    assert_eq!(StrategyStatus::parse("running").unwrap(), StrategyStatus::Running);
    assert_eq!(StrategyStatus::parse("Paused").unwrap(), StrategyStatus::Paused);
    assert!(StrategyStatus::parse("stopped").is_err());
}

#[test]
fn mode_and_status_errors_name_the_input() {
    assert_eq!(
        StrategyMode::parse("  SideWays ").unwrap_err(),
        "unknown mode 'sideways' — expected 'paper' or 'live'"
    );
    assert_eq!(
        StrategyStatus::parse("Stopped").unwrap_err(),
        "unknown status 'stopped' — expected 'running' or 'paused'"
    );
    assert_eq!(StrategyMode::parse("\tpaper\n").unwrap(), StrategyMode::Paper);
}

#[test]
fn parses_tab_separated_row() {
    let line = "2024-01-01 09:15:00\t100.5\t101.0\t99.5\t100.75";
    let fields = parse_market_row(line).unwrap();
    assert_eq!(fields.len(), 5);
    assert_eq!(fields[0], "2024-01-01 09:15:00");
    assert_eq!(fields[4], "100.75");
}

#[test]
fn parses_comma_separated_row() {
    let line = "2024-01-01 09:15:00,100.5,101.0,99.5,100.75";
    let fields = parse_market_row(line).unwrap();
    assert_eq!(fields[4], "100.75");
}

#[test]
fn parses_whitespace_separated_row() {
    let line = "2024-01-01 09:15:00 NIFTY 100.5 101.0 99.5";
    let fields = parse_market_row(line).unwrap();
    assert_eq!(fields[0], "2024-01-01 09:15:00");
    assert_eq!(fields[1], "NIFTY");
    assert_eq!(fields[4], "99.5");
}

#[test]
fn rejects_malformed_row() {
    let err = parse_market_row("2024-01-01 09:15:00 100.5").unwrap_err();
    assert!(err.contains("5 market columns"));
}

#[test]
fn whitespace_row_needs_a_nineteen_byte_prefix() {
    assert_eq!(parse_market_row("a b c d e f").unwrap_err(), "missing datetime");
    // The 19th byte falls inside a two-byte character.
    let line = format!("{}é b c d e f", "a".repeat(18));
    assert_eq!(parse_market_row(&line).unwrap_err(), "missing datetime");
    let ok = format!("{}é b c d e f", "a".repeat(17));
    assert_eq!(parse_market_row(&ok).unwrap()[0], format!("{}é", "a".repeat(17)));
}

#[test]
fn is_stale_returns_true_for_missing_path() {
    assert!(is_stale(None, 60_000_000_000));
}

#[test]
fn staleness_compares_age_with_threshold() {
    assert!(!is_stale(Some(Some(10)), 60));
    assert!(is_stale(Some(Some(61)), 60));
    assert!(!is_stale(Some(Some(60)), 60));
    assert!(is_stale(Some(None), 60));
    assert!(!is_stale(Some(None), DURATION_MAX_NANOS));
}

#[test]
fn constituents_are_read_from_the_symbol_column() {
    let csv = "\u{feff}Company Name,Industry,Symbol,Series\nReliance,Energy, reliance ,EQ\nTCS,IT,TCS,EQ\nBlank,IT,  ,EQ\n";
    assert_eq!(parse_constituents(csv).unwrap(), vec!["RELIANCE".to_string(), "TCS".to_string()]);
    assert_eq!(parse_constituents("A,B\n1,2\n").unwrap_err(), "CSV has no 'Symbol' column");
    assert_eq!(
        parse_constituents("Symbol\n \n").unwrap_err(),
        "CSV parsed but contained no symbols"
    );
}

#[test]
fn refresh_outcome_reports_counts_and_errors() {
    let ok = refresh_outcome("NIFTY_50", &Ok(vec!["A".to_string(), "B".to_string()]));
    assert!(ok.success);
    assert_eq!(ok.symbol_count, 2);
    assert_eq!(ok.alias, "NIFTY_50");
    let bad = refresh_outcome("NIFTY_50", &Err("HTTP 500".to_string()));
    assert!(!bad.success);
    assert_eq!(bad.error, Some("HTTP 500".to_string()));
}

#[test]
fn live_start_checks_session_and_mode() {
    assert_eq!(
        live_start_allowed(true, "s", Some(StrategyMode::Live)).unwrap_err(),
        "a live session is already active; stop it before starting another"
    );
    assert_eq!(live_start_allowed(false, "s9", None).unwrap_err(), "strategy not found: s9");
    assert!(live_start_allowed(false, "s", Some(StrategyMode::Paper)).is_err());
    assert!(live_start_allowed(false, "s", Some(StrategyMode::Live)).is_ok());
}

#[test]
fn live_symbol_needs_exactly_one() {
    assert_eq!(
        live_symbol(&Some(TradeIn::Symbols(vec!["RELIANCE".to_string()]))).unwrap(),
        "RELIANCE"
    );
    assert!(live_symbol(&Some(TradeIn::Symbols(vec![]))).is_err());
    assert!(live_symbol(&Some(TradeIn::Index("NIFTY_50".to_string()))).unwrap_err().contains("indexes"));
    assert!(live_symbol(&None).unwrap_err().contains("no TRADE_IN clause"));
}

#[test]
fn stop_reports_open_positions() {
    assert_eq!(open_positions(&vec![0, 5, -2, 0]), 2);
    let r = stop_result(2);
    assert!(r.stopped);
    assert!(r.open_positions_warning.unwrap().starts_with("WARNING: 2 open position(s) remain"));
    assert_eq!(stop_result(0).open_positions_warning, None);
}

#[test]
fn live_status_names() {
    assert_eq!(status_text(&SessionStatus::Running), ("Running".to_string(), None));
    assert_eq!(
        status_text(&SessionStatus::Failed("x".to_string())),
        ("Failed".to_string(), Some("x".to_string()))
    );
}

#[test]
fn strategy_ids_pad_the_counter() {
    assert_eq!(strategy_id(1700000000000, 7), "strat-1700000000000-0007");
    assert_eq!(strategy_id(5, 12345), "strat-5-12345");
    assert_eq!(strategy_not_found("x"), "strategy 'x' not found");
}

#[test]
fn test_transit_is_not_terminal() {
    assert!(!OrderStatus::Transit.is_terminal());
    assert!(!OrderStatus::Transit.is_fill());
}

#[test]
fn test_pending_is_not_terminal() {
    assert!(!OrderStatus::Pending.is_terminal());
    assert!(!OrderStatus::Pending.is_fill());
}

#[test]
fn test_traded_is_terminal_and_fill() {
    assert!(OrderStatus::Traded.is_terminal());
    assert!(OrderStatus::Traded.is_fill());
}

#[test]
fn test_terminal_non_fills() {
    for status in [OrderStatus::Rejected, OrderStatus::Cancelled, OrderStatus::Expired] {
        assert!(status.is_terminal());
        assert!(!status.is_fill());
    }
}

#[test]
fn test_unknown_is_not_terminal_and_not_fill() {
    let status = OrderStatus::Unknown("WEIRD".to_string());
    assert!(!status.is_terminal());
    assert!(!status.is_fill());
}

#[test]
fn confirm_consumes_the_token_once() {
    let token = LiveGuard::issue_token("s1", 1_000);
    let text = token.token.clone();
    let (slot, r) = confirm_step(true, Some(token.clone()), "s1", &text, 2_000);
    assert_eq!(r.unwrap_err(), "a live session is already active");
    assert!(slot.is_some());
    let (slot, r) = confirm_step(false, Some(token.clone()), "s1", "wrong", 2_000);
    assert_eq!(r.unwrap_err(), "invalid or expired confirmation token");
    assert!(slot.is_some());
    let (slot, r) = confirm_step(false, slot, "s1", &text, 2_000);
    assert!(r.is_ok());
    assert!(slot.is_none());
    let (_, again) = confirm_step(false, slot, "s1", &text, 2_000);
    assert_eq!(again.unwrap_err(), "invalid or expired confirmation token");
    assert!(confirm_mode_check("s1", Some(StrategyMode::Live)).is_ok());
    assert_eq!(confirm_mode_check("s9", None).unwrap_err(), "strategy not found: s9");
    assert_eq!(confirm_symbol(&Some(TradeIn::Symbols(vec!["TCS".to_string()]))).unwrap(), "TCS");
    assert_eq!(
        confirm_symbol(&Some(TradeIn::Index("NIFTY_50".to_string()))).unwrap_err(),
        "live mode in Phase 7 supports exactly one TRADE_IN symbol"
    );
}

#[test]
fn strategy_table_deploy_and_set_status() {
    let mut table = StrategyTable::new();
    table.deploy("strat-1-0000".to_string(), StrategyMode::Live, 5);
    table.deploy("strat-1-0001".to_string(), StrategyMode::Paper, 6);
    assert_eq!(table.mode_of("strat-1-0000"), Some(StrategyMode::Live));
    assert_eq!(table.mode_of("strat-1-0001"), Some(StrategyMode::Paper));
    assert_eq!(table.mode_of("nope"), None);
    assert_eq!(table.status_of("strat-1-0001"), Some(StrategyStatus::Paused));
    assert!(table.set_status("strat-1-0001", StrategyStatus::Running).is_ok());
    assert_eq!(table.status_of("strat-1-0001"), Some(StrategyStatus::Running));
    assert_eq!(table.status_of("strat-1-0000"), Some(StrategyStatus::Paused));
    table.deploy("strat-1-0001".to_string(), StrategyMode::Live, 7);
    assert_eq!(table.status_of("strat-1-0001"), Some(StrategyStatus::Paused));
    assert_eq!(table.mode_of("strat-1-0001"), Some(StrategyMode::Live));
    assert_eq!(table.set_status("nope", StrategyStatus::Running).unwrap_err(), "strategy 'nope' not found");
}
