use algomln_core::broker::Timeframe;
use algomln_core::cli::{
    date_or_error, parse_backtest_args, parse_backtest_timeframe, parse_command, parse_run_args,
    parse_yyyy_mm_dd, profile_strategy, timeframe_label, CliCommand, DAY_MS,
};
use algomln_core::numbers::{float_syntax_error, parse_usize_or_error, FloatErrorKind};
use algomln_core::text::IntErrorKind;

fn args(list: &[&str]) -> Vec<String> {
    list.iter().map(|s| s.to_string()).collect()
}

fn chars(s: &str) -> Vec<char> {
    s.chars().collect()
}

const NOW: i64 = 1_700_000_000_000;

#[test]
fn usize_parse_accepts_plus_and_digits() {
    assert_eq!(parse_usize_or_error(&chars("50000")), Ok(50000));
    assert_eq!(parse_usize_or_error(&chars("+7")), Ok(7));
    assert_eq!(parse_usize_or_error(&chars("")), Err(IntErrorKind::Empty));
    assert_eq!(parse_usize_or_error(&chars("+")), Err(IntErrorKind::InvalidDigit));
    assert_eq!(parse_usize_or_error(&chars("-1")), Err(IntErrorKind::InvalidDigit));
    assert_eq!(parse_usize_or_error(&chars("12a")), Err(IntErrorKind::InvalidDigit));
    assert_eq!(
        parse_usize_or_error(&chars("999999999999999999999999")),
        Err(IntErrorKind::PosOverflow)
    );
    for text in ["0", "42", "+3", "", "x", "1x", "99999999999999999999999"] {
        let ours = parse_usize_or_error(&chars(text)).ok();
        assert_eq!(ours, text.parse::<usize>().ok(), "{text}");
    }
}

#[test]
fn float_syntax_matches_std_parse() {
    let samples = [
        "1", "1.", ".5", "1.5", "-2.25", "+3", "1e5", "1E-3", "2.5e+10", "inf", "-Infinity", "NaN",
        "", "+", "-", ".", "e5", "1e", "1e+", "1.2.3", " 1", "1 ", "0x10", "1_000", "infin", "nanx",
        "..5", "5..", "1e5.0",
    ];
    for text in samples {
        let ours = float_syntax_error(&chars(text));
        let std_ok = text.parse::<f64>().is_ok();
        assert_eq!(ours.is_none(), std_ok, "{text:?}");
    }
    assert_eq!(float_syntax_error(&chars("")), Some(FloatErrorKind::Empty));
    assert_eq!(float_syntax_error(&chars("abc")), Some(FloatErrorKind::Invalid));
    assert_eq!(FloatErrorKind::Empty.message(), "".parse::<f64>().unwrap_err().to_string());
    assert_eq!(FloatErrorKind::Invalid.message(), "x".parse::<f64>().unwrap_err().to_string());
}

#[test]
fn run_args_full() {
    let parsed = parse_run_args(&args(&[
        "my.algomln", "--data", "sample-data/nifty_1min.csv", "--candles", "500", "--cash", "250000.5",
        "--symbol", "NIFTY",
    ]))
    .unwrap();
    assert_eq!(parsed.script_path, "my.algomln");
    assert_eq!(parsed.data_path, "sample-data/nifty_1min.csv");
    assert_eq!(parsed.candle_limit, Some(500));
    assert_eq!(parsed.initial_cash.as_deref(), Some("250000.5"));
    assert_eq!(parsed.symbol, "NIFTY");
}

#[test]
fn run_args_symbol_defaults_to_data_stem() {
    let parsed = parse_run_args(&args(&["s.algomln", "--data", "dir/banknifty.csv"])).unwrap();
    assert_eq!(parsed.symbol, "banknifty");
    assert_eq!(parsed.candle_limit, None);
    assert_eq!(parsed.initial_cash, None);
    let parsed = parse_run_args(&args(&["s.algomln", "--data", ".."])).unwrap();
    assert_eq!(parsed.symbol, "UNKNOWN");
}

#[test]
fn run_args_errors() {
    assert_eq!(
        parse_run_args(&[]).unwrap_err(),
        "Error: missing .algomln file for run subcommand"
    );
    assert_eq!(
        parse_run_args(&args(&["s.algomln"])).unwrap_err(),
        "Error: --data is required for run subcommand"
    );
    assert_eq!(parse_run_args(&args(&["s.algomln", "--data"])).unwrap_err(), "Error: --data requires a path");
    assert_eq!(
        parse_run_args(&args(&["s.algomln", "--data", "x.csv", "--candles", "many"])).unwrap_err(),
        "Error: invalid --candles value 'many': invalid digit found in string"
    );
    assert_eq!(
        parse_run_args(&args(&["s.algomln", "--cash", "lots", "--bogus"])).unwrap_err(),
        "Error: invalid --cash value 'lots': invalid float literal"
    );
    assert_eq!(
        parse_run_args(&args(&["s.algomln", "--cash", ""])).unwrap_err(),
        "Error: invalid --cash value '': cannot parse float from empty string"
    );
    assert_eq!(
        parse_run_args(&args(&["s.algomln", "--verbose"])).unwrap_err(),
        "Error: unknown run option: --verbose"
    );
    assert_eq!(parse_run_args(&args(&["s.algomln", "--symbol"])).unwrap_err(), "Error: --symbol requires a value");
}

#[test]
fn backtest_args_defaults() {
    let parsed = parse_backtest_args(&args(&["rsi.algomln", "--security", "1333"]), NOW).unwrap();
    assert_eq!(parsed.script_path, "rsi.algomln");
    assert_eq!(parsed.security_id, "1333");
    assert_eq!(parsed.exchange_segment, "NSE_EQ");
    assert_eq!(parsed.instrument, "EQUITY");
    assert_eq!(parsed.timeframe, Timeframe::M1);
    assert_eq!(parsed.from, NOW - 365 * DAY_MS);
    assert_eq!(parsed.to, NOW);
    assert_eq!(parsed.initial_cash, None);
}

#[test]
fn backtest_args_dates_and_timeframe() {
    let parsed = parse_backtest_args(
        &args(&[
            "rsi.algomln", "--security", "1333", "--from", "2024-01-01", "--to", "2024-06-30",
            "--timeframe", " 1H ", "--exchange", "BSE_EQ", "--instrument", "FUTIDX", "--cash", "1e6",
        ]),
        NOW,
    )
    .unwrap();
    assert_eq!(parsed.from, 1_704_067_200_000);
    assert_eq!(parsed.to, 1_719_705_600_000);
    assert_eq!(parsed.timeframe, Timeframe::H1);
    assert_eq!(parsed.exchange_segment, "BSE_EQ");
    assert_eq!(parsed.instrument, "FUTIDX");
    assert_eq!(parsed.initial_cash.as_deref(), Some("1e6"));
}

#[test]
fn backtest_symbol_fills_security_exchange_instrument() {
    let parsed =
        parse_backtest_args(&args(&["s.algomln", "--symbol", " 2885 | NSE_FNO : FUTSTK "]), NOW).unwrap();
    assert_eq!(parsed.security_id, "2885");
    assert_eq!(parsed.exchange_segment, "NSE_FNO");
    assert_eq!(parsed.instrument, "FUTSTK");
    let parsed = parse_backtest_args(&args(&["s.algomln", "--symbol", "||11536"]), NOW).unwrap();
    assert_eq!(parsed.security_id, "11536");
    assert_eq!(parsed.exchange_segment, "NSE_EQ");
    assert_eq!(parsed.instrument, "EQUITY");
}

#[test]
fn backtest_args_errors() {
    assert_eq!(
        parse_backtest_args(&[], NOW).unwrap_err(),
        "Error: missing .algomln file for backtest subcommand"
    );
    assert_eq!(
        parse_backtest_args(&args(&["s.algomln"]), NOW).unwrap_err(),
        "Error: --security <id> is required for backtest subcommand"
    );
    assert_eq!(
        parse_backtest_args(&args(&["s.algomln", "--security", "   "]), NOW).unwrap_err(),
        "Error: --security <id> is required for backtest subcommand"
    );
    assert_eq!(
        parse_backtest_args(&args(&["s.algomln", "--symbol", "|:|"]), NOW).unwrap_err(),
        "Error: --security <id> is required for backtest subcommand"
    );
    assert_eq!(
        parse_backtest_args(&args(&["s.algomln", "--symbol", "1|NSE_EQ", "--security", "1"]), NOW).unwrap_err(),
        "Error: --symbol and --security are mutually exclusive"
    );
    assert_eq!(
        parse_backtest_args(&args(&["s.algomln", "--timeframe", "2m"]), NOW).unwrap_err(),
        "Error: unknown timeframe '2m' \u{2014} expected 1m 5m 15m 30m 1h 1d"
    );
    assert_eq!(
        parse_backtest_args(&args(&["s.algomln", "--from", "2024/01/01"]), NOW).unwrap_err(),
        "Error: invalid date '2024/01/01' \u{2014} expected YYYY-MM-DD"
    );
    assert_eq!(
        parse_backtest_args(&args(&["s.algomln", "--to"]), NOW).unwrap_err(),
        "Error: --to requires a value"
    );
    assert_eq!(
        parse_backtest_args(&args(&["s.algomln", "--limit", "3"]), NOW).unwrap_err(),
        "Error: unknown argument for backtest: --limit"
    );
}

#[test]
fn timeframe_values_and_labels() {
    assert_eq!(parse_backtest_timeframe("5M"), Ok(Timeframe::M5));
    assert_eq!(parse_backtest_timeframe("15m"), Ok(Timeframe::M15));
    assert_eq!(parse_backtest_timeframe("30m"), Ok(Timeframe::M30));
    assert_eq!(parse_backtest_timeframe("1d"), Ok(Timeframe::D1));
    assert!(parse_backtest_timeframe("1w").is_err());
    assert_eq!(timeframe_label(Timeframe::M60), "1h");
    assert_eq!(timeframe_label(Timeframe::H1), "1h");
    assert_eq!(timeframe_label(Timeframe::D1), "1d");
    assert_eq!(timeframe_label(Timeframe::W1), "unknown");
}

#[test]
fn dates_parse_to_utc_midnight() {
    assert_eq!(parse_yyyy_mm_dd("1970-01-02"), Ok(DAY_MS));
    assert_eq!(parse_yyyy_mm_dd("2024-02-29"), Ok(1_709_164_800_000));
    assert!(parse_yyyy_mm_dd("2023-02-29").is_err());
    assert_eq!(date_or_error("x", Some(5)), Ok(5));
    assert_eq!(
        date_or_error("31-12-2024", None).unwrap_err(),
        "Error: invalid date '31-12-2024' \u{2014} expected YYYY-MM-DD"
    );
}

#[test]
fn command_dispatch() {
    assert!(matches!(parse_command(&args(&["bt"]), NOW), Ok(CliCommand::Demo)));
    assert!(matches!(parse_command(&args(&["bt", "-h"]), NOW), Ok(CliCommand::Help)));
    assert!(matches!(parse_command(&args(&["bt", "--help"]), NOW), Ok(CliCommand::Help)));
    assert!(matches!(parse_command(&args(&["bt", "other"]), NOW), Ok(CliCommand::Demo)));
    match parse_command(&args(&["bt", "profile"]), NOW) {
        Ok(CliCommand::Profile { strategy, candle_limit }) => {
            assert_eq!(strategy, "rsi");
            assert_eq!(candle_limit, None);
        }
        other => panic!("unexpected {other:?}"),
    }
    match parse_command(&args(&["bt", "profile", "ema", "10000"]), NOW) {
        Ok(CliCommand::Profile { strategy, candle_limit }) => {
            assert_eq!(strategy, "ema");
            assert_eq!(candle_limit, Some(10000));
        }
        other => panic!("unexpected {other:?}"),
    }
    assert_eq!(
        parse_command(&args(&["bt", "profile", "rsi", "ten"]), NOW).unwrap_err(),
        "Error: invalid candles value 'ten': invalid digit found in string"
    );
    match parse_command(&args(&["bt", "run", "a.algomln", "--data", "d.csv"]), NOW) {
        Ok(CliCommand::Run(run)) => assert_eq!(run.symbol, "d"),
        other => panic!("unexpected {other:?}"),
    }
    match parse_command(&args(&["bt", "backtest", "a.algomln", "--security", "7"]), NOW) {
        Ok(CliCommand::Backtest(b)) => assert_eq!(b.security_id, "7"),
        other => panic!("unexpected {other:?}"),
    }
    assert_eq!(
        parse_command(&args(&["bt", "run"]), NOW).unwrap_err(),
        "Error: missing .algomln file for run subcommand"
    );
}

#[test]
fn profile_strategies() {
    assert_eq!(profile_strategy("rsi").unwrap(), "WHEN rsi(14) < 30\nBUY 1\n\nWHEN rsi(14) > 70\nSELL ALL");
    assert!(profile_strategy("ema").unwrap().starts_with("WHEN cross_above(ema(20), ema(50))"));
    assert_eq!(profile_strategy("macd").unwrap_err(), "unknown strategy: macd");
}

#[test]
fn run_symbol_is_the_data_file_stem() {
    let stem = |p: &str| parse_run_args(&args(&["s.algomln", "--data", p])).unwrap().symbol;
    assert_eq!(stem("sample-data/nifty_1min.csv"), "nifty_1min");
    assert_eq!(stem("a/b.tar.gz"), "b.tar");
    assert_eq!(stem("dir/.hidden"), ".hidden");
    assert_eq!(stem("dir/sub/"), "sub");
    assert_eq!(stem("a/b/.."), "UNKNOWN");
    assert_eq!(stem("/"), "UNKNOWN");
    let parsed = parse_run_args(&args(&[
        "my_strat.algomln", "--data", "sample-data/nifty_1min.csv", "--candles", "50000", "--cash", "500000",
    ]))
    .unwrap();
    assert_eq!(parsed.symbol, "nifty_1min");
    assert_eq!(parsed.candle_limit, Some(50000));
    assert_eq!(parsed.initial_cash.as_deref(), Some("500000"));
}
