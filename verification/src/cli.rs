//! The command line of the backtest runner: which subcommand was asked for
//! and its options, checked the way the runner reports mistakes.

use vstd::prelude::*;
use crate::numbers::{
    float_error_text, float_parse_error, float_syntax_error, parse_uint_spec,
    parse_usize_or_error, uint_error_kind,
};
use crate::broker::Timeframe;
use crate::plugin::manifest::last_dot;
use crate::text::{
    chars_eq_str, chars_of, drop_empty, has_substring, int_error_text, lower_ascii, non_empty,
    split_by, split_on_any, str_eq, string_of, to_ascii_lower, trim, trim_chars, views,
};

verus! {

broadcast use vstd::string::group_string_axioms;

/// The text of each argument.
pub open spec fn arg_texts(args: Seq<String>) -> Seq<Seq<char>> {
    args.map_values(|a: String| a@)
}

/// The text of an optional string.
pub open spec fn opt_text(o: Option<String>) -> Option<Seq<char>> {
    match o {
        Some(s) => Some(s@),
        None => None,
    }
}

/// The message for an option value that does not parse.
pub open spec fn invalid_value_text(flag: Seq<char>, value: Seq<char>, why: Seq<char>) -> Seq<char> {
    "Error: invalid "@ + flag + " value '"@ + value + "': "@ + why
}

/// Options of `run` seen so far.
pub struct RunOptions {
    pub data_path: Option<Seq<char>>,
    pub candle_limit: Option<usize>,
    pub cash: Option<Seq<char>>,
    pub symbol: Option<Seq<char>>,
}

/// Reads the `run` options from position `i` on, starting from `st`.
pub open spec fn run_options(args: Seq<Seq<char>>, i: int, st: RunOptions) -> Result<RunOptions, Seq<char>>
    decreases args.len() - i,
{
    if i < 0 || i >= args.len() {
        Ok(st)
    } else {
        let opt = args[i];
        let has_value = i + 1 < args.len();
        let v = args[i + 1];
        if opt == "--data"@ {
            if has_value {
                run_options(
                    args,
                    i + 2,
                    RunOptions { data_path: Some(v), candle_limit: st.candle_limit, cash: st.cash, symbol: st.symbol },
                )
            } else {
                Err("Error: --data requires a path"@)
            }
        } else if opt == "--candles"@ {
            if has_value {
                match parse_uint_spec(v, usize::MAX as int) {
                    Some(n) => run_options(
                        args,
                        i + 2,
                        RunOptions { data_path: st.data_path, candle_limit: Some(n as usize), cash: st.cash, symbol: st.symbol },
                    ),
                    None => Err(invalid_value_text("--candles"@, v, int_error_text(uint_error_kind(v, usize::MAX as int)))),
                }
            } else {
                Err("Error: --candles requires a value"@)
            }
        } else if opt == "--cash"@ {
            if has_value {
                match float_parse_error(v) {
                    None => run_options(
                        args,
                        i + 2,
                        RunOptions { data_path: st.data_path, candle_limit: st.candle_limit, cash: Some(v), symbol: st.symbol },
                    ),
                    Some(k) => Err(invalid_value_text("--cash"@, v, float_error_text(k))),
                }
            } else {
                Err("Error: --cash requires a value"@)
            }
        } else if opt == "--symbol"@ {
            if has_value {
                run_options(
                    args,
                    i + 2,
                    RunOptions { data_path: st.data_path, candle_limit: st.candle_limit, cash: st.cash, symbol: Some(v) },
                )
            } else {
                Err("Error: --symbol requires a value"@)
            }
        } else {
            Err("Error: unknown run option: "@ + opt)
        }
    }
}

pub open spec fn no_run_options() -> RunOptions {
    RunOptions { data_path: None, candle_limit: None, cash: None, symbol: None }
}

/// What `run <script> [options]` asks for. `initial_cash` is the text of the
/// last `--cash` value, already checked to be a decimal number; `None`
/// means the runner's default.
#[derive(Debug, Clone)]
pub struct RunArgs {
    pub script_path: String,
    pub data_path: String,
    pub candle_limit: Option<usize>,
    pub initial_cash: Option<String>,
    pub symbol: String,
}

/// The pieces of a path between `/` that name something: empty pieces and
/// `.` are dropped.
pub open spec fn named_parts(parts: Seq<Seq<char>>) -> Seq<Seq<char>>
    decreases parts.len(),
{
    if parts.len() == 0 {
        parts
    } else {
        let rest = named_parts(parts.drop_last());
        if parts.last().len() == 0 || parts.last() == "."@ {
            rest
        } else {
            rest.push(parts.last())
        }
    }
}

/// `Path::file_name` of a path with `/` separators: its last named piece,
/// unless there is none or it is `..`.
pub open spec fn path_file_name(p: Seq<char>) -> Option<Seq<char>> {
    let parts = named_parts(split_by(p, |c: char| c == '/'));
    if parts.len() == 0 || parts.last() == ".."@ {
        None
    } else {
        Some(parts.last())
    }
}

/// The stem of a file name: the part before its last `.`, or the whole
/// name when it has no `.` or its only `.` starts it.
pub open spec fn name_stem(f: Seq<char>) -> Seq<char> {
    match last_dot(f) {
        Some(i) => if i == 0 {
            f
        } else {
            f.take(i)
        },
        None => f,
    }
}

/// `Path::file_stem` of a path with `/` separators.
pub open spec fn path_stem(p: Seq<char>) -> Option<Seq<char>> {
    match path_file_name(p) {
        Some(f) => Some(name_stem(f)),
        None => None,
    }
}

/// A path whose meaning is the same on every platform: no `\` (a Windows
/// separator) and no `:` (a Windows drive prefix).
pub open spec fn portable_path(p: Seq<char>) -> bool {
    forall|i: int| 0 <= i < p.len() ==> #[trigger] p[i] != '\\' && p[i] != ':'
}

/// `Path::file_stem` of a path, as text. For a portable path the result is
/// the one std documents: the last component that is a normal name, cut
/// before its final `.` unless that `.` is its first character; `None` when
/// the path ends in `..` or has no named component. For other paths the
/// platform decides which non-empty piece of the path it is.
#[verifier::external_body]
fn path_file_stem(p: &str) -> (r: Option<String>)
    ensures
        r matches Some(t) ==> t@.len() > 0 && has_substring(p@, t@),
        portable_path(p@) ==> match r {
            Some(t) => path_stem(p@) == Some(t@),
            None => path_stem(p@) is None,
        },
{
    match std::path::Path::new(p).file_stem() {
        Some(stem) => match stem.to_str() {
            Some(t) => Some(t.to_string()),
            None => None,
        },
        None => None,
    }
}

/// The message for an option value that does not parse.
fn invalid_value(flag: &str, value: &String, why: &str) -> (r: String)
    ensures
        r@ == invalid_value_text(flag@, value@, why@),
{
    let mut m = String::from_str("Error: invalid ");
    m.append(flag);
    m.append(" value '");
    m.append(value.as_str());
    m.append("': ");
    m.append(why);
    m
}

/// The outcome of reading the arguments after `run`: the script path, the
/// data path and the options, or the message of the first mistake.
pub open spec fn run_args_spec(args: Seq<Seq<char>>) -> Result<(Seq<char>, Seq<char>, RunOptions), Seq<char>> {
    if args.len() == 0 {
        Err("Error: missing .algomln file for run subcommand"@)
    } else {
        match run_options(args, 1, no_run_options()) {
            Err(msg) => Err(msg),
            Ok(st) => match st.data_path {
                None => Err("Error: --data is required for run subcommand"@),
                Some(dp) => Ok((args[0], dp, st)),
            },
        }
    }
}

/// `r` is what reading the `run` arguments `args` gives (the symbol, when
/// no `--symbol` was given, is `UNKNOWN` or a non-empty piece of the data
/// path: its file stem).
pub open spec fn run_outcome(r: Result<RunArgs, String>, args: Seq<Seq<char>>) -> bool {
    match run_args_spec(args) {
        Err(msg) => r is Err && r->Err_0@ == msg,
        Ok((script, dp, st)) => r is Ok && {
            let a = r->Ok_0;
            &&& a.script_path@ == script
            &&& a.data_path@ == dp
            &&& a.candle_limit == st.candle_limit
            &&& opt_text(a.initial_cash) == st.cash
            &&& match st.symbol {
                Some(s) => a.symbol@ == s,
                None => if portable_path(dp) {
                    a.symbol@ == match path_stem(dp) {
                        Some(t) => t,
                        None => "UNKNOWN"@,
                    }
                } else {
                    a.symbol@ == "UNKNOWN"@ || (a.symbol@.len() > 0 && has_substring(dp, a.symbol@))
                },
            }
        },
    }
}

/// Parses the arguments after `run`: the script path, then `--data <path>`
/// (required), `--candles <n>`, `--cash <amount>` and `--symbol <name>`.
/// Without `--symbol` the symbol is the data file's stem, or `UNKNOWN`.
pub fn parse_run_args(args: &[String]) -> (r: Result<RunArgs, String>)
    ensures
        run_outcome(r, arg_texts(args@)),
{
    let ghost texts = arg_texts(args@);
    if args.len() == 0 {
        return Err(String::from_str("Error: missing .algomln file for run subcommand"));
    }
    let script_path = args[0].clone();
    let mut data_path: Option<String> = None;
    let mut candle_limit: Option<usize> = None;
    let mut initial_cash: Option<String> = None;
    let mut symbol: Option<String> = None;
    let mut i: usize = 1;
    while i < args.len()
        invariant
            1 <= i,
            texts == arg_texts(args@),
            run_options(texts, 1, no_run_options()) == run_options(
                texts,
                i as int,
                RunOptions {
                    data_path: opt_text(data_path),
                    candle_limit: candle_limit,
                    cash: opt_text(initial_cash),
                    symbol: opt_text(symbol),
                },
            ),
        decreases args.len() - i,
    {
        let ghost st = RunOptions {
            data_path: opt_text(data_path),
            candle_limit: candle_limit,
            cash: opt_text(initial_cash),
            symbol: opt_text(symbol),
        };
        let opt = args[i].as_str();
        assert(texts[i as int] == opt@);
        let has_value = i + 1 < args.len();
        if has_value {
            assert(texts[i + 1] == args@[i + 1]@);
        }
        if str_eq(opt, "--data") {
            if !has_value {
                return Err(String::from_str("Error: --data requires a path"));
            }
            data_path = Some(args[i + 1].clone());
        } else if str_eq(opt, "--candles") {
            if !has_value {
                return Err(String::from_str("Error: --candles requires a value"));
            }
            let value = &args[i + 1];
            match parse_usize_or_error(&chars_of(value.as_str())) {
                Ok(n) => {
                    candle_limit = Some(n);
                },
                Err(k) => {
                    return Err(invalid_value("--candles", value, k.message()));
                },
            }
        } else if str_eq(opt, "--cash") {
            if !has_value {
                return Err(String::from_str("Error: --cash requires a value"));
            }
            let value = &args[i + 1];
            match float_syntax_error(&chars_of(value.as_str())) {
                None => {
                    initial_cash = Some(value.clone());
                },
                Some(k) => {
                    return Err(invalid_value("--cash", value, k.message()));
                },
            }
        } else if str_eq(opt, "--symbol") {
            if !has_value {
                return Err(String::from_str("Error: --symbol requires a value"));
            }
            symbol = Some(args[i + 1].clone());
        } else {
            return Err(String::from_str("Error: unknown run option: ").concat(opt));
        }
        i = i + 2;
    }
    let data_path = match data_path {
        Some(p) => p,
        None => {
            return Err(String::from_str("Error: --data is required for run subcommand"));
        },
    };
    let symbol = match symbol {
        Some(s) => s,
        None => match path_file_stem(data_path.as_str()) {
            Some(t) => t,
            None => String::from_str("UNKNOWN"),
        },
    };
    Ok(RunArgs { script_path, data_path, candle_limit, initial_cash, symbol })
}


/// Milliseconds in a day.
pub const DAY_MS: i64 = 86_400_000;

/// What chrono's `NaiveDate::parse_from_str(value, fmt)` yields, as the
/// millisecond UNIX time of that date's midnight in UTC; `None` when chrono
/// refuses the text.
pub uninterp spec fn date_start_ms(value: Seq<char>, fmt: Seq<char>) -> Option<i64>;

/// chrono's `NaiveDate::parse_from_str`, turned into the millisecond UNIX
/// time of the date's midnight (`and_hms_opt(0, 0, 0)`, `and_utc`,
/// `timestamp_millis`). The result is named, not stated: chrono's format
/// grammar and calendar are not restated here.
#[verifier::external_body]
fn parse_date_start_ms(value: &str, fmt: &str) -> (r: Option<i64>)
    ensures
        r == date_start_ms(value@, fmt@),
{
    match chrono::NaiveDate::parse_from_str(value, fmt) {
        Ok(date) => match date.and_hms_opt(0, 0, 0) {
            Some(midnight) => Some(midnight.and_utc().timestamp_millis()),
            None => None,
        },
        Err(_) => None,
    }
}

/// The message for a date that is not `YYYY-MM-DD`.
pub open spec fn invalid_date_text(value: Seq<char>) -> Seq<char> {
    "Error: invalid date '"@ + value + "' \u{2014} expected YYYY-MM-DD"@
}

/// A date option's value, given what the date parser made of it.
pub open spec fn date_result(value: Seq<char>, parsed: Option<i64>) -> Result<i64, Seq<char>> {
    match parsed {
        Some(ms) => Ok(ms),
        None => Err(invalid_date_text(value)),
    }
}

/// Turns the date parser's answer for `value` into the option's value or
/// its error message.
pub fn date_or_error(value: &str, parsed: Option<i64>) -> (r: Result<i64, String>)
    ensures
        match date_result(value@, parsed) {
            Ok(ms) => r == Ok::<i64, String>(ms),
            Err(msg) => r is Err && r->Err_0@ == msg,
        },
{
    match parsed {
        Some(ms) => Ok(ms),
        None => {
            let mut m = String::from_str("Error: invalid date '");
            m.append(value);
            m.append("' \u{2014} expected YYYY-MM-DD");
            Err(m)
        },
    }
}

/// A `YYYY-MM-DD` date as the millisecond UNIX time of its UTC midnight.
pub fn parse_yyyy_mm_dd(value: &str) -> (r: Result<i64, String>)
    ensures
        match date_result(value@, date_start_ms(value@, "%Y-%m-%d"@)) {
            Ok(ms) => r == Ok::<i64, String>(ms),
            Err(msg) => r is Err && r->Err_0@ == msg,
        },
{
    date_or_error(value, parse_date_start_ms(value, "%Y-%m-%d"))
}

/// The timeframe a `--timeframe` value names, in any ASCII case and with
/// surrounding whitespace ignored.
pub open spec fn backtest_timeframe(v: Seq<char>) -> Option<Timeframe> {
    let n = lower_ascii(trim(v));
    if n == "1m"@ {
        Some(Timeframe::M1)
    } else if n == "5m"@ {
        Some(Timeframe::M5)
    } else if n == "15m"@ {
        Some(Timeframe::M15)
    } else if n == "30m"@ {
        Some(Timeframe::M30)
    } else if n == "1h"@ {
        Some(Timeframe::H1)
    } else if n == "1d"@ {
        Some(Timeframe::D1)
    } else {
        None
    }
}

/// The message for an unknown `--timeframe` value.
pub open spec fn unknown_timeframe_text(value: Seq<char>) -> Seq<char> {
    "Error: unknown timeframe '"@ + value + "' \u{2014} expected 1m 5m 15m 30m 1h 1d"@
}

/// Parses a `--timeframe` value.
pub fn parse_backtest_timeframe(value: &str) -> (r: Result<Timeframe, String>)
    ensures
        match backtest_timeframe(value@) {
            Some(tf) => r == Ok::<Timeframe, String>(tf),
            None => r is Err && r->Err_0@ == unknown_timeframe_text(value@),
        },
{
    let n = to_ascii_lower(&trim_chars(&chars_of(value)));
    if chars_eq_str(&n, "1m") {
        Ok(Timeframe::M1)
    } else if chars_eq_str(&n, "5m") {
        Ok(Timeframe::M5)
    } else if chars_eq_str(&n, "15m") {
        Ok(Timeframe::M15)
    } else if chars_eq_str(&n, "30m") {
        Ok(Timeframe::M30)
    } else if chars_eq_str(&n, "1h") {
        Ok(Timeframe::H1)
    } else if chars_eq_str(&n, "1d") {
        Ok(Timeframe::D1)
    } else {
        let mut m = String::from_str("Error: unknown timeframe '");
        m.append(value);
        m.append("' \u{2014} expected 1m 5m 15m 30m 1h 1d");
        Err(m)
    }
}

/// The label a timeframe is printed with.
pub open spec fn timeframe_label_text(tf: Timeframe) -> Seq<char> {
    match tf {
        Timeframe::M1 => "1m"@,
        Timeframe::M5 => "5m"@,
        Timeframe::M15 => "15m"@,
        Timeframe::M30 => "30m"@,
        Timeframe::H1 | Timeframe::M60 => "1h"@,
        Timeframe::D1 => "1d"@,
        _ => "unknown"@,
    }
}

/// The label a timeframe is printed with.
pub fn timeframe_label(tf: Timeframe) -> (r: &'static str)
    ensures
        r@ == timeframe_label_text(tf),
{
    match tf {
        Timeframe::M1 => "1m",
        Timeframe::M5 => "5m",
        Timeframe::M15 => "15m",
        Timeframe::M30 => "30m",
        Timeframe::H1 | Timeframe::M60 => "1h",
        Timeframe::D1 => "1d",
        _ => "unknown",
    }
}

/// Options of `backtest` seen so far.
pub struct BacktestOptions {
    pub security_id: Option<Seq<char>>,
    pub symbol: Option<Seq<char>>,
    pub exchange_segment: Seq<char>,
    pub instrument: Seq<char>,
    pub timeframe: Timeframe,
    pub from: i64,
    pub to: i64,
    pub cash: Option<Seq<char>>,
}

/// Reads the `backtest` options from position `i` on, starting from `st`.
pub open spec fn backtest_options(args: Seq<Seq<char>>, i: int, st: BacktestOptions) -> Result<BacktestOptions, Seq<char>>
    decreases args.len() - i,
{
    if i < 0 || i >= args.len() {
        Ok(st)
    } else {
        let opt = args[i];
        let has_value = i + 1 < args.len();
        let v = args[i + 1];
        if opt == "--security"@ {
            if has_value {
                backtest_options(args, i + 2, BacktestOptions { security_id: Some(v), ..st })
            } else {
                Err("Error: --security requires a value"@)
            }
        } else if opt == "--symbol"@ {
            if has_value {
                backtest_options(args, i + 2, BacktestOptions { symbol: Some(v), ..st })
            } else {
                Err("Error: --symbol requires a value"@)
            }
        } else if opt == "--exchange"@ {
            if has_value {
                backtest_options(args, i + 2, BacktestOptions { exchange_segment: v, ..st })
            } else {
                Err("Error: --exchange requires a value"@)
            }
        } else if opt == "--instrument"@ {
            if has_value {
                backtest_options(args, i + 2, BacktestOptions { instrument: v, ..st })
            } else {
                Err("Error: --instrument requires a value"@)
            }
        } else if opt == "--timeframe"@ {
            if has_value {
                match backtest_timeframe(v) {
                    Some(tf) => backtest_options(args, i + 2, BacktestOptions { timeframe: tf, ..st }),
                    None => Err(unknown_timeframe_text(v)),
                }
            } else {
                Err("Error: --timeframe requires a value"@)
            }
        } else if opt == "--from"@ {
            if has_value {
                match date_result(v, date_start_ms(v, "%Y-%m-%d"@)) {
                    Ok(ms) => backtest_options(args, i + 2, BacktestOptions { from: ms, ..st }),
                    Err(msg) => Err(msg),
                }
            } else {
                Err("Error: --from requires a value"@)
            }
        } else if opt == "--to"@ {
            if has_value {
                match date_result(v, date_start_ms(v, "%Y-%m-%d"@)) {
                    Ok(ms) => backtest_options(args, i + 2, BacktestOptions { to: ms, ..st }),
                    Err(msg) => Err(msg),
                }
            } else {
                Err("Error: --to requires a value"@)
            }
        } else if opt == "--cash"@ {
            if has_value {
                match float_parse_error(v) {
                    None => backtest_options(args, i + 2, BacktestOptions { cash: Some(v), ..st }),
                    Some(k) => Err(invalid_value_text("--cash"@, v, float_error_text(k))),
                }
            } else {
                Err("Error: --cash requires a value"@)
            }
        } else {
            Err("Error: unknown argument for backtest: "@ + opt)
        }
    }
}

/// The options `backtest` starts from: NSE equity, one-minute candles over
/// the year before `now_ms`.
pub open spec fn default_backtest_options(now_ms: i64) -> BacktestOptions {
    BacktestOptions {
        security_id: None,
        symbol: None,
        exchange_segment: "NSE_EQ"@,
        instrument: "EQUITY"@,
        timeframe: Timeframe::M1,
        from: (now_ms - 365 * DAY_MS) as i64,
        to: now_ms,
        cash: None,
    }
}

pub open spec fn is_symbol_sep(c: char) -> bool {
    c == '|' || c == ':'
}

/// The trimmed, non-empty pieces of a `--symbol` value split at `|` and `:`.
pub open spec fn symbol_parts(sym: Seq<char>) -> Seq<Seq<char>> {
    non_empty(split_by(sym, |c: char| is_symbol_sep(c)).map_values(|p: Seq<char>| trim(p)))
}

/// The outcome of reading the arguments after `backtest`: the script path
/// and the settled options, or the message of the first mistake. A
/// `--symbol id|exchange|instrument` value fills in the security id and, when
/// given, the exchange segment and instrument.
pub open spec fn backtest_args_spec(args: Seq<Seq<char>>, now_ms: i64) -> Result<(Seq<char>, BacktestOptions), Seq<char>> {
    if args.len() == 0 {
        Err("Error: missing .algomln file for backtest subcommand"@)
    } else {
        match backtest_options(args, 1, default_backtest_options(now_ms)) {
            Err(msg) => Err(msg),
            Ok(st) => if st.symbol is Some && st.security_id is Some {
                Err("Error: --symbol and --security are mutually exclusive"@)
            } else {
                let settled = match st.symbol {
                    Some(sym) => {
                        let parts = symbol_parts(sym);
                        BacktestOptions {
                            security_id: Some(if parts.len() > 0 { parts[0] } else { Seq::<char>::empty() }),
                            exchange_segment: if parts.len() > 1 { parts[1] } else { st.exchange_segment },
                            instrument: if parts.len() > 2 { parts[2] } else { st.instrument },
                            ..st
                        }
                    },
                    None => st,
                };
                match settled.security_id {
                    Some(id) => if trim(id).len() > 0 {
                        Ok((args[0], settled))
                    } else {
                        Err("Error: --security <id> is required for backtest subcommand"@)
                    },
                    None => Err("Error: --security <id> is required for backtest subcommand"@),
                }
            },
        }
    }
}

/// What `backtest <script> [options]` asks for. `initial_cash` is the text
/// of the last `--cash` value, already checked to be a decimal number;
/// `None` means the runner's default.
#[derive(Debug, Clone)]
pub struct BacktestArgs {
    pub script_path: String,
    pub security_id: String,
    pub exchange_segment: String,
    pub instrument: String,
    pub timeframe: Timeframe,
    pub from: i64,
    pub to: i64,
    pub initial_cash: Option<String>,
}

/// Splits a `--symbol` value into its trimmed non-empty parts.
fn split_symbol(sym: &String) -> (r: Vec<Vec<char>>)
    ensures
        views(r@) == symbol_parts(sym@),
{
    let seps: Vec<char> = vec!['|', ':'];
    let pieces = split_on_any(&chars_of(sym.as_str()), &seps);
    assert((|c: char| seps@.contains(c)) =~= (|c: char| is_symbol_sep(c))) by {
        assert forall|c: char| seps@.contains(c) == is_symbol_sep(c) by {
            if c == '|' {
                assert(seps@[0] == c);
            }
            if c == ':' {
                assert(seps@[1] == c);
            }
        }
    }
    let ghost whole = split_by(sym@, |c: char| is_symbol_sep(c));
    let mut trimmed: Vec<Vec<char>> = Vec::new();
    let mut i: usize = 0;
    while i < pieces.len()
        invariant
            i <= pieces@.len(),
            views(pieces@) == whole,
            views(trimmed@) == whole.take(i as int).map_values(|p: Seq<char>| trim(p)),
        decreases pieces.len() - i,
    {
        assert(views(pieces@)[i as int] == pieces@[i as int]@);
        let t = trim_chars(&pieces[i]);
        let ghost before = views(trimmed@);
        trimmed.push(t);
        assert(views(trimmed@) =~= before.push(trim(whole[i as int])));
        assert(whole.take(i + 1) =~= whole.take(i as int).push(whole[i as int]));
        i = i + 1;
        assert(views(trimmed@) =~= whole.take(i as int).map_values(|p: Seq<char>| trim(p)));
    }
    assert(whole.take(pieces.len() as int) =~= whole);
    drop_empty(trimmed)
}

/// `r` is what reading the `backtest` arguments `args` at time `now_ms`
/// gives.
pub open spec fn backtest_outcome(r: Result<BacktestArgs, String>, args: Seq<Seq<char>>, now_ms: i64) -> bool {
    match backtest_args_spec(args, now_ms) {
        Err(msg) => r is Err && r->Err_0@ == msg,
        Ok((script, st)) => r is Ok && {
            let a = r->Ok_0;
            &&& a.script_path@ == script
            &&& Some(a.security_id@) == st.security_id
            &&& a.exchange_segment@ == st.exchange_segment
            &&& a.instrument@ == st.instrument
            &&& a.timeframe == st.timeframe
            &&& a.from == st.from
            &&& a.to == st.to
            &&& opt_text(a.initial_cash) == st.cash
        },
    }
}

/// Parses the arguments after `backtest`: the script path, then
/// `--security <id>` or `--symbol <id|exchange|instrument>` (one of them),
/// `--exchange`, `--instrument`, `--timeframe`, `--from` and `--to`
/// (`YYYY-MM-DD`) and `--cash`. `now_ms` is the current time, which the
/// default date range ends at.
pub fn parse_backtest_args(args: &[String], now_ms: i64) -> (r: Result<BacktestArgs, String>)
    requires
        now_ms >= i64::MIN + 365 * DAY_MS,
    ensures
        backtest_outcome(r, arg_texts(args@), now_ms),
{
    let ghost texts = arg_texts(args@);
    if args.len() == 0 {
        return Err(String::from_str("Error: missing .algomln file for backtest subcommand"));
    }
    let script_path = args[0].clone();
    let mut security_id: Option<String> = None;
    let mut symbol: Option<String> = None;
    let mut exchange_segment = String::from_str("NSE_EQ");
    let mut instrument = String::from_str("EQUITY");
    let mut timeframe = Timeframe::M1;
    let mut from: i64 = now_ms - 365 * DAY_MS;
    let mut to: i64 = now_ms;
    let mut initial_cash: Option<String> = None;
    let mut i: usize = 1;
    while i < args.len()
        invariant
            1 <= i,
            texts == arg_texts(args@),
            backtest_options(texts, 1, default_backtest_options(now_ms)) == backtest_options(
                texts,
                i as int,
                BacktestOptions {
                    security_id: opt_text(security_id),
                    symbol: opt_text(symbol),
                    exchange_segment: exchange_segment@,
                    instrument: instrument@,
                    timeframe: timeframe,
                    from: from,
                    to: to,
                    cash: opt_text(initial_cash),
                },
            ),
        decreases args.len() - i,
    {
        let opt = args[i].as_str();
        assert(texts[i as int] == opt@);
        let has_value = i + 1 < args.len();
        if has_value {
            assert(texts[i + 1] == args@[i + 1]@);
        }
        if str_eq(opt, "--security") {
            if !has_value {
                return Err(String::from_str("Error: --security requires a value"));
            }
            security_id = Some(args[i + 1].clone());
        } else if str_eq(opt, "--symbol") {
            if !has_value {
                return Err(String::from_str("Error: --symbol requires a value"));
            }
            symbol = Some(args[i + 1].clone());
        } else if str_eq(opt, "--exchange") {
            if !has_value {
                return Err(String::from_str("Error: --exchange requires a value"));
            }
            exchange_segment = args[i + 1].clone();
        } else if str_eq(opt, "--instrument") {
            if !has_value {
                return Err(String::from_str("Error: --instrument requires a value"));
            }
            instrument = args[i + 1].clone();
        } else if str_eq(opt, "--timeframe") {
            if !has_value {
                return Err(String::from_str("Error: --timeframe requires a value"));
            }
            timeframe = match parse_backtest_timeframe(args[i + 1].as_str()) {
                Ok(tf) => tf,
                Err(e) => {
                    return Err(e);
                },
            };
        } else if str_eq(opt, "--from") {
            if !has_value {
                return Err(String::from_str("Error: --from requires a value"));
            }
            from = match parse_yyyy_mm_dd(args[i + 1].as_str()) {
                Ok(ms) => ms,
                Err(e) => {
                    return Err(e);
                },
            };
        } else if str_eq(opt, "--to") {
            if !has_value {
                return Err(String::from_str("Error: --to requires a value"));
            }
            to = match parse_yyyy_mm_dd(args[i + 1].as_str()) {
                Ok(ms) => ms,
                Err(e) => {
                    return Err(e);
                },
            };
        } else if str_eq(opt, "--cash") {
            if !has_value {
                return Err(String::from_str("Error: --cash requires a value"));
            }
            let value = &args[i + 1];
            match float_syntax_error(&chars_of(value.as_str())) {
                None => {
                    initial_cash = Some(value.clone());
                },
                Some(k) => {
                    return Err(invalid_value("--cash", value, k.message()));
                },
            }
        } else {
            return Err(String::from_str("Error: unknown argument for backtest: ").concat(opt));
        }
        i = i + 2;
    }
    if symbol.is_some() && security_id.is_some() {
        return Err(String::from_str("Error: --symbol and --security are mutually exclusive"));
    }
    if let Some(sym) = &symbol {
        let parts = split_symbol(sym);
        security_id = Some(if parts.len() > 0 {
            string_of(&parts[0])
        } else {
            String::new()
        });
        if parts.len() > 1 {
            exchange_segment = string_of(&parts[1]);
        }
        if parts.len() > 2 {
            instrument = string_of(&parts[2]);
        }
    }
    let security_id = match security_id {
        Some(id) => {
            if trim_chars(&chars_of(id.as_str())).len() > 0 {
                id
            } else {
                return Err(String::from_str("Error: --security <id> is required for backtest subcommand"));
            }
        },
        None => {
            return Err(String::from_str("Error: --security <id> is required for backtest subcommand"));
        },
    };
    Ok(BacktestArgs { script_path, security_id, exchange_segment, instrument, timeframe, from, to, initial_cash })
}


/// What the runner was asked to do.
#[derive(Debug, Clone)]
pub enum CliCommand {
    /// Print the usage text.
    Help,
    /// Time a built-in strategy on the bundled index candles.
    Profile { strategy: String, candle_limit: Option<usize> },
    /// Backtest a script on a local candle file.
    Run(RunArgs),
    /// Backtest a script on candles fetched from the broker.
    Backtest(BacktestArgs),
    /// Run the bundled demonstration strategies.
    Demo,
}

/// The message for a `profile` candle count that does not parse.
pub open spec fn invalid_candles_text(value: Seq<char>) -> Seq<char> {
    "Error: invalid candles value '"@ + value + "': "@ + int_error_text(uint_error_kind(value, usize::MAX as int))
}

/// `r` is what reading the whole command line `args` (program name first)
/// at time `now_ms` gives.
pub open spec fn command_outcome(r: Result<CliCommand, String>, args: Seq<Seq<char>>, now_ms: i64) -> bool {
    let sub = args[1];
    let rest = args.skip(2);
    if args.len() >= 2 && (sub == "--help"@ || sub == "-h"@) {
        r matches Ok(CliCommand::Help)
    } else if args.len() >= 2 && sub == "profile"@ {
        let name = if args.len() > 2 { args[2] } else { "rsi"@ };
        if args.len() > 3 {
            match parse_uint_spec(args[3], usize::MAX as int) {
                Some(n) => r matches Ok(CliCommand::Profile { strategy, candle_limit })
                    && strategy@ == name && candle_limit == Some(n as usize),
                None => r is Err && r->Err_0@ == invalid_candles_text(args[3]),
            }
        } else {
            r matches Ok(CliCommand::Profile { strategy, candle_limit }) && strategy@ == name
                && candle_limit is None
        }
    } else if args.len() >= 2 && sub == "run"@ {
        match r {
            Ok(CliCommand::Run(a)) => run_outcome(Ok(a), rest),
            Err(e) => run_outcome(Err(e), rest),
            _ => false,
        }
    } else if args.len() >= 2 && sub == "backtest"@ {
        match r {
            Ok(CliCommand::Backtest(a)) => backtest_outcome(Ok(a), rest, now_ms),
            Err(e) => backtest_outcome(Err(e), rest, now_ms),
            _ => false,
        }
    } else {
        r matches Ok(CliCommand::Demo)
    }
}

/// Reads the runner's command line (program name first): `--help`/`-h`,
/// `profile [strategy] [candles]`, `run ...`, `backtest ...`, or nothing
/// known, which runs the demonstrations. `now_ms` is the current time.
pub fn parse_command(args: &[String], now_ms: i64) -> (r: Result<CliCommand, String>)
    requires
        now_ms >= i64::MIN + 365 * DAY_MS,
    ensures
        command_outcome(r, arg_texts(args@), now_ms),
{
    let ghost texts = arg_texts(args@);
    if args.len() < 2 {
        return Ok(CliCommand::Demo);
    }
    let sub = args[1].as_str();
    assert(texts[1] == sub@);
    let rest = vstd::slice::slice_subrange(args, 2, args.len());
    assert(arg_texts(rest@) =~= texts.skip(2));
    if str_eq(sub, "--help") || str_eq(sub, "-h") {
        Ok(CliCommand::Help)
    } else if str_eq(sub, "profile") {
        let strategy = if args.len() > 2 {
            assert(texts[2] == args@[2]@);
            args[2].clone()
        } else {
            String::from_str("rsi")
        };
        let candle_limit = if args.len() > 3 {
            let value = &args[3];
            assert(texts[3] == value@);
            match parse_usize_or_error(&chars_of(value.as_str())) {
                Ok(n) => Some(n),
                Err(k) => {
                    let mut m = String::from_str("Error: invalid candles value '");
                    m.append(value.as_str());
                    m.append("': ");
                    m.append(k.message());
                    return Err(m);
                },
            }
        } else {
            None
        };
        Ok(CliCommand::Profile { strategy, candle_limit })
    } else if str_eq(sub, "run") {
        match parse_run_args(rest) {
            Ok(a) => Ok(CliCommand::Run(a)),
            Err(e) => Err(e),
        }
    } else if str_eq(sub, "backtest") {
        match parse_backtest_args(rest, now_ms) {
            Ok(a) => Ok(CliCommand::Backtest(a)),
            Err(e) => Err(e),
        }
    } else {
        Ok(CliCommand::Demo)
    }
}

/// The script of a built-in `profile` strategy: `rsi` or `ema`.
pub open spec fn profile_strategy_text(name: Seq<char>) -> Option<Seq<char>> {
    if name == "rsi"@ {
        Some("WHEN rsi(14) < 30\nBUY 1\n\nWHEN rsi(14) > 70\nSELL ALL"@)
    } else if name == "ema"@ {
        Some("WHEN cross_above(ema(20), ema(50))\nBUY 1\n\nWHEN cross_below(ema(20), ema(50))\nSELL ALL"@)
    } else {
        None
    }
}

/// The script of a built-in `profile` strategy, or `unknown strategy: <name>`.
pub fn profile_strategy(name: &str) -> (r: Result<&'static str, String>)
    ensures
        match profile_strategy_text(name@) {
            Some(t) => r is Ok && r->Ok_0@ == t,
            None => r is Err && r->Err_0@ == "unknown strategy: "@ + name@,
        },
{
    if str_eq(name, "rsi") {
        Ok("WHEN rsi(14) < 30\nBUY 1\n\nWHEN rsi(14) > 70\nSELL ALL")
    } else if str_eq(name, "ema") {
        Ok("WHEN cross_above(ema(20), ema(50))\nBUY 1\n\nWHEN cross_below(ema(20), ema(50))\nSELL ALL")
    } else {
        Err(String::from_str("unknown strategy: ").concat(name))
    }
}

} // verus!
