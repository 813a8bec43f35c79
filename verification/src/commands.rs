//! Decisions behind the desktop commands: deployment modes and run states,
//! and the results the commands report.

use vstd::prelude::*;
use vstd::string::StringExecFns;
use crate::text::{
    chars_eq_str, chars_of, dec_digits, decimal, lower_ascii, padded, string_of, to_ascii_lower,
    trim, trim_chars, zero_pad,
};
use crate::live::guard::{token_accepted, token_error, LiveGuard, LiveGuardResult, PendingLiveToken};
use crate::live::session::SessionStatus;

verus! {

broadcast use vstd::string::group_string_axioms;

/// Where a deployed strategy is meant to execute.
#[derive(Debug, Clone, Copy, PartialEq, Eq, Structural)]
pub enum StrategyMode {
    Paper,
    Live,
}

/// The user-controlled run state of a deployed strategy.
#[derive(Debug, Clone, Copy, PartialEq, Eq, Structural)]
pub enum StrategyStatus {
    Running,
    Paused,
}

/// The trimmed, ASCII-lower-cased form commands compare names in.
pub open spec fn normalized(v: Seq<char>) -> Seq<char> {
    lower_ascii(trim(v))
}

/// Parsing a mode name.
pub open spec fn mode_parse(v: Seq<char>) -> Result<StrategyMode, Seq<char>> {
    let n = normalized(v);
    if n == "paper"@ {
        Ok(StrategyMode::Paper)
    } else if n == "live"@ {
        Ok(StrategyMode::Live)
    } else {
        Err("unknown mode '"@ + n + "' — expected 'paper' or 'live'"@)
    }
}

/// Parsing a run-state name.
pub open spec fn status_parse(v: Seq<char>) -> Result<StrategyStatus, Seq<char>> {
    let n = normalized(v);
    if n == "running"@ {
        Ok(StrategyStatus::Running)
    } else if n == "paused"@ {
        Ok(StrategyStatus::Paused)
    } else {
        Err("unknown status '"@ + n + "' — expected 'running' or 'paused'"@)
    }
}

fn normalize(value: &str) -> (r: Vec<char>)
    ensures
        r@ == normalized(value@),
{
    to_ascii_lower(&trim_chars(&chars_of(value)))
}

impl StrategyMode {
    /// Parses `paper` or `live`, ignoring surrounding whitespace and ASCII
    /// case.
    pub fn parse(value: &str) -> (r: Result<StrategyMode, String>)
        ensures
            r matches Ok(m) ==> mode_parse(value@) == Ok::<StrategyMode, Seq<char>>(m),
            r matches Err(e) ==> mode_parse(value@) == Err::<StrategyMode, Seq<char>>(e@),
    {
        let n = normalize(value);
        if chars_eq_str(&n, "paper") {
            Ok(StrategyMode::Paper)
        } else if chars_eq_str(&n, "live") {
            Ok(StrategyMode::Live)
        } else {
            let mut m = String::from_str("unknown mode '");
            let t = string_of(&n);
            m.append(t.as_str());
            m.append("' — expected 'paper' or 'live'");
            Err(m)
        }
    }
}

impl StrategyStatus {
    /// Parses `running` or `paused`, ignoring surrounding whitespace and
    /// ASCII case.
    pub fn parse(value: &str) -> (r: Result<StrategyStatus, String>)
        ensures
            r matches Ok(s) ==> status_parse(value@) == Ok::<StrategyStatus, Seq<char>>(s),
            r matches Err(e) ==> status_parse(value@) == Err::<StrategyStatus, Seq<char>>(e@),
    {
        let n = normalize(value);
        if chars_eq_str(&n, "running") {
            Ok(StrategyStatus::Running)
        } else if chars_eq_str(&n, "paused") {
            Ok(StrategyStatus::Paused)
        } else {
            let mut m = String::from_str("unknown status '");
            let t = string_of(&n);
            m.append(t.as_str());
            m.append("' — expected 'running' or 'paused'");
            Err(m)
        }
    }
}

/// What `request_live_start` hands back: the confirmation token, whether
/// the user must first acknowledge live trading, and the symbol to trade.
#[derive(Debug, Clone)]
pub struct RequestLiveStartResult {
    pub token: String,
    pub requires_ack: bool,
    pub symbol: String,
}

/// What stopping a live session reports.
#[derive(Debug, Clone)]
pub struct StopResult {
    pub stopped: bool,
    pub open_positions_warning: Option<String>,
}

/// What refreshing the index lists and the symbol map reports.
#[derive(Debug, Clone)]
pub struct RefreshResult {
    pub refreshed: Vec<String>,
    pub failed: Vec<(String, String)>,
    pub symbol_map_updated: bool,
    pub symbol_map_count: usize,
}

/// Timings of a backtest run.
#[derive(Debug, Clone, Copy)]
pub struct BacktestProfile {
    pub total_runtime_ms: u128,
    pub parser_validator_ms: u128,
    pub engine: EngineProfileReport,
    pub indicators: IndicatorProfileReport,
}

/// Strategy-engine call counts and timings of a backtest.
#[derive(Debug, Clone, Copy)]
pub struct EngineProfileReport {
    pub on_candle_calls: u64,
    pub on_candle_time_ms: u128,
    pub broker_execute_calls: u64,
    pub broker_execute_time_ms: u128,
    pub broker_get_positions_calls: u64,
    pub broker_get_positions_time_ms: u128,
}

/// Indicator-cache counts and timings of a backtest.
#[derive(Debug, Clone, Copy)]
pub struct IndicatorProfileReport {
    pub get_calls: u64,
    pub cache_hits: u64,
    pub cache_misses: u64,
    pub get_time_ms: u128,
}


/// What a strategy trades in: listed symbols or an index's constituents.
#[derive(Debug, Clone)]
pub enum TradeIn {
    Symbols(Vec<String>),
    Index(String),
}

/// The message when live start finds a session already running.
pub open spec fn session_active_error() -> Seq<char> {
    "a live session is already active; stop it before starting another"@
}

/// The message when a strategy was deployed for paper trading.
pub open spec fn not_live_error() -> Seq<char> {
    "strategy was not deployed in Live mode; redeploy with mode 'live' to enable live trading"@
}

/// The symbol a live session would trade, or why the strategy cannot go
/// live: exactly one listed symbol is supported.
pub open spec fn live_symbol_spec(t: Option<TradeIn>) -> Result<Seq<char>, Seq<char>> {
    match t {
        Some(TradeIn::Symbols(v)) => if v@.len() == 1 {
            Ok(v@[0]@)
        } else {
            Err("live mode in Phase 7 supports exactly one TRADE_IN symbol; multi-symbol strategies are not yet supported for live trading"@)
        },
        Some(TradeIn::Index(_)) => Err(
            "live mode in Phase 7 does not yet support TRADE_IN NIFTY_* indexes; use an explicit single TRADE_IN SYMBOLS clause"@,
        ),
        None => Err(
            "strategy has no TRADE_IN clause; add `TRADE_IN RELIANCE` (or another single symbol) before starting a live session"@,
        ),
    }
}

/// Checks that a live start may proceed for a strategy deployed in `mode`
/// (`None`: no such strategy) while `session_active` says whether a
/// session already runs.
pub fn live_start_allowed(session_active: bool, strategy_id: &str, mode: Option<StrategyMode>) -> (r: Result<(), String>)
    ensures
        session_active ==> (r matches Err(e) && e@ == session_active_error()),
        !session_active && mode is None ==> (r matches Err(e) && e@ == "strategy not found: "@ + strategy_id@),
        !session_active && mode == Some(StrategyMode::Paper) ==> (r matches Err(e) && e@ == not_live_error()),
        !session_active && mode == Some(StrategyMode::Live) ==> r is Ok,
{
    if session_active {
        return Err(String::from_str("a live session is already active; stop it before starting another"));
    }
    match mode {
        None => Err(String::from_str("strategy not found: ").concat(strategy_id)),
        Some(StrategyMode::Paper) => Err(
            String::from_str(
                "strategy was not deployed in Live mode; redeploy with mode 'live' to enable live trading",
            ),
        ),
        Some(StrategyMode::Live) => Ok(()),
    }
}

/// The single symbol a strategy trades live.
pub fn live_symbol(trade_in: &Option<TradeIn>) -> (r: Result<String, String>)
    ensures
        r matches Ok(s) ==> live_symbol_spec(*trade_in) == Ok::<Seq<char>, Seq<char>>(s@),
        r matches Err(e) ==> live_symbol_spec(*trade_in) == Err::<Seq<char>, Seq<char>>(e@),
{
    match trade_in {
        Some(TradeIn::Symbols(v)) => {
            if v.len() == 1 {
                Ok(v[0].clone())
            } else {
                Err(
                    String::from_str(
                        "live mode in Phase 7 supports exactly one TRADE_IN symbol; multi-symbol strategies are not yet supported for live trading",
                    ),
                )
            }
        },
        Some(TradeIn::Index(_)) => Err(
            String::from_str(
                "live mode in Phase 7 does not yet support TRADE_IN NIFTY_* indexes; use an explicit single TRADE_IN SYMBOLS clause",
            ),
        ),
        None => Err(
            String::from_str(
                "strategy has no TRADE_IN clause; add `TRADE_IN RELIANCE` (or another single symbol) before starting a live session",
            ),
        ),
    }
}

/// The message when confirmation finds a session already running.
pub open spec fn confirm_active_error() -> Seq<char> {
    "a live session is already active"@
}

/// The first step of confirming a live start: the pending-token slot
/// afterwards and the outcome. While a session runs nothing changes; a
/// token that is not accepted leaves the slot as it was; an accepted token
/// is consumed.
pub open spec fn confirm_outcome(
    session_active: bool,
    pending: Option<PendingLiveToken>,
    strategy_id: Seq<char>,
    token: Seq<char>,
    now: u64,
) -> (Option<PendingLiveToken>, Result<(), Seq<char>>) {
    if session_active {
        (pending, Err(confirm_active_error()))
    } else if !token_accepted(pending, strategy_id, token, now) {
        (pending, Err(token_error()))
    } else {
        (None, Ok(()))
    }
}

/// An outcome with its error as text.
pub open spec fn outcome_text(r: Result<(), String>) -> Result<(), Seq<char>> {
    match r {
        Ok(_) => Ok(()),
        Err(e) => Err(e@),
    }
}

/// Confirms a live start up to the session build: refuses while a session
/// is active, then validates and consumes the pending token.
pub fn confirm_step(
    session_active: bool,
    pending: Option<PendingLiveToken>,
    strategy_id: &str,
    token: &str,
    now: u64,
) -> (r: (Option<PendingLiveToken>, Result<(), String>))
    ensures
        r.0 == confirm_outcome(session_active, pending, strategy_id@, token@, now).0,
        outcome_text(r.1) == confirm_outcome(session_active, pending, strategy_id@, token@, now).1,
{
    if session_active {
        return (pending, Err(String::from_str("a live session is already active")));
    }
    match LiveGuard::validate_token(&pending, strategy_id, token, now) {
        Ok(()) => (None, Ok(())),
        Err(e) => (pending, Err(e)),
    }
}

/// A confirmation token works once: after a confirmation succeeds, every
/// later confirmation, for any strategy, token and time, is refused as an
/// invalid token.
pub proof fn lemma_confirm_single_use(
    pending: Option<PendingLiveToken>,
    strategy_id: Seq<char>,
    token: Seq<char>,
    now: u64,
    later_id: Seq<char>,
    later_token: Seq<char>,
    later: u64,
)
    requires
        confirm_outcome(false, pending, strategy_id, token, now).1 is Ok,
    ensures
        confirm_outcome(false, confirm_outcome(false, pending, strategy_id, token, now).0, later_id, later_token, later)
            == (None::<PendingLiveToken>, Err::<(), Seq<char>>(token_error())),
{
}

/// The message when confirmation finds the strategy has not exactly one
/// listed symbol.
pub open spec fn confirm_symbol_error() -> Seq<char> {
    "live mode in Phase 7 supports exactly one TRADE_IN symbol"@
}

/// Confirmation's check of the deployed strategy: it must exist (`mode` is
/// its deployment mode) and be deployed for live trading.
pub fn confirm_mode_check(strategy_id: &str, mode: Option<StrategyMode>) -> (r: Result<(), String>)
    ensures
        mode is None ==> (r matches Err(e) && e@ == "strategy not found: "@ + strategy_id@),
        mode == Some(StrategyMode::Paper) ==> (r matches Err(e) && e@ == not_live_error()),
        mode == Some(StrategyMode::Live) ==> r is Ok,
{
    match mode {
        None => Err(String::from_str("strategy not found: ").concat(strategy_id)),
        Some(StrategyMode::Paper) => Err(
            String::from_str(
                "strategy was not deployed in Live mode; redeploy with mode 'live' to enable live trading",
            ),
        ),
        Some(StrategyMode::Live) => Ok(()),
    }
}

/// The symbol confirmation starts the session on: the single listed
/// symbol, or the one message confirmation gives for every other case.
pub fn confirm_symbol(trade_in: &Option<TradeIn>) -> (r: Result<String, String>)
    ensures
        match *trade_in {
            Some(TradeIn::Symbols(v)) => if v@.len() == 1 {
                r is Ok && r->Ok_0@ == v@[0]@
            } else {
                r is Err && r->Err_0@ == confirm_symbol_error()
            },
            _ => r is Err && r->Err_0@ == confirm_symbol_error(),
        },
{
    match trade_in {
        Some(TradeIn::Symbols(v)) => {
            if v.len() == 1 {
                return Ok(v[0].clone());
            }
        },
        _ => {},
    }
    Err(String::from_str("live mode in Phase 7 supports exactly one TRADE_IN symbol"))
}

/// What `request_live_start` answers and keeps, from the preflight result:
/// the token to store and the reply (token text, whether acknowledgment is
/// still needed, the symbol).
pub fn live_start_reply(result: LiveGuardResult, symbol: String) -> (r: (PendingLiveToken, RequestLiveStartResult))
    ensures
        r.1.token@ == r.0.token@,
        r.1.symbol@ == symbol@,
        match result {
            LiveGuardResult::Cleared { token } => !r.1.requires_ack && r.0 == token,
            LiveGuardResult::RequiresAcknowledgment { token } => r.1.requires_ack && r.0 == token,
        },
{
    let (token, requires_ack) = match result {
        LiveGuardResult::Cleared { token } => (token, false),
        LiveGuardResult::RequiresAcknowledgment { token } => (token, true),
    };
    let text = token.token.clone();
    (token, RequestLiveStartResult { token: text, requires_ack, symbol })
}

/// The number of non-zero position quantities.
pub open spec fn open_count(q: Seq<i64>) -> nat
    decreases q.len(),
{
    if q.len() == 0 {
        0
    } else {
        open_count(q.drop_last()) + if q.last() != 0 {
            1nat
        } else {
            0nat
        }
    }
}

/// How many positions are open (non-zero quantity).
pub fn open_positions(quantities: &Vec<i64>) -> (r: usize)
    ensures
        r == open_count(quantities@),
{
    let mut n: usize = 0;
    let mut i: usize = 0;
    assert(quantities@.take(0) =~= Seq::<i64>::empty());
    while i < quantities.len()
        invariant
            i <= quantities@.len(),
            n == open_count(quantities@.take(i as int)),
            n <= i,
        decreases quantities.len() - i,
    {
        assert(quantities@.take(i + 1).drop_last() =~= quantities@.take(i as int));
        if quantities[i] != 0 {
            n = n + 1;
        }
        i = i + 1;
    }
    assert(quantities@.take(quantities.len() as int) =~= quantities@);
    n
}

/// The warning a stop reports when positions remain open.
pub open spec fn stop_warning_text(n: nat) -> Seq<char> {
    "WARNING: "@ + dec_digits(n)
        + " open position(s) remain — close them manually in your broker app. Pending limit orders are not auto-cancelled; please verify in your broker app."@
}

/// What stopping the live session reports, given how many positions were
/// open when it stopped.
pub fn stop_result(open: usize) -> (r: StopResult)
    ensures
        r.stopped,
        open == 0 ==> r.open_positions_warning is None,
        open > 0 ==> (r.open_positions_warning matches Some(w) && w@ == stop_warning_text(open as nat)),
{
    if open > 0 {
        let mut m = String::from_str("WARNING: ");
        m.append(decimal(open as u64).as_str());
        m.append(
            " open position(s) remain — close them manually in your broker app. Pending limit orders are not auto-cancelled; please verify in your broker app.",
        );
        StopResult { stopped: true, open_positions_warning: Some(m) }
    } else {
        StopResult { stopped: true, open_positions_warning: None }
    }
}

/// The status name and failure reason the live-status reply carries.
pub fn status_text(status: &SessionStatus) -> (r: (String, Option<String>))
    ensures
        match *status {
            SessionStatus::Starting => r.0@ == "Starting"@ && r.1 is None,
            SessionStatus::Running => r.0@ == "Running"@ && r.1 is None,
            SessionStatus::Paused => r.0@ == "Paused"@ && r.1 is None,
            SessionStatus::Stopped => r.0@ == "Stopped"@ && r.1 is None,
            SessionStatus::Failed(m) => r.0@ == "Failed"@ && (r.1 matches Some(x) && x@ == m@),
        },
{
    match status {
        SessionStatus::Starting => (String::from_str("Starting"), None),
        SessionStatus::Running => (String::from_str("Running"), None),
        SessionStatus::Paused => (String::from_str("Paused"), None),
        SessionStatus::Stopped => (String::from_str("Stopped"), None),
        SessionStatus::Failed(m) => (String::from_str("Failed"), Some(m.clone())),
    }
}

/// A deployed strategy's id: `strat-<millis>-<counter, at least 4 digits>`.
pub fn strategy_id(millis: u64, n: u64) -> (r: String)
    ensures
        r@ == "strat-"@ + dec_digits(millis as nat) + "-"@ + zero_pad(dec_digits(n as nat), 4),
{
    let mut s = String::from_str("strat-");
    s.append(decimal(millis).as_str());
    s.append("-");
    s.append(padded(n, 4).as_str());
    s
}

/// The message when a strategy id is unknown.
pub fn strategy_not_found(id: &str) -> (r: String)
    ensures
        r@ == "strategy '"@ + id@ + "' not found"@,
{
    let mut s = String::from_str("strategy '");
    s.append(id);
    s.append("' not found");
    s
}

} // verus!
