//! Live-session bookkeeping: the session status and the decisions the
//! tick loop takes on each event.

use vstd::prelude::*;
use vstd::string::StringExecFns;
use crate::live::guard::{candle_close_ist, is_market_open, ist_of_millis, market_open, IstDateTime};
use crate::live::holidays::NseHolidayCalendar;
use crate::text::str_eq;

verus! {

broadcast use vstd::string::group_string_axioms;

/// How many completed candles a session keeps; older ones are dropped from
/// the front.
pub const MAX_CANDLE_HISTORY: usize = 5000;

/// What a session reports when it fails.
#[derive(Debug, Clone)]
pub struct LiveSessionFailedPayload {
    pub strategy_id: String,
    pub reason: String,
    pub open_positions_estimate: Option<i64>,
}

/// Receives "session failed" alerts (the desktop shell shows them).
pub trait SessionEventEmitter {
    fn emit_failed(&self, payload: LiveSessionFailedPayload);
}

/// An emitter that drops every alert.
pub struct NoopEmitter;

impl SessionEventEmitter for NoopEmitter {
    fn emit_failed(&self, payload: LiveSessionFailedPayload) {
    }
}

/// Where a live session is.
#[derive(Debug, Clone)]
pub enum SessionStatus {
    Starting,
    Running,
    Paused,
    Stopped,
    Failed(String),
}

/// What the tick loop does with one tick.
#[derive(Debug, Clone, Copy, PartialEq, Eq, Structural)]
pub enum TickAction {
    /// The tick is for another symbol: ignore it.
    Ignore,
    /// Feed the tick to the candle assembler; `pause_entries` says whether
    /// new entries are suspended first because loss tracking went stale.
    Assemble { pause_entries: bool },
}

/// The reason recorded when the tick feed closes under a running session.
pub open spec fn feed_closed_reason() -> Seq<char> {
    "feed closed unexpectedly"@
}

/// The status a session ends in when its loop exits: a failure stands,
/// anything else becomes `Stopped`.
pub open spec fn final_status(s: SessionStatus) -> SessionStatus {
    match s {
        SessionStatus::Failed(_) => s,
        _ => SessionStatus::Stopped,
    }
}

/// The tail of `s` of at most `max` items.
pub open spec fn keep_last<T>(s: Seq<T>, max: nat) -> Seq<T> {
    if s.len() > max {
        s.skip(s.len() - max)
    } else {
        s
    }
}

/// The status after the tick feed closes, and the alert to send.
pub fn feed_closed(strategy_id: &str) -> (r: (SessionStatus, LiveSessionFailedPayload))
    ensures
        r.0 matches SessionStatus::Failed(m) && m@ == feed_closed_reason(),
        r.1.strategy_id@ == strategy_id@,
        r.1.reason@ == feed_closed_reason(),
        r.1.open_positions_estimate is None,
{
    let reason = String::from_str("feed closed unexpectedly");
    (
        SessionStatus::Failed(reason.clone()),
        LiveSessionFailedPayload {
            strategy_id: String::from_str(strategy_id),
            reason,
            open_positions_estimate: None,
        },
    )
}

/// The status a session ends in when its loop exits.
pub fn finish(status: SessionStatus) -> (r: SessionStatus)
    ensures
        r == final_status(status),
{
    match status {
        SessionStatus::Failed(m) => SessionStatus::Failed(m),
        _ => SessionStatus::Stopped,
    }
}

/// What to do with a tick for `tick_symbol` in a session trading
/// `session_symbol`: ignore other symbols; otherwise assemble it, first
/// pausing new entries (and the session) when loss tracking is stale and
/// the session is running.
pub fn on_tick(status: &SessionStatus, tick_symbol: &str, session_symbol: &str, broker_stale: bool)
    -> (r: (TickAction, bool))
    ensures
        tick_symbol@ != session_symbol@ ==> r == (TickAction::Ignore, false),
        tick_symbol@ == session_symbol@ ==> r == (
            TickAction::Assemble { pause_entries: broker_stale && status is Running },
            broker_stale && status is Running,
        ),
{
    if !str_eq(tick_symbol, session_symbol) {
        return (TickAction::Ignore, false);
    }
    let pause = broker_stale && match status {
        SessionStatus::Running => true,
        _ => false,
    };
    (TickAction::Assemble { pause_entries: pause }, pause)
}

/// Whether a completed candle may be traded: its close, in IST, must fall
/// in market hours; a close chrono cannot represent is not gated.
pub fn candle_tradeable(close: Option<IstDateTime>, holidays: &NseHolidayCalendar) -> (r: bool)
    ensures
        r == match close {
            Some(dt) => market_open(dt, holidays.days()),
            None => true,
        },
{
    match close {
        Some(dt) => is_market_open(dt, holidays),
        None => true,
    }
}

/// The per-candle market-hours gate on a candle's millisecond timestamp.
pub fn candle_gate(ts: i64, holidays: &NseHolidayCalendar) -> (r: bool)
    ensures
        -8_000_000_000_000_000 <= ts <= 8_000_000_000_000_000 ==> r == market_open(
            ist_of_millis(ts),
            holidays.days(),
        ),
{
    candle_tradeable(candle_close_ist(ts), holidays)
}

/// Appends a completed candle to the history, then drops the oldest
/// entries beyond `MAX_CANDLE_HISTORY`.
pub fn push_capped<T>(history: &mut Vec<T>, item: T)
    ensures
        final(history)@ == keep_last(old(history)@.push(item), MAX_CANDLE_HISTORY as nat),
{
    history.push(item);
    if history.len() > MAX_CANDLE_HISTORY {
        let excess = history.len() - MAX_CANDLE_HISTORY;
        let tail = history.split_off(excess);
        *history = tail;
    }
}

/// Drops the oldest entries of a history beyond `MAX_CANDLE_HISTORY`.
pub fn cap_history<T>(history: &mut Vec<T>)
    ensures
        final(history)@ == keep_last(old(history)@, MAX_CANDLE_HISTORY as nat),
{
    if history.len() > MAX_CANDLE_HISTORY {
        let excess = history.len() - MAX_CANDLE_HISTORY;
        let tail = history.split_off(excess);
        *history = tail;
    }
}


/// After a push the history holds at most `MAX_CANDLE_HISTORY` items, ends
/// with the pushed item, and keeps the items before it in order.
pub proof fn lemma_push_capped<T>(h: Seq<T>, item: T)
    ensures
        keep_last(h.push(item), MAX_CANDLE_HISTORY as nat).len() <= MAX_CANDLE_HISTORY,
        keep_last(h.push(item), MAX_CANDLE_HISTORY as nat).last() == item,
        h.len() < MAX_CANDLE_HISTORY ==> keep_last(h.push(item), MAX_CANDLE_HISTORY as nat) == h.push(item),
        h.len() >= MAX_CANDLE_HISTORY ==> keep_last(h.push(item), MAX_CANDLE_HISTORY as nat) == h.skip(
            h.len() + 1 - MAX_CANDLE_HISTORY,
        ).push(item),
{
    let s = h.push(item);
    if s.len() > MAX_CANDLE_HISTORY {
        assert(s.skip(s.len() - MAX_CANDLE_HISTORY) =~= h.skip(h.len() + 1 - MAX_CANDLE_HISTORY).push(item));
    }
}

} // verus!
