//! Market hours, live-start confirmation tokens and the preflight gates a
//! live session must pass.

use vstd::prelude::*;
use vstd::string::StringExecFns;
use chrono::{Datelike, Timelike};
use crate::broker::{symbol_key, Segment, SymbolEntry, SymbolMap};
use crate::live::holidays::{CalendarDate, NseHolidayCalendar};
use crate::text::str_eq;

verus! {

broadcast use vstd::string::group_string_axioms;

/// IST is UTC+05:30, with no daylight saving.
pub const IST_OFFSET_SECONDS: i32 = 19800;

/// How long a confirmation token stays valid.
pub const TOKEN_TTL_SECONDS: u64 = 90;

/// Day of the week.
#[derive(Debug, Clone, Copy, PartialEq, Eq, Hash, Structural)]
pub enum Weekday {
    Mon,
    Tue,
    Wed,
    Thu,
    Fri,
    Sat,
    Sun,
}

/// The weekday `i` days after a Monday (`0 <= i < 7`).
pub open spec fn weekday_at(i: int) -> Weekday {
    if i == 0 {
        Weekday::Mon
    } else if i == 1 {
        Weekday::Tue
    } else if i == 2 {
        Weekday::Wed
    } else if i == 3 {
        Weekday::Thu
    } else if i == 4 {
        Weekday::Fri
    } else if i == 5 {
        Weekday::Sat
    } else {
        Weekday::Sun
    }
}

/// An IST wall-clock instant, broken into its calendar and clock fields.
#[derive(Debug, Clone, Copy, PartialEq, Eq, Structural)]
pub struct IstDateTime {
    pub date: CalendarDate,
    pub weekday: Weekday,
    pub hour: u32,
    pub minute: u32,
    pub second: u32,
    pub nanosecond: u32,
}

/// Lexicographic `>=` on (hour, minute, second, nanosecond).
pub open spec fn clock_ge(h: int, m: int, s: int, n: int, h2: int, m2: int, s2: int, n2: int) -> bool {
    h > h2 || (h == h2 && (m > m2 || (m == m2 && (s > s2 || (s == s2 && n >= n2)))))
}

/// NSE equity market hours: Monday to Friday, not a listed holiday, from
/// 09:15:00.0 through 15:30:00.0 inclusive.
pub open spec fn market_open(dt: IstDateTime, holidays: Seq<CalendarDate>) -> bool {
    &&& !(dt.weekday is Sat || dt.weekday is Sun)
    &&& !holidays.contains(dt.date)
    &&& clock_ge(dt.hour as int, dt.minute as int, dt.second as int, dt.nanosecond as int, 9, 15, 0, 0)
    &&& clock_ge(15, 30, 0, 0, dt.hour as int, dt.minute as int, dt.second as int, dt.nanosecond as int)
}

/// On a weekday (Monday to Friday) that is not a listed holiday, every
/// instant from 09:15:00.0 through 15:30:00.0 inclusive is open.
pub proof fn lemma_market_open_in_session(dt: IstDateTime, holidays: Seq<CalendarDate>)
    requires
        dt.weekday is Mon || dt.weekday is Tue || dt.weekday is Wed || dt.weekday is Thu
            || dt.weekday is Fri,
        !holidays.contains(dt.date),
        (dt.hour == 9 && dt.minute >= 15) || (10 <= dt.hour && dt.hour <= 14) || (dt.hour == 15 && (
        dt.minute < 30 || (dt.minute == 30 && dt.second == 0 && dt.nanosecond == 0))),
    ensures
        market_open(dt, holidays),
{
}

/// True if the IST instant falls inside NSE equity market hours.
pub fn is_market_open(dt: IstDateTime, holidays: &NseHolidayCalendar) -> (r: bool)
    ensures
        r == market_open(dt, holidays.days()),
{
    match dt.weekday {
        Weekday::Sat | Weekday::Sun => {
            return false;
        },
        _ => {},
    }
    if holidays.is_holiday(dt.date) {
        return false;
    }
    let (h, m, s, n) = (dt.hour, dt.minute, dt.second, dt.nanosecond);
    let after_open = h > 9 || (h == 9 && (m > 15 || (m == 15 && (s > 0 || (s == 0 && n >= 0)))));
    let before_close = 15 > h || (15 == h && (30 > m || (30 == m && (0 > s || (0 == s && 0 >= n)))));
    after_open && before_close
}

/// The local second count of a millisecond UNIX time at a UTC offset.
pub open spec fn local_seconds(ts: int, offset: int) -> int {
    ts / 1000 + offset
}

/// The local second of the day.
pub open spec fn second_of_day(ts: int, offset: int) -> int {
    local_seconds(ts, offset) % 86400
}

/// The local day number, counted from 1970-01-01.
pub open spec fn local_day(ts: int, offset: int) -> int {
    local_seconds(ts, offset) / 86400
}

/// The proleptic Gregorian date (year, month, day) of a day number counted
/// from 1970-01-01, by the usual era arithmetic (400-year eras of 146097
/// days, years starting in March inside an era).
pub open spec fn civil_from_days(days: int) -> (int, int, int) {
    let z = days + 719468;
    let era = z / 146097;
    let doe = z - era * 146097;
    let yoe = (doe - doe / 1460 + doe / 36524 - doe / 146096) / 365;
    let doy = doe - (365 * yoe + yoe / 4 - yoe / 100);
    let mp = (5 * doy + 2) / 153;
    let d = doy - (153 * mp + 2) / 5 + 1;
    let m = if mp < 10 {
        mp + 3
    } else {
        mp - 9
    };
    let y = yoe + era * 400 + (if m <= 2 {
        1int
    } else {
        0int
    });
    (y, m, d)
}

/// The calendar date chrono gives for a millisecond UNIX time at a UTC
/// offset: the proleptic Gregorian date of the local day.
pub open spec fn chrono_local_date(ts: i64, offset: i32) -> (i32, u32, u32) {
    let c = civil_from_days(local_day(ts as int, offset as int));
    (c.0 as i32, c.1 as u32, c.2 as u32)
}

/// `chrono::FixedOffset::east_opt(offset)`, then
/// `DateTime::<Utc>::from_timestamp_millis(ts)` shown at that offset:
/// year, month, day, weekday (from Monday), hour, minute, second and
/// nanosecond. chrono returns `None` for an offset of a day or more and for
/// a time outside its range of about 262,000 years either side of year 0;
/// the contract promises `Some` within 8e15 ms of the epoch. The clock
/// fields and the weekday are stated (Euclidean division, 1970-01-01 a
/// Thursday), and so is the calendar date (`chrono_local_date`).
#[verifier::external_body]
pub(crate) fn chrono_local_fields(ts: i64, offset: i32) -> (r: Option<(i32, u32, u32, u32, u32, u32, u32, u32)>)
    ensures
        -8_000_000_000_000_000 <= ts <= 8_000_000_000_000_000 && -86400 < offset < 86400
            ==> r is Some,
        r matches Some(f) ==> {
            &&& (f.0, f.1, f.2) == chrono_local_date(ts, offset)
            &&& f.3 == (local_day(ts as int, offset as int) + 3) % 7
            &&& f.4 == second_of_day(ts as int, offset as int) / 3600
            &&& f.5 == second_of_day(ts as int, offset as int) % 3600 / 60
            &&& f.6 == second_of_day(ts as int, offset as int) % 60
            &&& f.7 == (ts as int % 1000) * 1_000_000
        },
{
    let off = chrono::FixedOffset::east_opt(offset)?;
    let dt = chrono::DateTime::<chrono::Utc>::from_timestamp_millis(ts)?.with_timezone(&off);
    let wd = dt.weekday().num_days_from_monday();
    Some((dt.year(), dt.month(), dt.day(), wd, dt.hour(), dt.minute(), dt.second(), dt.nanosecond()))
}

/// The IST instant of a millisecond UNIX time, field by field.
pub open spec fn ist_of_millis(ts: i64) -> IstDateTime {
    let d = chrono_local_date(ts, IST_OFFSET_SECONDS);
    let sod = second_of_day(ts as int, IST_OFFSET_SECONDS as int);
    IstDateTime {
        date: CalendarDate { year: d.0, month: d.1, day: d.2 },
        weekday: weekday_at((local_day(ts as int, IST_OFFSET_SECONDS as int) + 3) % 7),
        hour: (sod / 3600) as u32,
        minute: (sod % 3600 / 60) as u32,
        second: (sod % 60) as u32,
        nanosecond: ((ts as int % 1000) * 1_000_000) as u32,
    }
}

/// Converts a candle's millisecond UTC timestamp to IST wall-clock fields;
/// `None` where chrono cannot represent the instant.
pub fn candle_close_ist(ts: i64) -> (r: Option<IstDateTime>)
    ensures
        -8_000_000_000_000_000 <= ts <= 8_000_000_000_000_000 ==> r is Some,
        r matches Some(dt) ==> dt == ist_of_millis(ts),
{
    match chrono_local_fields(ts, IST_OFFSET_SECONDS) {
        Some((year, month, day, wd, hour, minute, second, nanosecond)) => {
            let weekday = if wd == 0 {
                Weekday::Mon
            } else if wd == 1 {
                Weekday::Tue
            } else if wd == 2 {
                Weekday::Wed
            } else if wd == 3 {
                Weekday::Thu
            } else if wd == 4 {
                Weekday::Fri
            } else if wd == 5 {
                Weekday::Sat
            } else {
                Weekday::Sun
            };
            Some(
                IstDateTime {
                    date: CalendarDate { year, month, day },
                    weekday,
                    hour,
                    minute,
                    second,
                    nanosecond,
                },
            )
        },
        None => None,
    }
}

/// A lower-case hexadecimal digit.
pub open spec fn is_lower_hex(c: char) -> bool {
    ('0' <= c && c <= '9') || ('a' <= c && c <= 'f')
}

/// The hyphenated lower-case text of a version-4 (random) UUID:
/// `xxxxxxxx-xxxx-4xxx-Vxxx-xxxxxxxxxxxx` with `V` one of `8`, `9`, `a`, `b`.
pub open spec fn uuid_v4_text(s: Seq<char>) -> bool {
    &&& s.len() == 36
    &&& forall|i: int|
        0 <= i < 36 ==> if i == 8 || i == 13 || i == 18 || i == 23 {
            #[trigger] s[i] == '-'
        } else {
            is_lower_hex(s[i])
        }
    &&& s[14] == '4'
    &&& (s[19] == '8' || s[19] == '9' || s[19] == 'a' || s[19] == 'b')
}

/// A fresh random confirmation token, `uuid::Uuid::new_v4().to_string()`:
/// the uuid crate fixes the version and variant bits and formats the value
/// as hyphenated lower-case hex. Which random value it is, is not stated.
#[verifier::external_body]
pub(crate) fn fresh_token_text() -> (r: String)
    ensures
        uuid_v4_text(r@),
{
    uuid::Uuid::new_v4().to_string()
}

/// A single-use live-start confirmation token bound to one strategy.
/// `expires_at` is a reading, in milliseconds, of the caller's monotonic
/// clock.
#[derive(Debug, Clone)]
pub struct PendingLiveToken {
    pub token: String,
    pub strategy_id: String,
    pub expires_at: u64,
}

/// What the preflight decided: cleared to start, or cleared once the user
/// acknowledges the live-trading warning. Both carry a fresh token.
#[derive(Debug, Clone)]
pub enum LiveGuardResult {
    Cleared { token: PendingLiveToken },
    RequiresAcknowledgment { token: PendingLiveToken },
}

/// Which risk controls a strategy declares.
#[derive(Debug, Clone, Copy, PartialEq, Eq, Structural)]
pub struct RiskControls {
    pub max_orders: bool,
    pub max_open_positions: bool,
    pub max_daily_loss: bool,
}

/// The `Debug` name of a segment.
pub open spec fn segment_name(s: Segment) -> Seq<char> {
    match s {
        Segment::NseEq => "NseEq"@,
        Segment::NseFno => "NseFno"@,
        Segment::NseCurrency => "NseCurrency"@,
        Segment::Bse => "Bse"@,
        Segment::Mcx => "Mcx"@,
        Segment::Index => "Index"@,
    }
}

pub(crate) fn segment_name_of(s: Segment) -> (r: &'static str)
    ensures
        r@ == segment_name(s),
{
    match s {
        Segment::NseEq => "NseEq",
        Segment::NseFno => "NseFno",
        Segment::NseCurrency => "NseCurrency",
        Segment::Bse => "Bse",
        Segment::Mcx => "Mcx",
        Segment::Index => "Index",
    }
}

/// The message of a failed token check.
pub open spec fn token_error() -> Seq<char> {
    "invalid or expired confirmation token"@
}

/// The risk-control gate's message.
pub open spec fn risk_error() -> Seq<char> {
    "live strategies must declare at least one RISK control (MAX_ORDERS, MAX_POSITIONS, or MAX_DAILY_LOSS)"@
}

/// The entry a symbol map gives a symbol.
pub open spec fn map_lookup(m: Map<Seq<char>, SymbolEntry>, symbol: Seq<char>) -> Option<SymbolEntry> {
    if m.contains_key(symbol_key(symbol)) {
        Some(m[symbol_key(symbol)])
    } else {
        None
    }
}

/// The first preflight gate that fails, with its message: broker
/// reachable, symbol known, NSE equity, market open, some risk control,
/// a daily-loss limit, fresh loss tracking.
pub open spec fn preflight_failure(
    broker_error: Option<Seq<char>>,
    symbol: Seq<char>,
    entry: Option<SymbolEntry>,
    open: bool,
    risk: Option<RiskControls>,
    stale: bool,
) -> Option<Seq<char>> {
    if broker_error is Some {
        Some("broker unreachable; cannot confirm live session is safe: "@ + broker_error->Some_0)
    } else if entry is None {
        Some("symbol '"@ + symbol + "' not found in symbol map"@)
    } else if entry->Some_0.segment != Segment::NseEq {
        Some(
            "Phase 7 only supports NSE equity intraday trading; symbol "@ + symbol + " is "@
                + segment_name(entry->Some_0.segment),
        )
    } else if !open {
        Some("market is closed; live trading is only allowed 09:15–15:30 IST on NSE trading days"@)
    } else if risk is None || (!risk->Some_0.max_orders && !risk->Some_0.max_open_positions
        && !risk->Some_0.max_daily_loss) {
        Some(risk_error())
    } else if !risk->Some_0.max_daily_loss {
        Some("live strategies must declare RISK MAX_DAILY_LOSS"@)
    } else if stale {
        Some("broker realized-loss tracking is stale; check broker connectivity and retry"@)
    } else {
        None
    }
}

/// The outcome of the broker reachability check, as an optional error.
pub open spec fn error_of(r: Result<(), String>) -> Option<Seq<char>> {
    match r {
        Ok(_) => None,
        Err(e) => Some(e@),
    }
}

/// A token that was issued for `strategy_id` at `now`.
pub open spec fn fresh_token(t: PendingLiveToken, strategy_id: Seq<char>, now: u64) -> bool {
    &&& t.strategy_id@ == strategy_id
    &&& t.expires_at == now + TOKEN_TTL_SECONDS * 1000
    &&& uuid_v4_text(t.token@)
}

/// The safety gates in front of a live session, with the NSE holiday
/// calendar they consult.
#[derive(Debug, Clone)]
pub struct LiveGuard {
    pub holiday_calendar: NseHolidayCalendar,
}

impl LiveGuard {
    /// A guard consulting `holiday_calendar`.
    pub fn new(holiday_calendar: NseHolidayCalendar) -> (r: LiveGuard)
        ensures
            r.holiday_calendar.days() == holiday_calendar.days(),
    {
        LiveGuard { holiday_calendar }
    }

    /// A fresh token for `strategy_id`, valid until `now` (milliseconds on
    /// the caller's monotonic clock) plus the TTL.
    pub fn issue_token(strategy_id: &str, now: u64) -> (r: PendingLiveToken)
        requires
            now + TOKEN_TTL_SECONDS * 1000 <= u64::MAX,
        ensures
            fresh_token(r, strategy_id@, now),
    {
        PendingLiveToken {
            token: fresh_token_text(),
            strategy_id: String::from_str(strategy_id),
            expires_at: now + TOKEN_TTL_SECONDS * 1000,
        }
    }

    /// Accepts the pending token only when it exists, is bound to
    /// `strategy_id`, equals `token` and has not expired at `now`; every
    /// refusal gives the same message.
    pub fn validate_token(pending: &Option<PendingLiveToken>, strategy_id: &str, token: &str, now: u64)
        -> (r: Result<(), String>)
        ensures
            r is Ok <==> token_accepted(*pending, strategy_id@, token@, now),
            r matches Err(e) ==> e@ == token_error(),
    {
        match pending {
            None => Err(String::from_str("invalid or expired confirmation token")),
            Some(p) => {
                if !str_eq(p.strategy_id.as_str(), strategy_id) {
                    return Err(String::from_str("invalid or expired confirmation token"));
                }
                if !str_eq(p.token.as_str(), token) {
                    return Err(String::from_str("invalid or expired confirmation token"));
                }
                if now >= p.expires_at {
                    return Err(String::from_str("invalid or expired confirmation token"));
                }
                Ok(())
            },
        }
    }

    /// Runs the live-start gates in order on what the caller observed (the
    /// broker positions call, the IST time now, the strategy's risk
    /// controls, the loss-tracking freshness, the acknowledgment file) and
    /// the symbol map. The first failing gate gives the error and no token;
    /// otherwise a fresh token, wrapped by whether the user has already
    /// acknowledged live trading.
    pub fn run_preflight(
        &self,
        symbol: &str,
        strategy_id: &str,
        risk: Option<RiskControls>,
        broker_check: Result<(), String>,
        symbol_map: &SymbolMap,
        now_ist: IstDateTime,
        broker_stale: bool,
        acknowledged: bool,
        now: u64,
    ) -> (r: Result<LiveGuardResult, String>)
        requires
            now + TOKEN_TTL_SECONDS * 1000 <= u64::MAX,
        ensures
            r is Err <==> preflight_failure(
                error_of(broker_check),
                symbol@,
                map_lookup(symbol_map@, symbol@),
                market_open(now_ist, self.holiday_calendar.days()),
                risk,
                broker_stale,
            ) is Some,
            r matches Err(e) ==> e@ == preflight_failure(
                error_of(broker_check),
                symbol@,
                map_lookup(symbol_map@, symbol@),
                market_open(now_ist, self.holiday_calendar.days()),
                risk,
                broker_stale,
            )->Some_0,
            r matches Ok(g) ==> match g {
                LiveGuardResult::Cleared { token } => acknowledged && fresh_token(token, strategy_id@, now),
                LiveGuardResult::RequiresAcknowledgment { token } => !acknowledged && fresh_token(
                    token,
                    strategy_id@,
                    now,
                ),
            },
    {
        if let Err(e) = &broker_check {
            let mut m = String::from_str("broker unreachable; cannot confirm live session is safe: ");
            m.append(e.as_str());
            return Err(m);
        }
        let entry = match symbol_map.lookup(symbol) {
            Some(e) => e,
            None => {
                let mut m = String::from_str("symbol '");
                m.append(symbol);
                m.append("' not found in symbol map");
                return Err(m);
            },
        };
        if entry.segment != Segment::NseEq {
            let mut m = String::from_str(
                "Phase 7 only supports NSE equity intraday trading; symbol ",
            );
            m.append(symbol);
            m.append(" is ");
            m.append(segment_name_of(entry.segment));
            return Err(m);
        }
        if !is_market_open(now_ist, &self.holiday_calendar) {
            return Err(
                String::from_str(
                    "market is closed; live trading is only allowed 09:15–15:30 IST on NSE trading days",
                ),
            );
        }
        match risk {
            None => {
                return Err(
                    String::from_str(
                        "live strategies must declare at least one RISK control (MAX_ORDERS, MAX_POSITIONS, or MAX_DAILY_LOSS)",
                    ),
                );
            },
            Some(rc) => {
                if !rc.max_orders && !rc.max_open_positions && !rc.max_daily_loss {
                    return Err(
                        String::from_str(
                            "live strategies must declare at least one RISK control (MAX_ORDERS, MAX_POSITIONS, or MAX_DAILY_LOSS)",
                        ),
                    );
                }
                if !rc.max_daily_loss {
                    return Err(String::from_str("live strategies must declare RISK MAX_DAILY_LOSS"));
                }
            },
        }
        if broker_stale {
            return Err(
                String::from_str(
                    "broker realized-loss tracking is stale; check broker connectivity and retry",
                ),
            );
        }
        let token = Self::issue_token(strategy_id, now);
        if acknowledged {
            Ok(LiveGuardResult::Cleared { token })
        } else {
            Ok(LiveGuardResult::RequiresAcknowledgment { token })
        }
    }
}


/// What `validate_token` accepts.
pub open spec fn token_accepted(pending: Option<PendingLiveToken>, strategy_id: Seq<char>, token: Seq<char>, now: u64) -> bool {
    pending matches Some(p) && p.strategy_id@ == strategy_id && p.token@ == token && now < p.expires_at
}

/// A token issued for a strategy at `issued` is accepted for that strategy
/// and its own text until the TTL has passed, and refused from then on, for
/// another strategy, or for other text.
pub proof fn lemma_token_lifetime(t: PendingLiveToken, strategy_id: Seq<char>, issued: u64, now: u64, other: Seq<char>)
    requires
        fresh_token(t, strategy_id, issued),
    ensures
        issued <= now < issued + TOKEN_TTL_SECONDS * 1000 ==> token_accepted(Some(t), strategy_id, t.token@, now),
        now >= issued + TOKEN_TTL_SECONDS * 1000 ==> !token_accepted(Some(t), strategy_id, t.token@, now),
        other != strategy_id ==> !token_accepted(Some(t), other, t.token@, now),
        other != t.token@ ==> !token_accepted(Some(t), strategy_id, other, now),
        !token_accepted(None, strategy_id, t.token@, now),
{
}

/// The market is never open on a weekend or on a listed holiday, nor
/// before 09:15 or after 15:30.
pub proof fn lemma_market_closed_outside_hours(dt: IstDateTime, holidays: Seq<CalendarDate>)
    ensures
        dt.weekday is Sat || dt.weekday is Sun ==> !market_open(dt, holidays),
        holidays.contains(dt.date) ==> !market_open(dt, holidays),
        dt.hour < 9 || (dt.hour == 9 && dt.minute < 15) ==> !market_open(dt, holidays),
        dt.hour > 15 || (dt.hour == 15 && dt.minute > 30) || (dt.hour == 15 && dt.minute == 30 && (dt.second > 0 || dt.nanosecond > 0)) ==> !market_open(dt, holidays),
{
}

} // verus!
