use algomln_core::broker::{Segment, SymbolMap};
use algomln_core::live::candles::{minute_step, tick_minute, MinuteStep};
use algomln_core::live::guard::{
    candle_close_ist, is_market_open, IstDateTime, LiveGuard, LiveGuardResult, PendingLiveToken,
    RiskControls, Weekday, IST_OFFSET_SECONDS,
};
use algomln_core::live::holidays::{CalendarDate, NseHolidayCalendar};
use algomln_core::live::session::{
    cap_history, candle_gate, feed_closed, finish, on_tick, push_capped, LiveSessionFailedPayload,
    NoopEmitter, SessionEventEmitter, SessionStatus, TickAction, MAX_CANDLE_HISTORY,
};
use chrono::{Datelike, TimeZone};
use std::sync::Mutex;

fn weekday_of(y: i32, m: u32, d: u32) -> Weekday {
    let nd = chrono::NaiveDate::from_ymd_opt(y, m, d).unwrap();
    match nd.weekday().num_days_from_monday() {
        0 => Weekday::Mon,
        1 => Weekday::Tue,
        2 => Weekday::Wed,
        3 => Weekday::Thu,
        4 => Weekday::Fri,
        5 => Weekday::Sat,
        _ => Weekday::Sun,
    }
}

fn ist(y: i32, m: u32, d: u32, h: u32, mi: u32, s: u32) -> IstDateTime {
    IstDateTime {
        date: CalendarDate { year: y, month: m, day: d },
        weekday: weekday_of(y, m, d),
        hour: h,
        minute: mi,
        second: s,
        nanosecond: 0,
    }
}

fn ts_ist(y: i32, m: u32, d: u32, h: u32, mi: u32, s: u32) -> i64 {
    let offset = chrono::FixedOffset::east_opt(IST_OFFSET_SECONDS).unwrap();
    let nd = chrono::NaiveDate::from_ymd_opt(y, m, d).unwrap();
    let nt = chrono::NaiveTime::from_hms_opt(h, mi, s).unwrap();
    offset
        .from_local_datetime(&nd.and_time(nt))
        .single()
        .expect("valid ist instant")
        .timestamp_millis()
}

fn empty_holidays() -> NseHolidayCalendar {
    NseHolidayCalendar::new()
}

fn pending(token: &str, strategy_id: &str, expires_at: u64) -> Option<PendingLiveToken> {
    Some(PendingLiveToken {
        token: token.to_string(),
        strategy_id: strategy_id.to_string(),
        expires_at,
    })
}

// ---- tokens ----

#[test]
fn test_token_expires() {
    let now = 1_000_000u64;
    let p = pending("abc", "strat-1", now - 1);
    assert!(LiveGuard::validate_token(&p, "strat-1", "abc", now).is_err());
}

#[test]
fn test_token_wrong_id() {
    let p = Some(LiveGuard::issue_token("strat-1", 5_000));
    let token = p.as_ref().unwrap().token.clone();
    assert!(LiveGuard::validate_token(&p, "strat-2", &token, 5_000).is_err());
}

#[test]
fn test_token_wrong_token() {
    let p = Some(LiveGuard::issue_token("strat-1", 5_000));
    assert!(LiveGuard::validate_token(&p, "strat-1", "wrong", 5_000).is_err());
}

#[test]
fn test_token_valid() {
    let p = Some(LiveGuard::issue_token("strat-1", 5_000));
    let token = p.as_ref().unwrap().token.clone();
    assert!(LiveGuard::validate_token(&p, "strat-1", &token, 5_000).is_ok());
}

#[test]
fn test_token_none() {
    assert!(LiveGuard::validate_token(&None, "strat-1", "abc", 5_000).is_err());
}

#[test]
fn token_lives_ninety_seconds() {
    let t = LiveGuard::issue_token("s", 1_000);
    assert_eq!(t.expires_at, 91_000);
    assert_eq!(t.token.len(), 36);
    let p = Some(t.clone());
    assert!(LiveGuard::validate_token(&p, "s", &t.token, 90_999).is_ok());
    assert_eq!(
        LiveGuard::validate_token(&p, "s", &t.token, 91_000).unwrap_err(),
        "invalid or expired confirmation token"
    );
}

// ---- market hours ----

#[test]
fn test_market_open_9_15_monday() {
    assert!(is_market_open(ist(2026, 1, 5, 9, 15, 0), &empty_holidays()));
}

#[test]
fn test_market_open_9_14_monday() {
    assert!(!is_market_open(ist(2026, 1, 5, 9, 14, 59), &empty_holidays()));
}

#[test]
fn test_market_open_15_30_monday() {
    assert!(is_market_open(ist(2026, 1, 5, 15, 30, 0), &empty_holidays()));
}

#[test]
fn test_market_open_15_31_monday() {
    assert!(!is_market_open(ist(2026, 1, 5, 15, 30, 1), &empty_holidays()));
}

#[test]
fn test_market_closed_saturday() {
    assert!(!is_market_open(ist(2026, 1, 3, 10, 0, 0), &empty_holidays()));
}

#[test]
fn test_market_closed_sunday() {
    assert!(!is_market_open(ist(2026, 1, 4, 10, 0, 0), &empty_holidays()));
}

#[test]
fn test_market_closed_holiday() {
    let holidays = vec![CalendarDate { year: 2026, month: 1, day: 26 }];
    let cal = NseHolidayCalendar::with_holidays(holidays);
    assert!(!is_market_open(ist(2026, 1, 26, 10, 0, 0), &cal));
}

#[test]
fn market_closes_a_nanosecond_after_half_past_three() {
    let mut dt = ist(2026, 1, 5, 15, 30, 0);
    dt.nanosecond = 1;
    assert!(!is_market_open(dt, &empty_holidays()));
}

// ---- holidays ----

#[test]
fn empty_calendar_returns_false() {
    let cal = NseHolidayCalendar::new();
    let any_day = CalendarDate { year: 2026, month: 1, day: 26 };
    assert!(!cal.is_holiday(any_day));
}

#[test]
fn configured_holiday_matches() {
    let holidays = vec![CalendarDate { year: 2026, month: 1, day: 26 }];
    let cal = NseHolidayCalendar::with_holidays(holidays);
    assert!(cal.is_holiday(CalendarDate { year: 2026, month: 1, day: 26 }));
    assert!(!cal.is_holiday(CalendarDate { year: 2026, month: 1, day: 27 }));
}

#[test]
fn calendar_counts_its_days() {
    let cal = NseHolidayCalendar::default();
    assert!(cal.is_empty());
    let cal = NseHolidayCalendar::with_holidays(vec![
        CalendarDate { year: 2026, month: 3, day: 3 },
        CalendarDate { year: 2026, month: 3, day: 4 },
    ]);
    assert_eq!(cal.len(), 2);
    assert!(!cal.is_empty());
}

// ---- session ----

#[derive(Debug, Clone, PartialEq)]
struct Candle {
    timestamp: i64,
    close: f64,
}

fn make_candle(ts: i64) -> Candle {
    Candle { timestamp: ts, close: 100.5 }
}

#[test]
fn test_candle_history_capped() {
    let mut history: Vec<Candle> = (0..(MAX_CANDLE_HISTORY as i64 + 100)).map(make_candle).collect();
    cap_history(&mut history);
    assert_eq!(history.len(), MAX_CANDLE_HISTORY);
    assert_eq!(history[0].timestamp, 100);
    assert_eq!(history[MAX_CANDLE_HISTORY - 1].timestamp, MAX_CANDLE_HISTORY as i64 + 99);
}

#[test]
fn push_capped_drops_oldest() {
    let mut history: Vec<Candle> = (0..(MAX_CANDLE_HISTORY as i64)).map(make_candle).collect();
    push_capped(&mut history, make_candle(-1));
    assert_eq!(history.len(), MAX_CANDLE_HISTORY);
    assert_eq!(history[0].timestamp, 1);
    assert_eq!(history.last().unwrap().timestamp, -1);
    let mut short = vec![make_candle(7)];
    push_capped(&mut short, make_candle(8));
    assert_eq!(short, vec![make_candle(7), make_candle(8)]);
}

struct MockEmitter {
    events: Mutex<Vec<LiveSessionFailedPayload>>,
}

impl SessionEventEmitter for MockEmitter {
    fn emit_failed(&self, payload: LiveSessionFailedPayload) {
        self.events.lock().unwrap().push(payload);
    }
}

#[test]
fn test_noop_emitter_is_silent() {
    let emitter = NoopEmitter;
    emitter.emit_failed(LiveSessionFailedPayload {
        strategy_id: "x".to_string(),
        reason: "test".to_string(),
        open_positions_estimate: None,
    });
}

#[test]
fn test_failed_status_emits_event() {
    let emitter = MockEmitter { events: Mutex::new(Vec::new()) };
    emitter.emit_failed(LiveSessionFailedPayload {
        strategy_id: "strat-42".to_string(),
        reason: "feed closed unexpectedly".to_string(),
        open_positions_estimate: Some(2),
    });
    let events = emitter.events.lock().unwrap();
    assert_eq!(events.len(), 1);
    assert_eq!(events[0].strategy_id, "strat-42");
    assert_eq!(events[0].reason, "feed closed unexpectedly");
    assert_eq!(events[0].open_positions_estimate, Some(2));
}

#[test]
fn feed_closure_fails_the_session() {
    let (status, payload) = feed_closed("strat-7");
    match &status {
        SessionStatus::Failed(m) => assert_eq!(m, "feed closed unexpectedly"),
        other => panic!("unexpected status {other:?}"),
    }
    assert_eq!(payload.strategy_id, "strat-7");
    assert_eq!(payload.open_positions_estimate, None);
    assert!(matches!(finish(status), SessionStatus::Failed(_)));
    assert!(matches!(finish(SessionStatus::Running), SessionStatus::Stopped));
}

#[test]
fn stale_loss_tracking_pauses_a_running_session() {
    assert_eq!(
        on_tick(&SessionStatus::Running, "NIFTY", "NIFTY", true),
        (TickAction::Assemble { pause_entries: true }, true)
    );
    assert_eq!(
        on_tick(&SessionStatus::Paused, "NIFTY", "NIFTY", true),
        (TickAction::Assemble { pause_entries: false }, false)
    );
    assert_eq!(on_tick(&SessionStatus::Running, "TCS", "NIFTY", true), (TickAction::Ignore, false));
}

#[test]
fn test_candle_close_ist_converts_mid_session() {
    let ts = ts_ist(2026, 1, 5, 9, 30, 0);
    let got = candle_close_ist(ts).expect("valid ts");
    assert_eq!(got.hour, 9);
    assert_eq!(got.minute, 30);
    assert_eq!(got.weekday, Weekday::Mon);
    assert_eq!(got.date, CalendarDate { year: 2026, month: 1, day: 5 });
}

#[test]
fn test_candle_close_ist_returns_none_for_garbage() {
    assert!(candle_close_ist(i64::MAX).is_none());
}

#[test]
fn test_gate_skips_weekend_candle() {
    let cal = NseHolidayCalendar::new();
    let sat_close = candle_close_ist(ts_ist(2026, 1, 3, 10, 0, 0)).unwrap();
    assert!(!is_market_open(sat_close, &cal));
}

#[test]
fn test_gate_skips_post_close_candle() {
    let cal = NseHolidayCalendar::new();
    let post_close = candle_close_ist(ts_ist(2026, 1, 5, 15, 30, 1)).unwrap();
    assert!(!is_market_open(post_close, &cal));
    let close = candle_close_ist(ts_ist(2026, 1, 5, 15, 30, 0)).unwrap();
    assert!(is_market_open(close, &cal));
}

#[test]
fn test_gate_skips_holiday_candle() {
    let empty = NseHolidayCalendar::new();
    let populated =
        NseHolidayCalendar::with_holidays(vec![CalendarDate { year: 2026, month: 1, day: 26 }]);
    let rep_day = candle_close_ist(ts_ist(2026, 1, 26, 10, 0, 0)).unwrap();
    assert!(is_market_open(rep_day, &empty));
    assert!(!is_market_open(rep_day, &populated));
}

#[test]
fn candle_gate_reads_timestamps() {
    let cal = NseHolidayCalendar::new();
    assert!(candle_gate(ts_ist(2026, 1, 5, 9, 30, 0), &cal));
    assert!(!candle_gate(ts_ist(2026, 1, 5, 8, 0, 0), &cal));
    assert!(candle_gate(i64::MAX, &cal));
}

// ---- preflight ----

fn equity_map() -> SymbolMap {
    let mut m = SymbolMap::empty();
    m.insert_entry("RELIANCE", 2885, Segment::NseEq);
    m.insert_entry("BANKNIFTY", 1234, Segment::NseFno);
    m
}

fn all_risk() -> Option<RiskControls> {
    Some(RiskControls { max_orders: false, max_open_positions: false, max_daily_loss: true })
}

#[test]
fn preflight_clears_and_issues_token() {
    let guard = LiveGuard::new(NseHolidayCalendar::new());
    let r = guard
        .run_preflight("RELIANCE", "s1", all_risk(), Ok(()), &equity_map(), ist(2026, 1, 5, 10, 0, 0), false, true, 0)
        .unwrap();
    match r {
        LiveGuardResult::Cleared { token } => {
            assert_eq!(token.strategy_id, "s1");
            assert_eq!(token.expires_at, 90_000);
        }
        _ => panic!("expected cleared"),
    }
    let r = guard
        .run_preflight("RELIANCE", "s1", all_risk(), Ok(()), &equity_map(), ist(2026, 1, 5, 10, 0, 0), false, false, 0)
        .unwrap();
    assert!(matches!(r, LiveGuardResult::RequiresAcknowledgment { .. }));
}

#[test]
fn preflight_reports_first_failing_gate() {
    let guard = LiveGuard::new(NseHolidayCalendar::new());
    let open = ist(2026, 1, 5, 10, 0, 0);
    let map = equity_map();
    let err = |r: Result<LiveGuardResult, String>| match r {
        Err(e) => e,
        Ok(_) => panic!("expected an error"),
    };
    assert_eq!(
        err(guard.run_preflight("RELIANCE", "s", all_risk(), Err("timeout".to_string()), &map, open, false, true, 0)),
        "broker unreachable; cannot confirm live session is safe: timeout"
    );
    assert_eq!(
        err(guard.run_preflight("TCS", "s", all_risk(), Ok(()), &map, open, false, true, 0)),
        "symbol 'TCS' not found in symbol map"
    );
    assert_eq!(
        err(guard.run_preflight("BANKNIFTY", "s", all_risk(), Ok(()), &map, open, false, true, 0)),
        "Phase 7 only supports NSE equity intraday trading; symbol BANKNIFTY is NseFno"
    );
    assert!(err(guard.run_preflight("RELIANCE", "s", all_risk(), Ok(()), &map, ist(2026, 1, 3, 10, 0, 0), false, true, 0))
        .starts_with("market is closed"));
    assert!(err(guard.run_preflight("RELIANCE", "s", None, Ok(()), &map, open, false, true, 0))
        .contains("at least one RISK control"));
    assert_eq!(
        err(guard.run_preflight(
            "RELIANCE",
            "s",
            Some(RiskControls { max_orders: true, max_open_positions: false, max_daily_loss: false }),
            Ok(()),
            &map,
            open,
            false,
            true,
            0
        )),
        "live strategies must declare RISK MAX_DAILY_LOSS"
    );
    assert!(err(guard.run_preflight("RELIANCE", "s", all_risk(), Ok(()), &map, open, true, true, 0))
        .contains("stale"));
}

// ---- minute assembly ----

#[test]
fn ticks_roll_minutes_and_count_gaps() {
    assert_eq!(tick_minute(61_000), 60_000);
    assert_eq!(tick_minute(-1), 0);
    assert_eq!(minute_step(None, 60_000), MinuteStep::Start { minute: 60_000 });
    assert_eq!(minute_step(Some(60_000), 119_999), MinuteStep::Same);
    assert_eq!(
        minute_step(Some(60_000), 120_000),
        MinuteStep::Roll { closed: 60_000, gaps: 0, minute: 120_000 }
    );
    assert_eq!(
        minute_step(Some(60_000), 360_000),
        MinuteStep::Roll { closed: 60_000, gaps: 4, minute: 360_000 }
    );
}

#[test]
fn issued_token_is_a_v4_uuid_text() {
    let pending = LiveGuard::issue_token("strat-1", 1_000);
    let t: Vec<char> = pending.token.chars().collect();
    assert_eq!(t.len(), 36);
    for (i, c) in t.iter().enumerate() {
        if [8, 13, 18, 23].contains(&i) {
            assert_eq!(*c, '-');
        } else {
            assert!(c.is_ascii_digit() || ('a'..='f').contains(c), "{c}");
        }
    }
    assert_eq!(t[14], '4');
    assert!(['8', '9', 'a', 'b'].contains(&t[19]));
    assert_ne!(LiveGuard::issue_token("strat-1", 1_000).token, pending.token);
}

#[test]
fn tick_minute_handles_the_earliest_timestamp() {
    assert_eq!(tick_minute(i64::MIN), i64::MIN / 60_000 * 60_000);
    assert_eq!(minute_step(None, i64::MIN), MinuteStep::Start { minute: i64::MIN / 60_000 * 60_000 });
}
