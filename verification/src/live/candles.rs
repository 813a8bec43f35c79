//! Which minute a tick belongs to, and which minute candles close when a
//! tick arrives (the prices themselves are accumulated by the caller).

use vstd::prelude::*;

verus! {

/// One minute in milliseconds.
pub const MINUTE_MS: i64 = 60000;

/// The start of the minute holding `ts`, rounding toward zero as integer
/// division does.
pub open spec fn minute_of(ts: int) -> int {
    if ts >= 0 {
        ts / 60000 * 60000
    } else {
        -((-ts) / 60000 * 60000)
    }
}

/// How many whole minutes lie strictly between the minute `closed` and
/// the minute `next`: the zero-volume gap candles to emit.
pub open spec fn gap_count(closed: int, next: int) -> int {
    if next - closed > 60000 {
        (next - closed - 1) / 60000
    } else {
        0
    }
}

/// What a tick does to the minute being assembled.
#[derive(Debug, Clone, Copy, PartialEq, Eq, Structural)]
pub enum MinuteStep {
    /// No minute was in progress: start `minute` with this tick.
    Start { minute: i64 },
    /// The tick falls in the minute in progress.
    Same,
    /// The minute in progress (`closed`) is complete; `gaps` empty minutes
    /// follow it (at `closed + 60000 * k` for `k` in `1..=gaps`), then
    /// `minute` starts with this tick.
    Roll { closed: i64, gaps: u64, minute: i64 },
}

/// The start of the minute holding `ts`.
pub fn tick_minute(ts: i64) -> (r: i64)
    ensures
        r == minute_of(ts as int),
{
    let t: i128 = ts as i128;
    let m: i128 = if t >= 0 {
        t / 60000 * 60000
    } else {
        -((-t) / 60000 * 60000)
    };
    assert(i64::MIN <= m <= i64::MAX) by (nonlinear_arith)
        requires
            m == (if t >= 0 { t / 60000 * 60000 } else { -((-t) / 60000 * 60000) }),
            i64::MIN <= t <= i64::MAX,
    {
        if t >= 0 {
            assert(t / 60000 * 60000 <= t);
        } else {
            assert((-t) / 60000 * 60000 <= -t);
        }
    }
    m as i64
}

/// The step a tick at `ts` causes when `current` is the minute in progress.
pub fn minute_step(current: Option<i64>, ts: i64) -> (r: MinuteStep)
    ensures
        current is None ==> r == (MinuteStep::Start { minute: minute_of(ts as int) as i64 }),
        current is Some && current->Some_0 == minute_of(ts as int) ==> r == MinuteStep::Same,
        current is Some && current->Some_0 != minute_of(ts as int) ==> r == (MinuteStep::Roll {
            closed: current->Some_0,
            gaps: gap_count(current->Some_0 as int, minute_of(ts as int)) as u64,
            minute: minute_of(ts as int) as i64,
        }),
{
    let m = tick_minute(ts);
    match current {
        None => MinuteStep::Start { minute: m },
        Some(c) => {
            if c == m {
                MinuteStep::Same
            } else {
                let d: i128 = (m as i128) - (c as i128);
                let gaps: u64 = if d > 60000 {
                    ((d - 1) / 60000) as u64
                } else {
                    0
                };
                MinuteStep::Roll { closed: c, gaps, minute: m }
            }
        },
    }
}

} // verus!
