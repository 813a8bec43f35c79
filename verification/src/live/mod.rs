//! Live-trading safety: the NSE holiday calendar, market hours, the
//! preflight gates and confirmation tokens, and live-session bookkeeping.

pub mod holidays;
pub mod guard;
pub mod session;
pub mod candles;
