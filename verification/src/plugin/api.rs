//! What the host offers plugins: market-data events, order sides and
//! kinds, panels, and the storage, UI and log interfaces.

use vstd::prelude::*;
use crate::plugin::types::{NotificationKind, PluginError, PluginId};

verus! {

/// A market-data notification for one symbol.
#[derive(Debug, Clone)]
pub struct MarketDataEvent {
    pub symbol: String,
    pub kind: MarketEventKind,
}

/// Whether a market-data notification is a candle or a tick.
#[derive(Debug, Clone, Copy, PartialEq, Eq, Structural)]
pub enum MarketEventKind {
    Candle,
    Tick,
}

/// How far back, in seconds, each market-data poll asks the broker for
/// one-minute candles.
pub const POLL_WINDOW_SECS: i64 = 60;

/// The time range, in UNIX seconds, a market-data poll at `now_secs` asks
/// the broker for: the last minute.
pub fn poll_range(now_secs: i64) -> (r: (i64, i64))
    requires
        now_secs >= i64::MIN + POLL_WINDOW_SECS,
    ensures
        r.0 == now_secs - POLL_WINDOW_SECS,
        r.1 == now_secs,
{
    (now_secs - POLL_WINDOW_SECS, now_secs)
}

/// What one poll of `symbol` notifies, given how many candles the broker
/// returned (`None` when the fetch failed): a tick always, then a candle
/// when at least one candle came back.
pub fn poll_events(symbol: &str, fetched: Option<usize>) -> (r: Vec<MarketDataEvent>)
    ensures
        r@.len() == (if (fetched matches Some(n) && n > 0) { 2int } else { 1int }),
        r@[0].kind == MarketEventKind::Tick,
        r@[0].symbol@ == symbol@,
        r@.len() == 2 ==> r@[1].kind == MarketEventKind::Candle && r@[1].symbol@ == symbol@,
{
    let mut events: Vec<MarketDataEvent> = Vec::new();
    events.push(MarketDataEvent { symbol: String::from_str(symbol), kind: MarketEventKind::Tick });
    match fetched {
        Some(n) => {
            if n > 0 {
                events.push(MarketDataEvent { symbol: String::from_str(symbol), kind: MarketEventKind::Candle });
            }
        },
        None => {},
    }
    events
}

/// The position of the latest of `count` fetched candles, or the error a
/// plugin gets when the broker returned none.
pub fn latest_candle_index(count: usize) -> (r: Result<usize, PluginError>)
    ensures
        count > 0 ==> r == Ok::<usize, PluginError>((count - 1) as usize),
        count == 0 ==> (r matches Err(PluginError::ApiError(m)) && m@ == "no candles returned"@),
{
    if count > 0 {
        Ok(count - 1)
    } else {
        Err(PluginError::ApiError(String::from_str("no candles returned")))
    }
}

/// The side of a plugin order.
#[derive(Debug, Clone, Copy, PartialEq, Eq, Structural)]
pub enum OrderSide {
    Buy,
    Sell,
}

/// The kind of a plugin order.
#[derive(Debug, Clone, Copy, PartialEq, Eq, Structural)]
pub enum OrderType {
    Market,
    Limit,
}

/// A panel a plugin adds to the desktop.
#[derive(Debug, Clone)]
pub struct UiPanel {
    pub id: String,
    pub title: String,
    pub route: String,
}

/// Per-plugin key-value storage.
pub trait StorageApi {
    fn read(&self, key: &str) -> Result<Option<Vec<u8>>, PluginError>;

    fn write(&self, key: &str, value: &[u8]) -> Result<(), PluginError>;

    fn delete(&self, key: &str) -> Result<(), PluginError>;

    fn list_keys(&self, prefix: &str) -> Result<Vec<String>, PluginError>;
}

/// Panels and notifications.
pub trait UiApi {
    fn register_panel(&self, panel: UiPanel) -> Result<(), PluginError>;

    fn notify(&self, kind: NotificationKind, message: &str) -> Result<(), PluginError>;
}

/// Plugin logging, by level.
pub trait LogApi {
    fn debug(&self, plugin_id: &PluginId, message: &str);

    fn info(&self, plugin_id: &PluginId, message: &str);

    fn warn(&self, plugin_id: &PluginId, message: &str);

    fn error(&self, plugin_id: &PluginId, message: &str);
}

} // verus!
