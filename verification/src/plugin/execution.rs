//! The plugin order gateway: the gates a plugin order must pass during a
//! live session, and how plugin orders are attributed in the trade log.

use vstd::prelude::*;
use vstd::string::StringExecFns;
use crate::broker::{Segment, SymbolMap};
use crate::live::guard::{is_market_open, map_lookup, market_open, segment_name, IstDateTime};
use crate::live::holidays::NseHolidayCalendar;
use crate::plugin::api::OrderSide;
use crate::plugin::types::PluginError;

verus! {

broadcast use vstd::string::group_string_axioms;

/// The strategy metadata the broker stamps on trade-log rows.
#[derive(Debug, Clone)]
pub struct SessionContext {
    pub strategy_id: String,
    pub strategy_name: String,
    pub mode: String,
}

/// What the gateway observes of the running live session.
#[derive(Debug, Clone)]
pub struct SessionFacts {
    pub broker_stale: bool,
    pub cancelled: bool,
    pub paused_for_entries: bool,
}

/// The first gate a plugin order fails, with its message: a session is
/// running, the symbol is known and NSE equity, the market is open, loss
/// tracking is fresh, the session is not stopped, and (for buys) not
/// paused.
pub open spec fn order_rejection(
    session: Option<SessionFacts>,
    symbol: Seq<char>,
    side: OrderSide,
    entry: Option<crate::broker::SymbolEntry>,
    open: bool,
) -> Option<Seq<char>> {
    if session is None {
        Some("plugin order rejected: no live session is running"@)
    } else if entry is None {
        Some("plugin order rejected: symbol '"@ + symbol + "' is not in the symbol map"@)
    } else if entry->Some_0.segment != Segment::NseEq {
        Some(
            "plugin order rejected: Phase 8 only supports NSE equity; symbol '"@ + symbol
                + "' is "@ + segment_name(entry->Some_0.segment),
        )
    } else if !open {
        Some(
            "plugin order rejected: market is closed; live trading is only allowed 09:15–15:30 IST on NSE trading days"@,
        )
    } else if session->Some_0.broker_stale {
        Some(
            "plugin order rejected: broker realized-loss / funds tracking is stale; retry once the broker cache recovers"@,
        )
    } else if session->Some_0.cancelled {
        Some("plugin order rejected: live session has been stopped"@)
    } else if session->Some_0.paused_for_entries && side is Buy {
        Some("plugin order rejected: live session is paused (BUY suppressed); symbol '"@ + symbol + "'"@)
    } else {
        None
    }
}

fn segment_text(s: Segment) -> (r: &'static str)
    ensures
        r@ == segment_name(s),
{
    match s {
        Segment::NseEq => "NseEq",
        Segment::NseFno => "NseFno",
        Segment::NseCurrency => "NseCurrency",
        Segment::Bse => "Bse",
        Segment::Mcx => "Mcx",
        Segment::Index => "Index",
    }
}

/// Runs the plugin-order gates in order on what the gateway observed.
pub fn check_gates(
    session: Option<SessionFacts>,
    symbol: &str,
    side: OrderSide,
    symbol_map: &SymbolMap,
    now_ist: IstDateTime,
    holidays: &NseHolidayCalendar,
) -> (r: Result<(), String>)
    ensures
        r is Ok <==> order_rejection(
            session,
            symbol@,
            side,
            map_lookup(symbol_map@, symbol@),
            market_open(now_ist, holidays.days()),
        ) is None,
        r matches Err(e) ==> e@ == order_rejection(
            session,
            symbol@,
            side,
            map_lookup(symbol_map@, symbol@),
            market_open(now_ist, holidays.days()),
        )->Some_0,
{
    let facts = match session {
        Some(f) => f,
        None => {
            return Err(String::from_str("plugin order rejected: no live session is running"));
        },
    };
    let entry = match symbol_map.lookup(symbol) {
        Some(e) => e,
        None => {
            let mut m = String::from_str("plugin order rejected: symbol '");
            m.append(symbol);
            m.append("' is not in the symbol map");
            return Err(m);
        },
    };
    if entry.segment != Segment::NseEq {
        let mut m = String::from_str(
            "plugin order rejected: Phase 8 only supports NSE equity; symbol '",
        );
        m.append(symbol);
        m.append("' is ");
        m.append(segment_text(entry.segment));
        return Err(m);
    }
    if !is_market_open(now_ist, holidays) {
        return Err(
            String::from_str(
                "plugin order rejected: market is closed; live trading is only allowed 09:15–15:30 IST on NSE trading days",
            ),
        );
    }
    if facts.broker_stale {
        return Err(
            String::from_str(
                "plugin order rejected: broker realized-loss / funds tracking is stale; retry once the broker cache recovers",
            ),
        );
    }
    if facts.cancelled {
        return Err(String::from_str("plugin order rejected: live session has been stopped"));
    }
    if facts.paused_for_entries && side == OrderSide::Buy {
        let mut m = String::from_str(
            "plugin order rejected: live session is paused (BUY suppressed); symbol '",
        );
        m.append(symbol);
        m.append("'");
        return Err(m);
    }
    Ok(())
}

/// The context a plugin order is attributed to: the session's strategy,
/// marked as a plugin order, in live mode.
pub fn plugin_order_context(strategy_id: &str, strategy_name: &str) -> (r: SessionContext)
    ensures
        r.strategy_id@ == "plugin:"@ + strategy_id@,
        r.strategy_name@ == strategy_name@ + " [plugin order]"@,
        r.mode@ == "live"@,
{
    SessionContext {
        strategy_id: String::from_str("plugin:").concat(strategy_id),
        strategy_name: String::from_str(strategy_name).concat(" [plugin order]"),
        mode: String::from_str("live"),
    }
}

/// Stages a plugin order's context on the broker's context slot for one
/// order, remembering what was there so it can be put back.
pub struct PluginSessionContextGuard {
    previous: Option<SessionContext>,
}

impl PluginSessionContextGuard {
    /// What the slot held before the guard staged its context.
    pub closed spec fn saved(&self) -> Option<SessionContext> {
        self.previous
    }

    /// Saves the slot's context and stages `ctx` in its place.
    pub fn new(slot: &mut Option<SessionContext>, ctx: SessionContext) -> (r: PluginSessionContextGuard)
        ensures
            *final(slot) == Some(ctx),
            r.saved() == *old(slot),
    {
        let previous = slot.take();
        *slot = Some(ctx);
        PluginSessionContextGuard { previous }
    }

    /// Puts the saved context (or nothing) back into the slot.
    pub fn restore(self, slot: &mut Option<SessionContext>)
        ensures
            *final(slot) == self.saved(),
    {
        *slot = self.previous;
    }
}

/// The order gateway used when no live session can take plugin orders:
/// every order and cancel is refused with the reason.
pub struct NoopExecutionApi;

/// The refusal a plugin order gets from the no-op gateway.
pub open spec fn noop_submit_error() -> Seq<char> {
    "plugin order submission is not wired: live orders may only originate from the strategy engine"@
}

/// The refusal a plugin cancel gets from the no-op gateway.
pub open spec fn noop_cancel_error() -> Seq<char> {
    "plugin order submission is not wired: cancel_order is not supported outside the strategy engine"@
}

impl NoopExecutionApi {
    /// Refuses the order.
    pub fn submit_order(&self) -> (r: Result<String, PluginError>)
        ensures
            r matches Err(PluginError::ApiError(m)) && m@ == noop_submit_error(),
    {
        Err(
            PluginError::ApiError(
                String::from_str(
                    "plugin order submission is not wired: live orders may only originate from the strategy engine",
                ),
            ),
        )
    }

    /// Refuses the cancel.
    pub fn cancel_order(&self, order_id: &str) -> (r: Result<(), PluginError>)
        ensures
            r matches Err(PluginError::ApiError(m)) && m@ == noop_cancel_error(),
    {
        Err(
            PluginError::ApiError(
                String::from_str(
                    "plugin order submission is not wired: cancel_order is not supported outside the strategy engine",
                ),
            ),
        )
    }
}

} // verus!
