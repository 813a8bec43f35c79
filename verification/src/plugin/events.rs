//! Which published events a subscription receives.

use vstd::prelude::*;
use crate::text::{chars_eq_str, chars_of, lower_ascii, to_ascii_lower};

verus! {

/// What a subscriber wants to receive.
#[derive(Debug, Clone, Copy, PartialEq, Eq, Structural)]
pub enum EventFilter {
    All,
    CandleProcessed,
    TradeExecuted,
    RuleFired,
    StrategyStatusChanged,
    SystemShutdown,
}

/// The kind of a published event.
#[derive(Debug, Clone, Copy, PartialEq, Eq, Structural)]
pub enum EventTag {
    CandleProcessed,
    TradeExecuted,
    RuleFired,
    StrategyStatusChanged,
    SystemShutdown,
}

/// A filter admits every event (`All`) or the events of its own kind.
pub open spec fn admits(f: EventFilter, e: EventTag) -> bool {
    match f {
        EventFilter::All => true,
        EventFilter::CandleProcessed => e is CandleProcessed,
        EventFilter::TradeExecuted => e is TradeExecuted,
        EventFilter::RuleFired => e is RuleFired,
        EventFilter::StrategyStatusChanged => e is StrategyStatusChanged,
        EventFilter::SystemShutdown => e is SystemShutdown,
    }
}

impl EventFilter {
    /// The filter admits an event of kind `event`.
    pub fn matches(&self, event: EventTag) -> (r: bool)
        ensures
            r == admits(*self, event),
    {
        match (self, event) {
            (EventFilter::All, _) => true,
            (EventFilter::CandleProcessed, EventTag::CandleProcessed) => true,
            (EventFilter::TradeExecuted, EventTag::TradeExecuted) => true,
            (EventFilter::RuleFired, EventTag::RuleFired) => true,
            (EventFilter::StrategyStatusChanged, EventTag::StrategyStatusChanged) => true,
            (EventFilter::SystemShutdown, EventTag::SystemShutdown) => true,
            _ => false,
        }
    }
}

/// The filter a script names: `candle`, `trade`, `rule`, `status` or
/// `shutdown` in any ASCII case; anything else subscribes to everything.
pub open spec fn filter_named(s: Seq<char>) -> EventFilter {
    let n = lower_ascii(s);
    if n == "candle"@ {
        EventFilter::CandleProcessed
    } else if n == "trade"@ {
        EventFilter::TradeExecuted
    } else if n == "rule"@ {
        EventFilter::RuleFired
    } else if n == "status"@ {
        EventFilter::StrategyStatusChanged
    } else if n == "shutdown"@ {
        EventFilter::SystemShutdown
    } else {
        EventFilter::All
    }
}

/// Each filter other than `All` admits exactly the events of its own
/// kind, and `All` admits every event; so two different filters other
/// than `All` never admit the same event.
pub proof fn lemma_filter_admits_own_kind(e: EventTag)
    ensures
        admits(EventFilter::All, e),
        admits(EventFilter::CandleProcessed, e) <==> e == EventTag::CandleProcessed,
        admits(EventFilter::TradeExecuted, e) <==> e == EventTag::TradeExecuted,
        admits(EventFilter::RuleFired, e) <==> e == EventTag::RuleFired,
        admits(EventFilter::StrategyStatusChanged, e) <==> e == EventTag::StrategyStatusChanged,
        admits(EventFilter::SystemShutdown, e) <==> e == EventTag::SystemShutdown,
        forall|f: EventFilter, g: EventFilter|
            f != EventFilter::All && g != EventFilter::All && f != g && #[trigger] admits(f, e)
                ==> !#[trigger] admits(g, e),
{
}

/// Parses a script-supplied filter name.
pub fn parse_event_filter(s: &str) -> (r: EventFilter)
    ensures
        r == filter_named(s@),
{
    let n = to_ascii_lower(&chars_of(s));
    if chars_eq_str(&n, "candle") {
        EventFilter::CandleProcessed
    } else if chars_eq_str(&n, "trade") {
        EventFilter::TradeExecuted
    } else if chars_eq_str(&n, "rule") {
        EventFilter::RuleFired
    } else if chars_eq_str(&n, "status") {
        EventFilter::StrategyStatusChanged
    } else if chars_eq_str(&n, "shutdown") {
        EventFilter::SystemShutdown
    } else {
        EventFilter::All
    }
}

/// The positions, in subscription order, of the filters that admit `event`.
pub open spec fn receivers(filters: Seq<EventFilter>, event: EventTag) -> Seq<usize>
    decreases filters.len(),
{
    if filters.len() == 0 {
        Seq::empty()
    } else {
        let rest = receivers(filters.drop_last(), event);
        if admits(filters.last(), event) {
            rest.push((filters.len() - 1) as usize)
        } else {
            rest
        }
    }
}

/// Which subscribers (by position) receive a published event.
pub fn publish_targets(filters: &Vec<EventFilter>, event: EventTag) -> (r: Vec<usize>)
    ensures
        r@ == receivers(filters@, event),
{
    let mut out: Vec<usize> = Vec::new();
    let mut i: usize = 0;
    assert(filters@.take(0) =~= Seq::<EventFilter>::empty());
    while i < filters.len()
        invariant
            i <= filters@.len(),
            out@ == receivers(filters@.take(i as int), event),
        decreases filters.len() - i,
    {
        assert(filters@.take(i + 1).drop_last() =~= filters@.take(i as int));
        if filters[i].matches(event) {
            out.push(i);
        }
        i = i + 1;
    }
    assert(filters@.take(filters.len() as int) =~= filters@);
    out
}

} // verus!
