use vstd::prelude::*;

verus! {

/// Side of an order.
#[derive(Debug, Clone, Copy, PartialEq, Eq, Structural)]
pub enum OrderSide {
    Buy,
    Sell,
}

/// Kind of an order.
#[derive(Debug, Clone, Copy, PartialEq, Eq, Structural)]
pub enum OrderType {
    Market,
    Limit,
    StopLoss,
}

/// Lifecycle status of an order as reported by the broker.
#[derive(Debug, Clone, PartialEq, Eq)]
pub enum OrderStatus {
    Transit,
    Pending,
    Traded,
    Rejected,
    Cancelled,
    Expired,
    Unknown(String),
}

impl OrderStatus {
    /// The order has reached a final state.
    pub open spec fn spec_is_terminal(&self) -> bool {
        self is Traded || self is Rejected || self is Cancelled || self is Expired
    }

    /// True if the order reached a final state (filled, rejected, cancelled
    /// or expired). Transit, Pending and Unknown are non-terminal.
    pub fn is_terminal(&self) -> (r: bool)
        ensures
            r == self.spec_is_terminal(),
    {
        match self {
            OrderStatus::Traded | OrderStatus::Rejected | OrderStatus::Cancelled
            | OrderStatus::Expired => true,
            _ => false,
        }
    }

    /// True only if the order actually filled.
    pub fn is_fill(&self) -> (r: bool)
        ensures
            r == (self is Traded),
    {
        match self {
            OrderStatus::Traded => true,
            _ => false,
        }
    }
}

/// What a broker reports back for a placed order.
#[derive(Debug, Clone, PartialEq, Eq)]
pub struct OrderResult {
    pub order_id: String,
    pub status: OrderStatus,
    pub timestamp: i64,
    pub correlation_id: String,
}

/// A filled order has reached a final state.
pub proof fn lemma_fill_is_terminal(s: OrderStatus)
    ensures
        s is Traded ==> s.spec_is_terminal(),
{
}

} // verus!
