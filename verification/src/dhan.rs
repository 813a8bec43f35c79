//! Dhan REST request and response shapes, the date formats the API takes,
//! and how an order becomes a placement request.

use vstd::prelude::*;
use vstd::string::StringExecFns;
use crate::broker::{segment_code, symbol_key, Segment, SymbolMap};
use crate::live::guard::{uuid_v4_text, chrono_local_date, chrono_local_fields, fresh_token_text, local_day, map_lookup, second_of_day, segment_name, segment_name_of};
use crate::models::{OrderSide, OrderType};
use crate::text::{dec_digits, decimal, padded, signed_decimal, signed_text, zero_pad};

verus! {

broadcast use vstd::string::group_string_axioms;

/// The Dhan REST endpoint the client talks to by default.
pub open spec fn dhan_base_url() -> Seq<char> {
    "https://api.dhan.co/v2"@
}

/// An intraday candles request.
#[derive(Debug, Clone)]
pub struct IntradayRequest {
    pub security_id: String,
    pub exchange_segment: String,
    pub instrument: String,
    pub interval: String,
    pub oi: bool,
    pub from_date: String,
    pub to_date: String,
}

/// Dhan's answer to an order placement.
#[derive(Debug, Clone)]
pub struct PlaceOrderResponse {
    pub order_id: String,
    pub order_status: String,
}

/// Failures callers must handle specifically.
#[derive(Debug, Clone)]
pub enum DhanError {
    /// The order request timed out: it may or may not have reached the
    /// exchange.
    OrderStatusUnknown { correlation_id: String },
}

impl DhanError {
    /// The error text, as `Display` writes it.
    pub fn to_string(&self) -> (r: String)
        ensures
            match self {
                DhanError::OrderStatusUnknown { correlation_id } => r@
                    == "order status unknown, check broker app; correlation_id="@ + correlation_id@,
            },
    {
        match self {
            DhanError::OrderStatusUnknown { correlation_id } => String::from_str(
                "order status unknown, check broker app; correlation_id=",
            ).concat(correlation_id.as_str()),
        }
    }
}

/// Client settings.
#[derive(Debug, Clone)]
pub struct DhanConfig {
    pub base_url: String,
    pub default_exchange_segment: String,
    pub default_instrument: String,
}

impl Default for DhanConfig {
    fn default() -> (r: DhanConfig)
        ensures
            r.base_url@ == dhan_base_url(),
            r.default_exchange_segment@ == "NSE_EQ"@,
            r.default_instrument@ == "EQUITY"@,
    {
        DhanConfig {
            base_url: String::from_str("https://api.dhan.co/v2"),
            default_exchange_segment: String::from_str("NSE_EQ"),
            default_instrument: String::from_str("EQUITY"),
        }
    }
}

/// Market-feed credentials.
#[derive(Debug, Clone)]
pub struct DhanWebSocketConfig {
    pub client_id: String,
    pub access_token: String,
}

/// The market-feed connection.
#[derive(Debug)]
pub struct DhanWebSocket {
    config: DhanWebSocketConfig,
}

impl DhanWebSocket {
    /// The connection's credentials.
    pub closed spec fn config(&self) -> DhanWebSocketConfig {
        self.config
    }

    /// A feed connection using `config`.
    pub fn new(config: DhanWebSocketConfig) -> (r: DhanWebSocket)
        ensures
            r.config() == config,
    {
        DhanWebSocket { config }
    }
}

/// `%Y` as chrono writes it: four zero-padded digits for years 0–9999,
/// otherwise a sign and at least four digits.
pub open spec fn year_text(y: int) -> Seq<char> {
    if 0 <= y <= 9999 {
        zero_pad(dec_digits(y as nat), 4)
    } else if y < 0 {
        "-"@ + zero_pad(dec_digits((-y) as nat), 4)
    } else {
        "+"@ + zero_pad(dec_digits(y as nat), 4)
    }
}

/// `%Y-%m-%d`.
pub open spec fn date_text(d: (i32, u32, u32)) -> Seq<char> {
    year_text(d.0 as int) + "-"@ + zero_pad(dec_digits(d.1 as nat), 2) + "-"@ + zero_pad(
        dec_digits(d.2 as nat),
        2,
    )
}

/// `%H:%M:%S` of a second of the day.
pub open spec fn clock_text(sod: int) -> Seq<char> {
    zero_pad(dec_digits((sod / 3600) as nat), 2) + ":"@ + zero_pad(dec_digits((sod % 3600 / 60) as nat), 2)
        + ":"@ + zero_pad(dec_digits((sod % 60) as nat), 2)
}

/// The message for a timestamp chrono cannot represent.
pub open spec fn bad_timestamp(ts: int) -> Seq<char> {
    "Invalid Unix millisecond timestamp: "@ + signed_text(ts)
}

fn year_string(y: i32) -> (r: String)
    ensures
        r@ == year_text(y as int),
{
    if 0 <= y && y <= 9999 {
        padded(y as u64, 4)
    } else if y < 0 {
        let m: u64 = if y == i32::MIN {
            2147483648
        } else {
            (-y) as u64
        };
        String::from_str("-").concat(padded(m, 4).as_str())
    } else {
        String::from_str("+").concat(padded(y as u64, 4).as_str())
    }
}

fn date_string(y: i32, m: u32, d: u32) -> (r: String)
    ensures
        r@ == date_text((y, m, d)),
{
    let mut s = year_string(y);
    s.append("-");
    s.append(padded(m as u64, 2).as_str());
    s.append("-");
    s.append(padded(d as u64, 2).as_str());
    s
}

/// The UTC date of a millisecond UNIX time, `YYYY-MM-DD`.
pub fn unix_ms_to_dhan_date(ts: i64) -> (r: Result<String, String>)
    ensures
        -8_000_000_000_000_000 <= ts <= 8_000_000_000_000_000 ==> r is Ok,
        r matches Ok(s) ==> s@ == date_text(chrono_local_date(ts, 0)),
        r matches Err(e) ==> e@ == bad_timestamp(ts as int),
{
    match chrono_local_fields(ts, 0) {
        Some((y, m, d, _, _, _, _, _)) => Ok(date_string(y, m, d)),
        None => Err(String::from_str("Invalid Unix millisecond timestamp: ").concat(signed_decimal(ts).as_str())),
    }
}

/// The UTC date and time of a millisecond UNIX time, `YYYY-MM-DD HH:MM:SS`.
pub fn unix_ms_to_dhan_datetime(ts: i64) -> (r: Result<String, String>)
    ensures
        -8_000_000_000_000_000 <= ts <= 8_000_000_000_000_000 ==> r is Ok,
        r matches Ok(s) ==> s@ == date_text(chrono_local_date(ts, 0)) + " "@ + clock_text(
            second_of_day(ts as int, 0),
        ),
        r matches Err(e) ==> e@ == bad_timestamp(ts as int),
{
    match chrono_local_fields(ts, 0) {
        Some((y, m, d, _, h, mi, sec, _)) => {
            let mut s = date_string(y, m, d);
            s.append(" ");
            s.append(padded(h as u64, 2).as_str());
            s.append(":");
            s.append(padded(mi as u64, 2).as_str());
            s.append(":");
            s.append(padded(sec as u64, 2).as_str());
            Ok(s)
        },
        None => Err(String::from_str("Invalid Unix millisecond timestamp: ").concat(signed_decimal(ts).as_str())),
    }
}

/// The fixed and order-dependent text fields of an order placement (the
/// price fields are filled by the caller).
#[derive(Debug, Clone)]
pub struct OrderPlan {
    pub dhan_client_id: String,
    pub correlation_id: String,
    pub transaction_type: String,
    pub exchange_segment: String,
    pub product_type: String,
    pub order_type: String,
    pub validity: String,
    pub security_id: String,
    pub quantity: u32,
    pub amo_time: String,
}

/// Dhan's name for an order kind.
pub open spec fn order_type_text(t: OrderType) -> Seq<char> {
    match t {
        OrderType::Market => "MARKET"@,
        OrderType::Limit => "LIMIT"@,
        OrderType::StopLoss => "STOP_LOSS"@,
    }
}

/// The order type sent to Dhan is Dhan's own name for the requested kind,
/// and different kinds are never sent under the same name.
pub proof fn lemma_order_type_names(t: OrderType, u: OrderType)
    ensures
        t == OrderType::Market ==> order_type_text(t) == "MARKET"@,
        t == OrderType::Limit ==> order_type_text(t) == "LIMIT"@,
        t == OrderType::StopLoss ==> order_type_text(t) == "STOP_LOSS"@,
        t != u ==> order_type_text(t) != order_type_text(u),
{
    reveal_strlit("MARKET");
    reveal_strlit("LIMIT");
    reveal_strlit("STOP_LOSS");
    if t != u {
        assert(order_type_text(t).len() != order_type_text(u).len() || order_type_text(t)[0] != order_type_text(u)[0]);
    }
}

/// Why an order cannot be placed, checked in order: no client id, an
/// unknown symbol, a segment other than NSE equity, a limit order without
/// a price.
pub open spec fn order_refusal(
    has_client: bool,
    symbol: Seq<char>,
    entry: Option<crate::broker::SymbolEntry>,
    order_type: OrderType,
    has_price: bool,
) -> Option<Seq<char>> {
    if !has_client {
        Some("Dhan client id is not configured"@)
    } else if entry is None {
        Some("symbol not in map: "@ + symbol)
    } else if entry->Some_0.segment != Segment::NseEq {
        Some(
            "Phase 7 only supports NSE equity intraday trading; symbol "@ + symbol + " is "@
                + segment_name(entry->Some_0.segment),
        )
    } else if order_type is Limit && !has_price {
        Some("limit order requires a price"@)
    } else {
        None
    }
}

/// Builds an order placement for `symbol`: the account's client id, a
/// fresh `algomln-<uuid>` correlation id (Dhan dedupes retries on it), the
/// side, NSE equity intraday day order, the resolved security id.
pub fn plan_order(
    client_id: &Option<String>,
    symbol_map: &SymbolMap,
    symbol: &str,
    side: OrderSide,
    order_type: OrderType,
    quantity: u32,
    has_price: bool,
) -> (r: Result<OrderPlan, String>)
    ensures
        r is Err <==> order_refusal(
            client_id is Some,
            symbol@,
            map_lookup(symbol_map@, symbol@),
            order_type,
            has_price,
        ) is Some,
        r matches Err(e) ==> e@ == order_refusal(
            client_id is Some,
            symbol@,
            map_lookup(symbol_map@, symbol@),
            order_type,
            has_price,
        )->Some_0,
        r matches Ok(p) ==> {
            &&& client_id matches Some(c) && p.dhan_client_id@ == c@
            &&& p.correlation_id@.len() == 44
            &&& p.correlation_id@.take(8) == "algomln-"@
            &&& uuid_v4_text(p.correlation_id@.skip(8))
            &&& p.transaction_type@ == (if side is Buy {
                "BUY"@
            } else {
                "SELL"@
            })
            &&& p.exchange_segment@ == segment_code(Segment::NseEq)
            &&& p.product_type@ == "INTRADAY"@
            &&& p.order_type@ == order_type_text(order_type)
            &&& p.validity@ == "DAY"@
            &&& p.security_id@ == dec_digits(symbol_map@[symbol_key(symbol@)].security_id as nat)
            &&& p.quantity == quantity
            &&& p.amo_time@ == "OPEN"@
        },
{
    let dhan_client_id = match client_id {
        Some(c) => c.clone(),
        None => {
            return Err(String::from_str("Dhan client id is not configured"));
        },
    };
    let entry = match symbol_map.lookup(symbol) {
        Some(e) => e,
        None => {
            return Err(String::from_str("symbol not in map: ").concat(symbol));
        },
    };
    if entry.segment != Segment::NseEq {
        let mut m = String::from_str("Phase 7 only supports NSE equity intraday trading; symbol ");
        m.append(symbol);
        m.append(" is ");
        m.append(segment_name_of(entry.segment));
        return Err(m);
    }
    let order_type_name = match order_type {
        OrderType::Market => "MARKET",
        OrderType::Limit => "LIMIT",
        OrderType::StopLoss => "STOP_LOSS",
    };
    if order_type == OrderType::Limit && !has_price {
        return Err(String::from_str("limit order requires a price"));
    }
    let uuid = fresh_token_text();
    let correlation_id = String::from_str("algomln-").concat(uuid.as_str());
    proof {
        reveal_strlit("algomln-");
        assert(correlation_id@.take(8) =~= "algomln-"@);
        assert(correlation_id@.skip(8) =~= uuid@);
    }
    let transaction_type = match side {
        OrderSide::Buy => String::from_str("BUY"),
        OrderSide::Sell => String::from_str("SELL"),
    };
    Ok(
        OrderPlan {
            dhan_client_id,
            correlation_id,
            transaction_type,
            exchange_segment: String::from_str(Segment::NseEq.as_dhan_string()),
            product_type: String::from_str("INTRADAY"),
            order_type: String::from_str(order_type_name),
            validity: String::from_str("DAY"),
            security_id: decimal(entry.security_id as u64),
            quantity,
            amo_time: String::from_str("OPEN"),
        },
    )
}

} // verus!
