use std::str::FromStr;
use algomln_core::broker::{chunk_date_range, order_status, Segment, SymbolMap, INTRADAY_CHUNK_MS};
use algomln_core::dhan::{plan_order, unix_ms_to_dhan_date, unix_ms_to_dhan_datetime};
use algomln_core::models::{OrderSide, OrderStatus, OrderType};

#[test]
fn parse_minimal_csv() {
    let csv = "EXCH_ID,SEGMENT,SYMBOL_NAME,SECURITY_ID\n\
               NSE,E,RELIANCE,2885\n\
               NSE,D,NIFTY,0\n\
               BSE,E,RELIANCE,500325\n";
    let map = SymbolMap::parse_csv(csv).unwrap();
    assert_eq!(map.get("RELIANCE"), Some(2885));
    assert_eq!(map.get("reliance"), Some(2885));
    assert_eq!(map.get("NIFTY"), None);
    assert_eq!(map.len(), 1);
}

#[test]
fn empty_map_is_empty() {
    let map = SymbolMap::empty();
    assert!(map.is_empty());
    assert_eq!(map.get("RELIANCE"), None);
}

#[test]
fn resolve_many_splits_found_and_missing() {
    let map = SymbolMap::empty();
    let symbols = vec!["A".to_string(), "B".to_string()];
    let (found, missing) = map.resolve_many(&symbols);
    assert!(found.is_empty());
    assert_eq!(missing, symbols);
}

#[test]
fn parsed_entries_are_nse_equity() {
    let csv = "EXCH_ID,SEGMENT,SYMBOL_NAME,SECURITY_ID\n\
               NSE,E,RELIANCE,2885\n";
    let map = SymbolMap::parse_csv(csv).unwrap();
    let entry = map.lookup("reliance").expect("case-insensitive lookup");
    assert_eq!(entry.security_id, 2885);
    assert_eq!(entry.segment, Segment::NseEq);
}

#[test]
fn insert_entry_records_segment() {
    let mut map = SymbolMap::empty();
    map.insert_entry("BANKNIFTY", 1234, Segment::NseFno);
    let entry = map.lookup("BANKNIFTY").unwrap();
    assert_eq!(entry.security_id, 1234);
    assert_eq!(entry.segment, Segment::NseFno);
    assert_eq!(map.get("BANKNIFTY"), Some(1234));
}

#[test]
fn segment_as_dhan_string() {
    assert_eq!(Segment::NseEq.as_dhan_string(), "NSE_EQ");
    assert_eq!(Segment::NseFno.as_dhan_string(), "NSE_FNO");
}

#[test]
fn maps_dhan_order_status_strings() {
    assert_eq!(order_status("TRANSIT"), OrderStatus::Transit);
    assert_eq!(order_status("pending"), OrderStatus::Pending);
    assert_eq!(order_status("TRADED"), OrderStatus::Traded);
    assert_eq!(order_status("REJECTED"), OrderStatus::Rejected);
    assert_eq!(order_status("CANCELLED"), OrderStatus::Cancelled);
    assert_eq!(order_status("EXPIRED"), OrderStatus::Expired);
    assert_eq!(
        order_status("SOMETHING_ELSE"),
        OrderStatus::Unknown("SOMETHING_ELSE".to_string())
    );
}

#[test]
fn converts_unix_ms_to_dhan_date() {
    assert_eq!(unix_ms_to_dhan_date(1_704_067_200_000).unwrap(), "2024-01-01");
}

#[test]
fn converts_unix_ms_to_dhan_datetime() {
    assert_eq!(
        unix_ms_to_dhan_datetime(1_704_067_200_000).unwrap(),
        "2024-01-01 00:00:00"
    );
}

#[test]
fn chunks_date_range_into_89_day_windows() {
    let from = 0i64;
    let to = 200 * 24 * 60 * 60 * 1_000;
    let chunks = chunk_date_range(from, to);
    assert_eq!(chunks.len(), 3);
    assert_eq!(chunks[0].0, 0);
    assert_eq!(chunks[1].0, INTRADAY_CHUNK_MS + 1);
    assert_eq!(chunks[2].1, to);
}

#[test]
fn single_chunk_when_range_under_89_days() {
    let from = 0i64;
    let to = 10 * 24 * 60 * 60 * 1_000;
    let chunks = chunk_date_range(from, to);
    assert_eq!(chunks.len(), 1);
    assert_eq!(chunks[0], (from, to));
}

#[test]
fn test_place_order_rejects_non_equity() {
    let mut map = SymbolMap::empty();
    map.insert_entry("BANKNIFTY", 1234, Segment::NseFno);
    let error = plan_order(
        &Some("client-1".to_string()),
        &map,
        "BANKNIFTY",
        OrderSide::Buy,
        OrderType::Market,
        1,
        false,
    )
    .expect_err("non-equity order must be rejected");
    assert!(
        error.contains("Phase 7 only supports NSE equity"),
        "unexpected error: {error}"
    );
}

#[test]
fn test_correlation_id_is_present() {
    let mut map = SymbolMap::empty();
    map.insert_entry("RELIANCE", 2885, Segment::NseEq);
    let plan = plan_order(
        &Some("client".to_string()),
        &map,
        "RELIANCE",
        OrderSide::Buy,
        OrderType::Market,
        1,
        false,
    )
    .unwrap();
    assert!(
        plan.correlation_id.starts_with("algomln-"),
        "correlationId was {}",
        plan.correlation_id
    );
}

// ---- further cases ----

#[test]
fn lookup_ignores_whitespace_and_later_insert_overwrites() {
    let mut map = SymbolMap::empty();
    map.insert_entry("  tcs ", 11536, Segment::NseEq);
    assert_eq!(map.get("TCS"), Some(11536));
    map.insert_entry("TCS", 42, Segment::Bse);
    let e = map.lookup("tcs").unwrap();
    assert_eq!(e.security_id, 42);
    assert_eq!(e.segment, Segment::Bse);
    assert_eq!(map.len(), 1);
}

#[test]
fn parse_csv_first_row_wins_and_underlying_fallback() {
    let csv = "EXCH_ID,SEGMENT,SYMBOL_NAME,UNDERLYING_SYMBOL,SECURITY_ID\n\
               NSE,E,INFY,,1594\n\
               NSE,E,INFY,,9999\n\
               NSE,E,,WIPRO,3787\n\
               NSE,E,  ,  ,1\n\
               NSE,E,HEXID,,0x10\n\
               NSE,E,BADID,,abc\n";
    let map = SymbolMap::parse_csv(csv).unwrap();
    assert_eq!(map.get("INFY"), Some(1594));
    assert_eq!(map.get("WIPRO"), Some(3787));
    assert_eq!(map.get("HEXID"), Some(16));
    assert_eq!(map.get("BADID"), None);
    assert_eq!(map.len(), 3);
}

#[test]
fn resolve_many_keeps_input_order() {
    let mut map = SymbolMap::empty();
    map.insert_entry("B", 2, Segment::NseEq);
    map.insert_entry("A", 1, Segment::NseEq);
    let symbols = vec!["a".to_string(), "X".to_string(), "b".to_string()];
    let (found, missing) = map.resolve_many(&symbols);
    assert_eq!(found, vec![("a".to_string(), 1), ("b".to_string(), 2)]);
    assert_eq!(missing, vec!["X".to_string()]);
}

#[test]
fn chunk_range_empty_when_from_not_below_to() {
    assert!(chunk_date_range(10, 10).is_empty());
    assert!(chunk_date_range(10, 5).is_empty());
}

#[test]
fn chunk_range_leaves_last_millisecond_when_window_ends_one_short() {
    let chunks = chunk_date_range(0, INTRADAY_CHUNK_MS + 1);
    assert_eq!(chunks, vec![(0, INTRADAY_CHUNK_MS)]);
}

#[test]
fn order_status_accepts_aliases() {
    assert_eq!(order_status(" filled "), OrderStatus::Traded);
    assert_eq!(order_status("complete"), OrderStatus::Traded);
    assert_eq!(order_status("Canceled"), OrderStatus::Cancelled);
    assert_eq!(order_status("weird"), OrderStatus::Unknown("WEIRD".to_string()));
}

#[test]
fn dhan_dates_pad_fields() {
    // 2009-02-13 23:31:30 UTC
    assert_eq!(unix_ms_to_dhan_datetime(1_234_567_890_000).unwrap(), "2009-02-13 23:31:30");
    assert_eq!(unix_ms_to_dhan_date(-86_400_000).unwrap(), "1969-12-31");
}

#[test]
fn plan_order_fills_request_fields() {
    let mut map = SymbolMap::empty();
    map.insert_entry("RELIANCE", 2885, Segment::NseEq);
    let plan = plan_order(&Some("c1".to_string()), &map, "reliance", OrderSide::Sell, OrderType::Limit, 7, true).unwrap();
    assert_eq!(plan.dhan_client_id, "c1");
    assert_eq!(plan.transaction_type, "SELL");
    assert_eq!(plan.exchange_segment, "NSE_EQ");
    assert_eq!(plan.product_type, "INTRADAY");
    assert_eq!(plan.order_type, "LIMIT");
    assert_eq!(plan.validity, "DAY");
    assert_eq!(plan.security_id, "2885");
    assert_eq!(plan.quantity, 7);
    assert_eq!(plan.amo_time, "OPEN");
    assert_eq!(plan.correlation_id.len(), 44);
}

#[test]
fn plan_order_refusals() {
    let mut map = SymbolMap::empty();
    map.insert_entry("RELIANCE", 2885, Segment::NseEq);
    assert_eq!(
        plan_order(&None, &map, "RELIANCE", OrderSide::Buy, OrderType::Market, 1, false).unwrap_err(),
        "Dhan client id is not configured"
    );
    assert_eq!(
        plan_order(&Some("c".to_string()), &map, "TCS", OrderSide::Buy, OrderType::Market, 1, false).unwrap_err(),
        "symbol not in map: TCS"
    );
    assert_eq!(
        plan_order(&Some("c".to_string()), &map, "RELIANCE", OrderSide::Buy, OrderType::Limit, 1, false).unwrap_err(),
        "limit order requires a price"
    );
    let mut m2 = SymbolMap::empty();
    m2.insert_entry("NIFTY", 13, Segment::Index);
    assert_eq!(
        plan_order(&Some("c".to_string()), &m2, "NIFTY", OrderSide::Buy, OrderType::Market, 1, false).unwrap_err(),
        "Phase 7 only supports NSE equity intraday trading; symbol NIFTY is Index"
    );
}

#[test]
fn timeframe_from_str_matches_parse() {
    assert_eq!(algomln_core::broker::Timeframe::from_str(" m5 "), Ok(algomln_core::broker::Timeframe::M5));
    assert_eq!(
        algomln_core::broker::Timeframe::from_str("2h").unwrap_err(),
        "Unsupported timeframe: 2h"
    );
}

#[test]
fn insert_entry_grows_only_for_new_keys() {
    let mut map = SymbolMap::empty();
    map.insert_entry("TCS", 11536, Segment::NseEq);
    assert_eq!(map.len(), 1);
    map.insert_entry(" tcs ", 11537, Segment::NseEq);
    assert_eq!(map.len(), 1);
    assert_eq!(map.get("TCS"), Some(11537));
    map.insert_entry("INFY", 1594, Segment::NseEq);
    assert_eq!(map.len(), 2);
}

#[test]
fn dhan_symbol_round_trip() {
    let s = algomln_core::broker::DhanSymbol::parse("2885|NSE_FNO|FUTSTK", "NSE_EQ", "EQUITY");
    assert_eq!((s.security_id.as_str(), s.exchange_segment.as_str(), s.instrument.as_str()), ("2885", "NSE_FNO", "FUTSTK"));
    let s = algomln_core::broker::DhanSymbol::parse("2885", "NSE_EQ", "EQUITY");
    assert_eq!((s.security_id.as_str(), s.exchange_segment.as_str(), s.instrument.as_str()), ("2885", "NSE_EQ", "EQUITY"));
}

#[test]
fn correlation_id_carries_a_v4_uuid() {
    let mut map = SymbolMap::empty();
    map.insert_entry("RELIANCE", 2885, Segment::NseEq);
    let plan = plan_order(&Some("c1".to_string()), &map, "RELIANCE", OrderSide::Buy, OrderType::Market, 1, false).unwrap();
    let id: Vec<char> = plan.correlation_id.chars().collect();
    assert_eq!(&plan.correlation_id[..8], "algomln-");
    assert_eq!(id[8 + 14], '4');
    assert_eq!(id[8 + 8], '-');
}

#[test]
fn chunking_near_the_top_of_the_range() {
    let to = i64::MAX - INTRADAY_CHUNK_MS;
    let chunks = chunk_date_range(to - 10, to);
    assert_eq!(chunks, vec![(to - 10, to)]);
}
