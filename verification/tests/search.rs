use algomln_core::search::{fuzzy_search, is_subsequence, score_match, IndexEntry, SymbolKind};

fn entry(name: &str) -> IndexEntry {
    IndexEntry {
        keyword: "NIFTY_50".to_string(),
        display_name: name.to_string(),
        symbols: vec![],
        last_updated: "never".to_string(),
    }
}

#[test]
fn tier_5_exact() {
    assert_eq!(score_match("reliance", "reliance"), 1000);
}

#[test]
fn tier_4_prefix_prefers_shorter() {
    let four = score_match("rel", "rela");
    let five = score_match("rel", "relat");
    assert!(four > five);
    assert_eq!(four, 800 + (100 - 4));
}

#[test]
fn tier_5_beats_tier_4() {
    assert!(score_match("rel", "rel") > score_match("rel", "relx"));
}

#[test]
fn tier_3_contains() {
    assert_eq!(score_match("iance", "reliance"), 500);
}

#[test]
fn tier_2_subsequence() {
    assert_eq!(score_match("rln", "reliance"), 300);
}

#[test]
fn tier_1_trigram_below_threshold_returns_zero() {
    assert_eq!(score_match("xyz", "aaaa"), 0);
}

#[test]
fn tier_1_trigram_above_threshold() {
    let s = score_match("bankofiindia", "bankofindia");
    assert!(s >= 50 && s <= 200, "expected 50..200, got {}", s);
}

#[test]
fn is_subsequence_works() {
    assert!(is_subsequence("rln", "reliance"));
    assert!(is_subsequence("ab", "abcdef"));
    assert!(!is_subsequence("abc", "acb"));
    assert!(is_subsequence("", "anything"));
}

#[test]
fn empty_query_returns_empty() {
    let eq = vec![("RELIANCE".to_string(), 2885u32)];
    assert!(fuzzy_search("", &eq, &vec![], 5).is_empty());
    assert!(fuzzy_search("   ", &eq, &vec![], 5).is_empty());
}

#[test]
fn equity_hit() {
    let eq = vec![("RELIANCE".to_string(), 2885u32), ("HDFCBANK".to_string(), 1333u32)];
    let r = fuzzy_search("rel", &eq, &vec![], 5);
    assert_eq!(r.len(), 1);
    assert_eq!(r[0].symbol, "RELIANCE");
    assert_eq!(r[0].security_id, Some(2885));
    assert!(matches!(r[0].kind, SymbolKind::Equity));
}

#[test]
fn index_hit_uses_display_name() {
    let eq: Vec<(String, u32)> = vec![];
    let entries = vec![entry("NIFTY 50")];
    let r = fuzzy_search("nifty 50", &eq, &entries, 5);
    assert_eq!(r.len(), 1);
    assert_eq!(r[0].symbol, "NIFTY 50");
    assert_eq!(r[0].security_id, None);
    assert!(matches!(r[0].kind, SymbolKind::Index));
}

#[test]
fn index_hit_uses_keyword() {
    let eq: Vec<(String, u32)> = vec![];
    let entries = vec![entry("NIFTY 50")];
    let r = fuzzy_search("nifty_50", &eq, &entries, 5);
    assert_eq!(r.len(), 1);
}

#[test]
fn max_results_truncates() {
    let mut eq = Vec::new();
    for i in 0..20 {
        eq.push((format!("ABC{}", i), i as u32));
    }
    let r = fuzzy_search("abc", &eq, &vec![], 3);
    assert_eq!(r.len(), 3);
}

#[test]
fn ranking_orders_higher_score_first() {
    let eq = vec![
        ("RELIANCE".to_string(), 1u32),
        ("REL".to_string(), 2u32),
        ("ASDFRELIANCE".to_string(), 3u32),
    ];
    let r = fuzzy_search("rel", &eq, &vec![], 5);
    assert_eq!(r[0].symbol, "REL");
    assert_eq!(r[1].symbol, "RELIANCE");
    assert_eq!(r[2].symbol, "ASDFRELIANCE");
}

// ---- further cases ----

#[test]
fn equal_scores_order_by_symbol() {
    let eq = vec![("ABD".to_string(), 1u32), ("ABC".to_string(), 2u32)];
    let r = fuzzy_search("ab", &eq, &vec![], 5);
    assert_eq!(r.len(), 2);
    assert_eq!(r[0].symbol, "ABC");
    assert_eq!(r[1].symbol, "ABD");
}

#[test]
fn exact_match_outranks_every_other_tier() {
    assert_eq!(score_match("tcs", "tcs"), 1000);
    assert!(score_match("tcs", "tcsx") <= 900);
    assert!(score_match("a", "a") > score_match("a", "ab"));
}

#[test]
fn prefix_bonus_is_capped_for_long_candidates() {
    let long = format!("rel{}", "x".repeat(200));
    assert_eq!(score_match("rel", &long), 800);
}

#[test]
fn max_results_zero_returns_nothing() {
    let eq = vec![("RELIANCE".to_string(), 2885u32)];
    assert!(fuzzy_search("rel", &eq, &vec![], 0).is_empty());
}

#[test]
fn padded_upper_case_query_finds_the_same_hits() {
    let eq = vec![("RELIANCE".to_string(), 2885u32), ("RELAXO".to_string(), 10101u32), ("TCS".to_string(), 11536u32)];
    let entries = vec![entry("NIFTY 50")];
    let a = fuzzy_search("rel", &eq, &entries, 5);
    let b = fuzzy_search(&format!("  {}\t", "rel".to_ascii_uppercase()), &eq, &entries, 5);
    let c = fuzzy_search("rel", &eq, &entries, 5);
    let syms = |v: &Vec<algomln_core::search::SymbolMatch>| v.iter().map(|m| m.symbol.clone()).collect::<Vec<_>>();
    assert_eq!(syms(&a), syms(&b));
    assert_eq!(syms(&a), syms(&c));
    assert_eq!(syms(&a), vec!["RELAXO".to_string(), "RELIANCE".to_string()]);
}
