use algomln_core::plugin::api::{latest_candle_index, poll_events, poll_range, MarketEventKind};
use algomln_core::plugin::capability_listed;
use algomln_core::broker::{Segment, SymbolMap};
use algomln_core::feed::FeedManager;
use algomln_core::live::guard::IstDateTime;
use algomln_core::live::guard::Weekday;
use algomln_core::live::holidays::{CalendarDate, NseHolidayCalendar};
use algomln_core::plugin::api::OrderSide;
use algomln_core::plugin::events::{parse_event_filter, publish_targets, EventFilter, EventTag};
use algomln_core::plugin::execution::{
    check_gates, plugin_order_context, NoopExecutionApi, PluginSessionContextGuard, SessionContext,
    SessionFacts,
};
use algomln_core::plugin::host::PluginHost;
use algomln_core::plugin::loader::{EntryKind, PluginLoader};
use algomln_core::plugin::log::{log_file_name, needs_rotation, rotated_path, LogLevel, NamespacedLog, MAX_LOG_BYTES};
use algomln_core::plugin::manifest::{default_memory, extension_of, PluginManifest, PluginPermissions};
use algomln_core::plugin::owned::OwnedRegistry;
use algomln_core::plugin::registry::PluginRegistry;
use algomln_core::plugin::storage::{path_for, sanitize_key, select_keys};
use algomln_core::plugin::types::{
    Capability, NotificationKind, PluginError, PluginId, PluginMeta, PluginStatus, PluginVersion,
};

fn pid(s: &str) -> PluginId {
    PluginId(s.to_string())
}

fn manifest(id: &str, version: &str, caps: &[&str], entry: &str) -> PluginManifest {
    PluginManifest {
        id: id.to_string(),
        name: "My Plugin".to_string(),
        version: version.to_string(),
        description: "Test".to_string(),
        author: "Test".to_string(),
        capabilities: caps.iter().map(|c| c.to_string()).collect(),
        entry: entry.to_string(),
        permissions: PluginPermissions {
            network: false,
            file_system: false,
            max_memory_mb: 8,
            allowed_symbols: vec![],
        },
    }
}

fn meta(id: &str) -> PluginMeta {
    PluginMeta {
        id: pid(id),
        name: id.to_uppercase(),
        version: PluginVersion { major: 1, minor: 0, patch: 0 },
        description: String::new(),
        author: String::new(),
    }
}

#[test]
fn storage_key_sanitization() {
    let base = "/data/plugins/test-plugin";
    let path = path_for(base, "../../etc/passwd");
    assert_eq!(path, "/data/plugins/test-plugin/______etc_passwd.val");
    assert!(!path.contains(".."));
    let keys = select_keys(&vec!["______etc_passwd.val".to_string()], "");
    assert!(keys.iter().all(|k| !k.contains("..")));
}

#[test]
fn sanitized_keys_are_short_safe_and_non_empty() {
    assert_eq!(sanitize_key(""), "_empty_");
    assert_eq!(sanitize_key("a:b\\c/d"), "a_b_c_d");
    assert_eq!(sanitize_key("..."), "__.");
    assert_eq!(sanitize_key(&"k".repeat(250)).chars().count(), 200);
    assert_eq!(path_for("", "x"), "x.val");
    assert_eq!(path_for("dir/", "x"), "dir/x.val");
}

#[test]
fn listing_keys_filters_by_prefix() {
    let names = vec![
        "alpha.val".to_string(),
        "beta.val".to_string(),
        "alpha2.val".to_string(),
        "alpha.tmp".to_string(),
    ];
    assert_eq!(select_keys(&names, "alp"), vec!["alpha".to_string(), "alpha2".to_string()]);
    // An empty prefix is sanitized to `_empty_` like any other key.
    assert!(select_keys(&names, "").is_empty());
    assert_eq!(select_keys(&vec!["_empty_.val".to_string()], ""), vec!["_empty_".to_string()]);
}

#[test]
fn indicator_registry_dedup() {
    let mut registry: OwnedRegistry<u32> = OwnedRegistry::new("indicator");
    let pid_a = pid("plugin-a");
    let pid_b = pid("plugin-b");
    assert!(registry.register("my_ind", &pid_a, 1).is_ok());
    assert!(registry.register("my_ind", &pid_a, 2).is_ok());
    assert!(matches!(registry.register("my_ind", &pid_b, 3), Err(PluginError::ApiError(_))));
    registry.unregister_all_for(&pid_a);
    assert!(registry.list().is_empty());
}

#[test]
fn owned_registry_lists_sorted_and_keeps_other_owners() {
    let mut registry: OwnedRegistry<&str> = OwnedRegistry::new("DSL keyword");
    registry.register("zeta", &pid("a"), "z").unwrap();
    registry.register("alpha", &pid("b"), "x").unwrap();
    registry.register("mid", &pid("a"), "m").unwrap();
    assert_eq!(registry.list(), vec!["alpha".to_string(), "mid".to_string(), "zeta".to_string()]);
    match registry.register("alpha", &pid("a"), "y") {
        Err(PluginError::ApiError(m)) => assert_eq!(m, "DSL keyword 'alpha' already registered by plugin 'b'"),
        other => panic!("unexpected {other:?}"),
    }
    assert_eq!(registry.get("alpha"), Some(&"x"));
    registry.unregister_all_for(&pid("a"));
    assert_eq!(registry.list(), vec!["alpha".to_string()]);
    assert_eq!(registry.get("zeta"), None);
}

#[test]
fn manifest_validation() {
    let good = manifest("my-plugin", "0.1.0", &["Indicators"], "plugin.rhai");
    assert!(good.check(true).is_ok());
    let meta = good.to_meta().unwrap();
    assert_eq!(meta.id.as_str(), "my-plugin");
    assert_eq!(meta.name, "My Plugin");
    let bad = manifest("my-plugin", "bad", &[], "plugin.rhai");
    assert!(matches!(bad.check(true), Err(PluginError::ManifestParse(_))));
    let dll = manifest("my-plugin", "0.1.0", &[], "plugin.dll");
    assert!(matches!(dll.check(true), Err(PluginError::ManifestParse(_))));
}

#[test]
fn manifest_checks_report_each_problem() {
    let msg = |r: Result<(), PluginError>| match r {
        Err(PluginError::ManifestParse(m)) => m,
        other => panic!("unexpected {other:?}"),
    };
    assert_eq!(msg(manifest("My_Plugin", "1.0.0", &[], "a.rhai").check(true)), "id must be kebab-case");
    assert_eq!(msg(manifest("a", "1.0.0", &[], "a.rhai").check(true)), "id must be kebab-case");
    assert_eq!(msg(manifest("-ab", "1.0.0", &[], "a.rhai").check(true)), "id must be kebab-case");
    assert!(manifest("a-b", "1.0.0", &[], "a.rhai").check(true).is_ok());
    assert_eq!(msg(manifest("ab", "1.0", &[], "a.rhai").check(true)), "invalid version string: 1.0");
    assert_eq!(
        msg(manifest("ab", "1.x.0", &[], "a.rhai").check(true)),
        "invalid minor: invalid digit found in string"
    );
    assert_eq!(
        msg(manifest("ab", "1.0.", &[], "a.rhai").check(true)),
        "invalid patch: cannot parse integer from empty string"
    );
    assert_eq!(
        msg(manifest("ab", "99999999999.0.0", &[], "a.rhai").check(true)),
        "invalid major: number too large to fit in target type"
    );
    assert_eq!(
        msg(manifest("ab", "1.0.0", &["storage", "Teleport", "x"], "a.rhai").check(true)),
        "unknown capabilities: Teleport (unknown capability: teleport), x (unknown capability: x)"
    );
    assert_eq!(msg(manifest("ab", "1.0.0", &[], "a.rhai").check(false)), "entry file 'a.rhai' not found");
    assert_eq!(msg(manifest("ab", "1.0.0", &[], ".rhai").check(true)), "entry must be .rhai or .wasm");
    assert!(manifest("ab", "1.0.0", &[], "dir/x.wasm").check(true).is_ok());
}

#[test]
fn loader_picks_runtime_from_extension() {
    let plan = PluginLoader::load_from_dir(&manifest("ab", "2.3.4", &["ui-panels", "Storage"], "x.wasm"), true).unwrap();
    assert_eq!(plan.kind, EntryKind::Wasm);
    assert_eq!(plan.meta.version, PluginVersion { major: 2, minor: 3, patch: 4 });
    assert_eq!(plan.capabilities, vec![Capability::UiPanels, Capability::Storage]);
    assert_eq!(plan.max_memory_mb, 8);
    let plan = PluginLoader::load_from_dir(&manifest("ab", "0.0.1", &[], "x.rhai"), true).unwrap();
    assert_eq!(plan.kind, EntryKind::Rhai);
    assert!(PluginLoader::load_from_dir(&manifest("ab", "0.0.1", &[], "x.rhai"), false).is_err());
    assert_eq!(default_memory(), 32);
}

#[test]
fn extensions_follow_path_rules() {
    assert_eq!(extension_of("a/b.tar.gz"), Some(vec!['g', 'z']));
    assert_eq!(extension_of(".bashrc"), None);
    assert_eq!(extension_of("dir.d/file"), None);
    assert_eq!(extension_of("x."), Some(vec![]));
}

#[test]
fn versions_and_capabilities_round_trip() {
    let v = PluginVersion::try_from("10.0.7").unwrap();
    assert_eq!(v, PluginVersion { major: 10, minor: 0, patch: 7 });
    assert_eq!(v.to_string(), "10.0.7");
    assert_eq!(PluginVersion::try_from(&v.to_string()).unwrap(), v);
    assert_eq!(PluginVersion::try_from("+1.2.3").unwrap(), PluginVersion { major: 1, minor: 2, patch: 3 });
    for c in [
        Capability::MarketData,
        Capability::Execution,
        Capability::Storage,
        Capability::Events,
        Capability::Indicators,
        Capability::Analytics,
        Capability::DslExtension,
        Capability::UiPanels,
        Capability::Scheduler,
    ] {
        assert_eq!(Capability::try_from(c.as_str()).unwrap(), c);
    }
    assert_eq!(Capability::try_from("MARKET-DATA").unwrap(), Capability::MarketData);
    assert_eq!(Capability::try_from("Nope").unwrap_err(), "unknown capability: nope");
}

#[test]
fn error_and_notification_texts() {
    let e = PluginError::PermissionDenied { capability: "storage".to_string(), plugin_id: "p".to_string() };
    assert_eq!(e.to_string(), "permission denied for capability storage in plugin p");
    assert_eq!(PluginError::NotFound("x".to_string()).to_string(), "not found: x");
    assert_eq!(PluginError::ManifestParse("m".to_string()).to_string(), "manifest parse error: m");
    assert_eq!(NotificationKind::Warning.to_string(), "warning");
    assert_eq!(pid("abc").to_string(), "abc");
    assert_eq!(PluginId::from("q".to_string()).as_str(), "q");
}

#[test]
fn host_grants_only_declared_capabilities() {
    let host = PluginHost::new(pid("p1"), vec![Capability::Storage]);
    assert!(host.require_capability(&Capability::Storage).is_ok());
    match host.require_capability(&Capability::Execution) {
        Err(PluginError::PermissionDenied { capability, plugin_id }) => {
            assert_eq!(capability, "execution");
            assert_eq!(plugin_id, "p1");
        }
        other => panic!("unexpected {other:?}"),
    }
}

#[test]
fn event_filters_select_subscribers() {
    assert!(EventFilter::All.matches(EventTag::SystemShutdown));
    assert!(EventFilter::TradeExecuted.matches(EventTag::TradeExecuted));
    assert!(!EventFilter::TradeExecuted.matches(EventTag::CandleProcessed));
    let subs = vec![EventFilter::TradeExecuted, EventFilter::All, EventFilter::CandleProcessed];
    assert_eq!(publish_targets(&subs, EventTag::CandleProcessed), vec![1, 2]);
    assert_eq!(publish_targets(&subs, EventTag::TradeExecuted), vec![0, 1]);
    assert_eq!(parse_event_filter("Candle"), EventFilter::CandleProcessed);
    assert_eq!(parse_event_filter("shutdown"), EventFilter::SystemShutdown);
    assert_eq!(parse_event_filter("typo"), EventFilter::All);
}

#[test]
fn plugin_lifecycle_transitions() {
    let mut reg = PluginRegistry::new();
    let (id, outcome) = reg.register(meta("b-plugin"), vec![Capability::Storage], Ok(()));
    assert_eq!(id, "b-plugin");
    assert!(outcome.is_ok());
    reg.register(meta("a-plugin"), vec![], Err(PluginError::LoadFailed("boom".to_string())));
    assert!(matches!(reg.get_status(&pid("a-plugin")), Some(PluginStatus::Failed(m)) if m == "load failed: boom"));
    match reg.enable_check(&pid("a-plugin")) {
        Err(PluginError::ApiError(m)) => assert_eq!(m, "cannot enable failed plugin: load failed: boom"),
        other => panic!("unexpected {other:?}"),
    }
    assert!(reg.enable_check(&pid("b-plugin")).is_ok());
    assert!(reg.enable_finish(&pid("b-plugin"), Ok(())).is_ok());
    assert!(matches!(reg.get_status(&pid("b-plugin")), Some(PluginStatus::Enabled)));
    assert!(reg.disable_check(&pid("b-plugin")).is_ok());
    assert!(reg.disable_finish(&pid("b-plugin"), Ok(())).is_ok());
    assert!(matches!(reg.get_status(&pid("b-plugin")), Some(PluginStatus::Disabled)));
    let list = reg.list();
    assert_eq!(list.len(), 2);
    assert_eq!(list[0].meta.id.as_str(), "a-plugin");
    assert_eq!(list[1].meta.id.as_str(), "b-plugin");
    assert!(reg.unload(&pid("b-plugin")).is_ok());
    assert!(reg.get_status(&pid("b-plugin")).is_none());
    assert!(matches!(reg.unload(&pid("b-plugin")), Err(PluginError::NotFound(m)) if m == "b-plugin"));
    assert!(matches!(reg.enable_check(&pid("zz")), Err(PluginError::NotFound(_))));
}

fn equities() -> SymbolMap {
    let mut m = SymbolMap::empty();
    m.insert_entry("RELIANCE", 2885, Segment::NseEq);
    m.insert_entry("NIFTY", 999, Segment::Index);
    m
}

fn monday_ten() -> IstDateTime {
    IstDateTime {
        date: CalendarDate { year: 2026, month: 1, day: 5 },
        weekday: Weekday::Mon,
        hour: 10,
        minute: 0,
        second: 0,
        nanosecond: 0,
    }
}

fn running() -> Option<SessionFacts> {
    Some(SessionFacts { broker_stale: false, cancelled: false, paused_for_entries: false })
}

#[test]
fn gate_segment_check_rejects_non_nse_eq() {
    let map = equities();
    let entry = map.lookup("NIFTY").expect("nifty is in the map");
    assert_eq!(entry.segment, Segment::Index);
    let err = check_gates(running(), "NIFTY", OrderSide::Buy, &map, monday_ten(), &NseHolidayCalendar::new()).unwrap_err();
    assert!(err.contains("Phase 8 only supports NSE equity"));
}

#[test]
fn gate_no_session_returns_error() {
    let err = check_gates(None, "RELIANCE", OrderSide::Buy, &equities(), monday_ten(), &NseHolidayCalendar::new())
        .unwrap_err();
    assert!(err.contains("no live session"), "got: {err}");
}

#[test]
fn plugin_gates_follow_session_state() {
    let cal = NseHolidayCalendar::new();
    let map = equities();
    assert!(check_gates(running(), "RELIANCE", OrderSide::Buy, &map, monday_ten(), &cal).is_ok());
    let paused = Some(SessionFacts { broker_stale: false, cancelled: false, paused_for_entries: true });
    assert!(check_gates(paused.clone(), "RELIANCE", OrderSide::Sell, &map, monday_ten(), &cal).is_ok());
    assert_eq!(
        check_gates(paused, "RELIANCE", OrderSide::Buy, &map, monday_ten(), &cal).unwrap_err(),
        "plugin order rejected: live session is paused (BUY suppressed); symbol 'RELIANCE'"
    );
    let cancelled = Some(SessionFacts { broker_stale: false, cancelled: true, paused_for_entries: false });
    assert_eq!(
        check_gates(cancelled, "RELIANCE", OrderSide::Sell, &map, monday_ten(), &cal).unwrap_err(),
        "plugin order rejected: live session has been stopped"
    );
    let mut saturday = monday_ten();
    saturday.weekday = Weekday::Sat;
    assert!(check_gates(running(), "RELIANCE", OrderSide::Sell, &map, saturday, &cal)
        .unwrap_err()
        .contains("market is closed"));
    assert_eq!(
        check_gates(running(), "TCS", OrderSide::Sell, &map, monday_ten(), &cal).unwrap_err(),
        "plugin order rejected: symbol 'TCS' is not in the symbol map"
    );
}

fn ctx(id: &str, name: &str) -> SessionContext {
    SessionContext { strategy_id: id.to_string(), strategy_name: name.to_string(), mode: "live".to_string() }
}

#[test]
fn plugin_session_context_guard_restores_previous() {
    let mut slot = Some(ctx("engine-strategy", "Engine"));
    let guard = PluginSessionContextGuard::new(&mut slot, ctx("plugin:engine-strategy", "Engine [plugin order]"));
    assert_eq!(slot.as_ref().unwrap().strategy_id, "plugin:engine-strategy");
    guard.restore(&mut slot);
    let restored = slot.unwrap();
    assert_eq!(restored.strategy_id, "engine-strategy");
    assert_eq!(restored.strategy_name, "Engine");
}

#[test]
fn plugin_session_context_guard_handles_no_prior() {
    let mut slot: Option<SessionContext> = None;
    let guard = PluginSessionContextGuard::new(&mut slot, ctx("plugin:standalone", "Plugin Order"));
    assert!(slot.is_some());
    guard.restore(&mut slot);
    assert!(slot.is_none(), "guard must restore None when there was no prior context");
}

#[test]
fn plugin_orders_are_attributed_to_the_plugin() {
    let c = plugin_order_context("s1", "Momentum");
    assert_eq!(c.strategy_id, "plugin:s1");
    assert_eq!(c.strategy_name, "Momentum [plugin order]");
    assert_eq!(c.mode, "live");
    assert!(matches!(NoopExecutionApi.submit_order(), Err(PluginError::ApiError(_))));
    assert!(matches!(NoopExecutionApi.cancel_order("1"), Err(PluginError::ApiError(_))));
}

#[test]
fn log_lines_and_rotation() {
    let log = NamespacedLog::new(pid("p"));
    assert_eq!(log.line(LogLevel::Warn, "hi"), "[plugin:p] [WARN] hi");
    assert_eq!(rotated_path("/logs/plugin-x.log"), "/logs/plugin-x.log.1");
    assert_eq!(log_file_name(&pid("x")), "plugin-x.log");
    assert!(!needs_rotation(MAX_LOG_BYTES - 10, 10));
    assert!(needs_rotation(MAX_LOG_BYTES - 10, 11));
    assert!(needs_rotation(0, u64::MAX));
}

#[test]
fn feed_subscriptions_are_capped() {
    let mut feed = FeedManager::new();
    assert!(feed.subscribe(vec![" RELIANCE ".to_string(), "".to_string(), "TCS".to_string()]).is_ok());
    let mut subs = feed.subscriptions();
    subs.sort();
    assert_eq!(subs, vec!["RELIANCE".to_string(), "TCS".to_string()]);
    let many: Vec<String> = (0..999).map(|i| format!("S{i}")).collect();
    assert_eq!(
        feed.subscribe(many.clone()).unwrap_err(),
        "Dhan feed supports up to 1000 subscriptions"
    );
    assert_eq!(feed.subscriptions().len(), 2);
    assert!(feed.unsubscribe(vec!["TCS ".to_string()]).is_ok());
    assert!(feed.subscribe(many).is_ok());
    assert_eq!(feed.subscriptions().len(), 1000);
}

#[test]
fn market_poll_window_and_events() {
    assert_eq!(poll_range(1_700_000_060), (1_700_000_000, 1_700_000_060));
    let events = poll_events("1333", Some(3));
    assert_eq!(events.len(), 2);
    assert_eq!(events[0].kind, MarketEventKind::Tick);
    assert_eq!(events[1].kind, MarketEventKind::Candle);
    assert_eq!(events[1].symbol, "1333");
    assert_eq!(poll_events("1333", Some(0)).len(), 1);
    assert_eq!(poll_events("1333", None).len(), 1);
    assert_eq!(latest_candle_index(4).unwrap(), 3);
    assert_eq!(latest_candle_index(0).unwrap_err().to_string(), "api error: no candles returned");
}

#[test]
fn plugin_capability_lookup() {
    let caps = [Capability::Storage, Capability::Events];
    assert!(capability_listed(&caps, &Capability::Events));
    assert!(!capability_listed(&caps, &Capability::Execution));
    assert!(!capability_listed(&[], &Capability::Storage));
}

#[test]
fn plugin_list_keeps_descriptions() {
    let mut reg = PluginRegistry::new();
    reg.register(meta("x-plugin"), vec![], Ok(()));
    let list = reg.list();
    assert_eq!(list[0].meta.name, "X-PLUGIN");
    assert_eq!(list[0].meta.version, PluginVersion { major: 1, minor: 0, patch: 0 });
}

#[test]
fn owned_registry_keeps_values_of_other_owners() {
    let mut registry: OwnedRegistry<u32> = OwnedRegistry::new("indicator");
    registry.register("a1", &pid("a"), 10).unwrap();
    registry.register("b1", &pid("b"), 20).unwrap();
    registry.register("a2", &pid("a"), 30).unwrap();
    registry.unregister_all_for(&pid("a"));
    assert_eq!(registry.get("b1"), Some(&20));
    assert_eq!(registry.get("a1"), None);
}

#[test]
fn failing_hooks_keep_the_prior_status() {
    let mut reg = PluginRegistry::new();
    reg.register(meta("p-plugin"), vec![], Ok(()));
    assert!(reg.enable_check(&pid("p-plugin")).is_ok());
    assert!(reg.enable_finish(&pid("p-plugin"), Ok(())).is_ok());
    assert!(reg.enable_check(&pid("p-plugin")).is_ok());
    let err = reg.enable_finish(&pid("p-plugin"), Err(PluginError::Timeout("hook".to_string())));
    assert!(matches!(err, Err(PluginError::Timeout(_))));
    assert!(matches!(reg.get_status(&pid("p-plugin")), Some(PluginStatus::Enabled)));
    assert!(reg.disable_check(&pid("p-plugin")).is_ok());
    assert!(reg.disable_finish(&pid("p-plugin"), Err(PluginError::ApiError("no".to_string()))).is_err());
    assert!(matches!(reg.get_status(&pid("p-plugin")), Some(PluginStatus::Enabled)));
    assert!(reg.disable_finish(&pid("p-plugin"), Ok(())).is_ok());
    assert!(reg.enable_check(&pid("p-plugin")).is_ok());
    assert!(reg.enable_finish(&pid("p-plugin"), Err(PluginError::ApiError("no".to_string()))).is_err());
    assert!(matches!(reg.get_status(&pid("p-plugin")), Some(PluginStatus::Disabled)));
}
