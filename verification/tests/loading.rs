use astra::loader::{
    is_forward_reference_error, load_units_model, plan_load_order, LibraryLoader, LibraryUnit,
    LoadDecision, ModelUnit, UnitOutcome,
};
use astra::params::{coerce_param, parse_i32, ParamValue};
use astra::registrar::{collect_capability_units, CapabilityOutcome};
use astra::registry::{plan_import, record_import, ImportAction};
use astra::script::{prepare_prelude, prepare_script, split_lines};
use astra::strmap::StringMap;
use astra::text::to_lowercase_ascii;

fn unit(name: &str, source: &str) -> LibraryUnit {
    LibraryUnit {
        name: name.to_string(),
        source: source.to_string(),
    }
}

fn model(name: &str, defines: &[&str], uses: &[&str]) -> ModelUnit {
    ModelUnit {
        name: name.to_string(),
        defines: defines.iter().map(|s| s.to_string()).collect(),
        uses: uses.iter().map(|s| s.to_string()).collect(),
    }
}

#[test]
fn prelude_moves_to_front() {
    let units = vec![unit("b.lua", "B"), unit("Astra.LUA", "P"), unit("c.lua", "C")];
    let ordered = plan_load_order(units);
    assert_eq!(ordered.len(), 3);
    assert_eq!(ordered[0].name, "Astra.LUA".to_string());
    assert_eq!(ordered[1].name, "b.lua".to_string());
    assert_eq!(ordered[2].name, "c.lua".to_string());
}

#[test]
fn order_without_prelude_is_kept() {
    let units = vec![unit("b.lua", "B"), unit("a.lua", "A")];
    let ordered = plan_load_order(units);
    assert_eq!(ordered[0].name, "b.lua".to_string());
    assert_eq!(ordered[1].name, "a.lua".to_string());
}

#[test]
fn forward_reference_classification() {
    assert!(is_forward_reference_error(
        "runtime error: attempt to index a nil value (global 'Helper')"
    ));
    assert!(!is_forward_reference_error("syntax error near 'end'"));
}

#[test]
fn loader_defers_then_retries() {
    let mut loader = LibraryLoader::new();
    let d = loader.record_first_pass(
        unit("b.lua", "B"),
        UnitOutcome::Failed("attempt to index a nil value (global 'A')".to_string()),
    );
    assert_eq!(d, LoadDecision::Deferred);
    let d = loader.record_first_pass(unit("a.lua", "A"), UnitOutcome::Loaded);
    assert_eq!(d, LoadDecision::Loaded);
    let retry = loader.take_retry_queue();
    assert_eq!(retry.len(), 1);
    assert_eq!(retry[0].name, "b.lua".to_string());
    let d = loader.record_retry(unit("b.lua", "B"), UnitOutcome::Loaded);
    assert_eq!(d, LoadDecision::Loaded);
    assert_eq!(loader.loaded.len(), 2);
    assert_eq!(loader.loaded[0], "a.lua".to_string());
    assert_eq!(loader.loaded[1], "b.lua".to_string());
    assert_eq!(loader.errors.len(), 0);
}

#[test]
fn loader_other_failures_are_terminal() {
    let mut loader = LibraryLoader::new();
    let d = loader.record_first_pass(
        unit("x.lua", "X"),
        UnitOutcome::Failed("syntax error".to_string()),
    );
    assert_eq!(d, LoadDecision::Failed);
    assert_eq!(loader.errors.len(), 1);
    assert_eq!(loader.errors[0].unit, "x.lua".to_string());
    let d = loader.record_retry(
        unit("y.lua", "Y"),
        UnitOutcome::Failed("attempt to index a nil value".to_string()),
    );
    assert_eq!(d, LoadDecision::Failed);
    assert_eq!(loader.errors.len(), 2);
}

#[test]
fn forward_reference_resolves_in_retry_pass() {
    let b = model("b", &["B"], &["A"]);
    let a = model("a", &["A"], &[]);
    let report = load_units_model(vec![b, a]);
    assert_eq!(report.failed.len(), 0);
    assert_eq!(report.loaded.len(), 2);
    assert_eq!(report.loaded[0], "a".to_string());
    assert_eq!(report.loaded[1], "b".to_string());
}

#[test]
fn later_dependent_needs_no_retry() {
    let b = model("b", &["B"], &["A"]);
    let a = model("a", &["A"], &[]);
    let c = model("c", &["C"], &["A"]);
    let report = load_units_model(vec![b, a, c]);
    assert_eq!(report.failed.len(), 0);
    assert_eq!(report.loaded.len(), 3);
    // c is ready in the first pass, because a precedes it; only b retries
    assert_eq!(report.loaded[0], "a".to_string());
    assert_eq!(report.loaded[1], "c".to_string());
    assert_eq!(report.loaded[2], "b".to_string());
}

#[test]
fn unresolvable_unit_fails_after_retry() {
    let d = model("d", &["D"], &["Z"]);
    let report = load_units_model(vec![d]);
    assert_eq!(report.loaded.len(), 0);
    assert_eq!(report.failed.len(), 1);
    assert_eq!(report.failed[0].name, "d".to_string());
}

#[test]
fn prepare_script_drops_prelude_imports() {
    let source = "require(\"astra_bundle\")\nprint(1)\nlocal x = require(\"astra\")";
    assert_eq!(
        prepare_script(source),
        "print(1)\nlocal x = require(\"astra\")".to_string()
    );
}

#[test]
fn prepare_script_keeps_plain_requires() {
    let source = "require(\"socket\")\nprint(1)";
    assert_eq!(prepare_script(source), source.to_string());
}

#[test]
fn split_lines_matches_line_breaks() {
    let ls = split_lines("a\nb\n");
    assert_eq!(ls.len(), 3);
    assert_eq!(ls[0], "a".to_string());
    assert_eq!(ls[1], "b".to_string());
    assert_eq!(ls[2], "".to_string());
    let one = split_lines("abc");
    assert_eq!(one.len(), 1);
    assert_eq!(one[0], "abc".to_string());
}

#[test]
fn prepare_prelude_cuts_marked_regions() {
    let bundle = "A\n--- @START_REMOVING_PACK\nP\n--- @END_REMOVING_PACK\nB\n--- @START_REMOVING_RUNTIME\nR\n--- @END_REMOVING_RUNTIME\nC";
    let (lib, cleaned) = prepare_prelude(bundle);
    assert_eq!(
        lib,
        "A\nB\n--- @START_REMOVING_RUNTIME\nR\n--- @END_REMOVING_RUNTIME\nC".to_string()
    );
    assert_eq!(cleaned, "A\nB\nC".to_string());
}

#[test]
fn collect_capability_units_keeps_order_and_failures() {
    let outcomes = vec![
        CapabilityOutcome {
            name: "global.lua".to_string(),
            result: Ok(Some("G".to_string())),
        },
        CapabilityOutcome {
            name: "http.lua".to_string(),
            result: Ok(None),
        },
        CapabilityOutcome {
            name: "database.lua".to_string(),
            result: Err("no driver".to_string()),
        },
        CapabilityOutcome {
            name: "crypto.lua".to_string(),
            result: Ok(Some("C".to_string())),
        },
    ];
    let (units, failed) = collect_capability_units(outcomes);
    assert_eq!(units.len(), 2);
    assert_eq!(units[0].name, "global.lua".to_string());
    assert_eq!(units[0].source, "G".to_string());
    assert_eq!(units[1].name, "crypto.lua".to_string());
    assert_eq!(failed, vec!["database.lua".to_string()]);
}

#[test]
fn import_skips_the_bundle() {
    let cache: StringMap<u64> = StringMap::new();
    assert!(matches!(
        plan_import(&cache, &"my_astra_bundle".to_string()),
        ImportAction::Skip
    ));
}

#[test]
fn import_cleans_the_path_and_caches() {
    let mut cache: StringMap<u64> = StringMap::new();
    match plan_import(&cache, &"utils.helpers".to_string()) {
        ImportAction::Load { file_path } => assert_eq!(file_path, "utils/helpers.lua".to_string()),
        _ => panic!("expected a load"),
    }
    record_import(&mut cache, "utils.helpers".to_string(), 7);
    assert!(matches!(
        plan_import(&cache, &"utils.helpers".to_string()),
        ImportAction::Cached(7)
    ));
}

#[test]
fn lowering_is_ascii_only() {
    assert_eq!(to_lowercase_ascii("AbC-9"), "abc-9".to_string());
}

#[test]
fn parse_i32_accepts_signed_decimals() {
    assert_eq!(parse_i32("42"), Some(42));
    assert_eq!(parse_i32("+7"), Some(7));
    assert_eq!(parse_i32("-2147483648"), Some(-2147483648));
    assert_eq!(parse_i32("2147483647"), Some(2147483647));
}

#[test]
fn parse_i32_rejects_junk_and_overflow() {
    assert_eq!(parse_i32(""), None);
    assert_eq!(parse_i32("-"), None);
    assert_eq!(parse_i32("abc"), None);
    assert_eq!(parse_i32("1.5"), None);
    assert_eq!(parse_i32("2147483648"), None);
    assert_eq!(parse_i32("-2147483649"), None);
}

#[test]
fn params_prefer_integers() {
    match coerce_param("17".to_string()) {
        ParamValue::Int(v) => assert_eq!(v, 17),
        _ => panic!("expected an integer"),
    }
    match coerce_param("x17".to_string()) {
        ParamValue::Text(s) => assert_eq!(s, "x17".to_string()),
        _ => panic!("expected text"),
    }
}

#[test]
fn listener_address_defaults() {
    let cfg = astra::config::ServerConfig {
        hostname: None,
        port: None,
        compression: None,
    };
    assert_eq!(cfg.listener_address(), "127.0.0.1:8080".to_string());
    assert!(!cfg.use_compression());
}

#[test]
fn listener_address_uses_configuration() {
    let cfg = astra::config::ServerConfig {
        hostname: Some("0.0.0.0".to_string()),
        port: Some(3000),
        compression: Some(true),
    };
    assert_eq!(cfg.listener_address(), "0.0.0.0:3000".to_string());
    assert!(cfg.use_compression());
    assert_eq!(astra::config::u16_to_string(0), "0".to_string());
    assert_eq!(astra::config::u16_to_string(65535), "65535".to_string());
}

#[test]
fn units_sort_lexicographically() {
    let units = vec![
        unit("http.lua", "H"),
        unit("crypto.lua", "C"),
        unit("astra.lua", "A"),
        unit("crypto.lua", "C2"),
    ];
    let sorted = astra::loader::sort_units_by_name(units);
    assert_eq!(sorted.len(), 4);
    assert_eq!(sorted[0].name, "astra.lua".to_string());
    assert_eq!(sorted[1].name, "crypto.lua".to_string());
    assert_eq!(sorted[2].name, "crypto.lua".to_string());
    assert_eq!(sorted[3].name, "http.lua".to_string());
}

#[test]
fn socket_paths_are_policed() {
    assert!(astra::registrar::UnixSocketComponent::is_safe_path("/tmp/app.sock"));
    assert!(astra::registrar::UnixSocketComponent::is_safe_path("/var/run/d.sock"));
    assert!(astra::registrar::UnixSocketComponent::is_safe_path("/run/user/1000/x.sock"));
    assert!(!astra::registrar::UnixSocketComponent::is_safe_path("/etc/passwd"));
    assert!(!astra::registrar::UnixSocketComponent::is_safe_path("relative/path"));
}
