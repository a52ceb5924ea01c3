use astra::cookie::{LuaCookie, SetCookieDirective};
use astra::dispatch::{
    admit_body, assemble_response, RequestDispatch, ResponseBody, ReturnKind, WireResponse,
};
use astra::response::{ResponseError, ResponseLua};
use astra::routes::{
    build_dispatch_table, decode_route, Method, RawRouteEntry, RouteConfiguration, RouteMatch,
    StaticKind,
};

fn entry(
    path: &str,
    method: Method,
    function: u64,
    static_dir: Option<&str>,
    static_file: Option<&str>,
    config: Option<RouteConfiguration>,
) -> RawRouteEntry {
    RawRouteEntry {
        path: Some(path.to_string()),
        method: Some(method),
        function: Some(function),
        static_dir: static_dir.map(|s| s.to_string()),
        static_file: static_file.map(|s| s.to_string()),
        config,
    }
}

#[test]
fn header_last_write_wins() {
    let mut ctx = ResponseLua::new();
    assert!(ctx.set_header("x".to_string(), "1".to_string()).is_ok());
    assert!(ctx.set_header("x".to_string(), "2".to_string()).is_ok());
    let headers = ctx.get_headers();
    assert_eq!(headers.len(), 1);
    assert_eq!(headers.get(&"x".to_string()), Some(&"2".to_string()));
}

#[test]
fn header_names_are_lowered() {
    let mut ctx = ResponseLua::new();
    assert!(ctx.set_header("X-Test".to_string(), "v".to_string()).is_ok());
    assert_eq!(
        ctx.get_headers().get(&"x-test".to_string()),
        Some(&"v".to_string())
    );
    assert!(ctx.get_headers().get(&"X-Test".to_string()).is_none());
}

#[test]
fn header_rejects_bad_name_and_value() {
    let mut ctx = ResponseLua::new();
    assert_eq!(
        ctx.set_header("bad name".to_string(), "v".to_string()),
        Err(ResponseError::InvalidHeaderName)
    );
    assert_eq!(
        ctx.set_header("ok".to_string(), "bad\nvalue".to_string()),
        Err(ResponseError::InvalidHeaderValue)
    );
    assert_eq!(ctx.get_headers().len(), 0);
}

#[test]
fn remove_header_removes() {
    let mut ctx = ResponseLua::new();
    assert!(ctx.set_header("a".to_string(), "1".to_string()).is_ok());
    assert!(ctx.remove_header("A".to_string()).is_ok());
    assert!(ctx.get_headers().get(&"a".to_string()).is_none());
}

#[test]
fn cookie_ops_last_add_wins() {
    let mut ctx = ResponseLua::new();
    let c1 = LuaCookie::new("c1".to_string(), "v1".to_string());
    ctx.set_cookie(c1);
    ctx.remove_cookie("c1".to_string());
    let c1b = LuaCookie::new("c1".to_string(), "v2".to_string());
    ctx.set_cookie(c1b);
    let directives = astra::cookie::build_set_cookie_directives(ctx.cookie_operations());
    assert_eq!(directives.len(), 1);
    match directives.get(&"c1".to_string()) {
        Some(SetCookieDirective::SetTo(c)) => {
            assert_eq!(c.value, "v2".to_string());
        }
        other => panic!("expected one add directive, got {:?}", other.is_some()),
    }
}

#[test]
fn cookie_remove_without_add_clears() {
    let mut ctx = ResponseLua::new();
    ctx.remove_cookie("session".to_string());
    let directives = astra::cookie::build_set_cookie_directives(ctx.cookie_operations());
    assert_eq!(directives.len(), 1);
    assert!(matches!(
        directives.get(&"session".to_string()),
        Some(SetCookieDirective::Clear)
    ));
}

#[test]
fn cookie_ops_apply_to_jar_in_order() {
    let mut jar = astra::strmap::StringMap::new();
    jar.insert(
        "old".to_string(),
        LuaCookie::new("old".to_string(), "1".to_string()),
    );
    let mut ctx = ResponseLua::new();
    ctx.set_cookie(LuaCookie::new("new".to_string(), "2".to_string()));
    ctx.remove_cookie("old".to_string());
    astra::cookie::apply_cookie_ops(&mut jar, ctx.cookie_operations());
    assert!(jar.get(&"old".to_string()).is_none());
    assert_eq!(jar.get(&"new".to_string()).unwrap().value, "2".to_string());
}

#[test]
fn status_code_999_is_rejected() {
    let mut ctx = ResponseLua::new();
    assert_eq!(
        ctx.set_status_code(999),
        Err(ResponseError::InvalidStatusCode)
    );
    assert_eq!(ctx.status_code(), 200);
}

#[test]
fn status_code_keeps_prior_value_on_rejection() {
    let mut ctx = ResponseLua::new();
    assert!(ctx.set_status_code(201).is_ok());
    assert!(ctx.set_status_code(999).is_err());
    assert!(ctx.set_status_code(42).is_err());
    assert_eq!(ctx.status_code(), 201);
    assert!(ctx.set_status_code(404).is_ok());
    assert_eq!(ctx.status_code(), 404);
}

#[test]
fn text_return_gives_text_body() {
    let mut d = RequestDispatch::new(None);
    assert!(d.receive_body(0));
    d.begin_handler();
    let r = d.finish_handler(ReturnKind::Text("ok".to_string()), ResponseLua::new());
    assert_eq!(r.status, 200);
    match r.body {
        ResponseBody::Text(s) => assert_eq!(s, "ok".to_string()),
        _ => panic!("expected a text body"),
    }
}

#[test]
fn structured_return_gives_json_body() {
    let v: serde_json::Value = serde_json::from_str("{\"a\":1}").unwrap();
    let mut d = RequestDispatch::new(None);
    assert!(d.receive_body(0));
    d.begin_handler();
    let r = d.finish_handler(ReturnKind::Structured(v), ResponseLua::new());
    assert_eq!(r.status, 200);
    match r.body {
        ResponseBody::Json(s) => assert_eq!(s, "{\"a\":1}".to_string()),
        _ => panic!("expected a json body"),
    }
}

#[test]
fn empty_return_gives_empty_200() {
    let mut d = RequestDispatch::new(None);
    assert!(d.receive_body(0));
    d.begin_handler();
    let r = d.finish_handler(ReturnKind::Nothing, ResponseLua::new());
    assert_eq!(r.status, 200);
    assert!(matches!(r.body, ResponseBody::Empty));
}

#[test]
fn handler_error_gives_opaque_500() {
    let mut d = RequestDispatch::new(None);
    assert!(d.receive_body(0));
    d.begin_handler();
    let mut ctx = ResponseLua::new();
    assert!(ctx.set_header("leak".to_string(), "no".to_string()).is_ok());
    let r = d.handler_error();
    assert_eq!(r.status, 500);
    assert_eq!(r.headers.len(), 0);
    assert_eq!(r.set_cookies.len(), 0);
    assert!(matches!(r.body, ResponseBody::Empty));
}

#[test]
fn body_limit_rejects_before_handler() {
    let mut d = RequestDispatch::new(Some(10));
    let admitted = d.receive_body(11);
    assert!(!admitted);
    assert_eq!(d.invocations, 0);
    let r = d.reject_response();
    assert_eq!(r.status, 413);
    assert_eq!(d.invocations, 0);
}

#[test]
fn body_limit_admits_at_the_limit() {
    let mut d = RequestDispatch::new(Some(10));
    assert!(d.receive_body(10));
    assert!(admit_body(None, usize::MAX));
    assert!(!admit_body(Some(0), 1));
}

#[test]
fn assemble_applies_context() {
    let mut ctx = ResponseLua::new();
    assert!(ctx.set_status_code(201).is_ok());
    assert!(ctx.set_header("x".to_string(), "1".to_string()).is_ok());
    let r: WireResponse = assemble_response(ResponseBody::Text("hi".to_string()), ctx);
    assert_eq!(r.status, 201);
    assert_eq!(r.headers.get(&"x".to_string()), Some(&"1".to_string()));
    match r.body {
        ResponseBody::Text(s) => assert_eq!(s, "hi".to_string()),
        _ => panic!("expected a text body"),
    }
}

#[test]
fn decode_route_skips_missing_required_fields() {
    let mut e = entry("/", Method::Get, 1, None, None, None);
    e.method = None;
    assert!(decode_route(&e).is_none());
    let mut e2 = entry("/", Method::Get, 1, None, None, None);
    e2.path = None;
    assert!(decode_route(&e2).is_none());
    let e3 = entry("/", Method::Get, 1, None, None, None);
    let r = decode_route(&e3).unwrap();
    assert_eq!(r.config.body_limit, None);
    assert_eq!(r.config.compression, None);
}

#[test]
fn static_fallback_never_shadows_exact_route() {
    let entries = vec![
        entry("/", Method::Get, 1, None, None, None),
        entry("/", Method::StaticDir, 2, Some("public"), None, None),
    ];
    let table = build_dispatch_table(&entries, false);
    assert!(table.fallback.is_some());
    match table.dispatch(&"/".to_string(), Method::Get) {
        RouteMatch::Handler { function, .. } => assert_eq!(function, 1),
        _ => panic!("the exact route must win"),
    }
    match table.dispatch(&"/unmatched".to_string(), Method::Get) {
        RouteMatch::StaticTarget { target, kind } => {
            assert_eq!(target, "public".to_string());
            assert!(matches!(kind, StaticKind::Dir));
        }
        _ => panic!("the fallback must answer unmatched paths"),
    }
}

#[test]
fn duplicate_route_last_registration_wins() {
    let entries = vec![
        entry("/a", Method::Get, 1, None, None, None),
        entry("/a", Method::Get, 2, None, None, None),
    ];
    let table = build_dispatch_table(&entries, false);
    match table.dispatch(&"/a".to_string(), Method::Get) {
        RouteMatch::Handler { function, .. } => assert_eq!(function, 2),
        _ => panic!("expected a handler"),
    }
}

#[test]
fn static_mounts_match_by_prefix() {
    let entries = vec![entry(
        "/assets",
        Method::StaticDir,
        1,
        Some("files"),
        None,
        None,
    )];
    let table = build_dispatch_table(&entries, false);
    match table.dispatch(&"/assets/logo.png".to_string(), Method::Get) {
        RouteMatch::StaticTarget { target, .. } => assert_eq!(target, "files".to_string()),
        _ => panic!("expected the mount"),
    }
    assert!(matches!(
        table.dispatch(&"/assetsx".to_string(), Method::Get),
        RouteMatch::NotFound
    ));
}

#[test]
fn inert_static_route_is_dropped() {
    let entries = vec![entry("/s", Method::StaticDir, 1, None, None, None)];
    let table = build_dispatch_table(&entries, false);
    assert_eq!(table.mounts.len(), 0);
    assert!(table.fallback.is_none());
    assert!(matches!(
        table.dispatch(&"/s".to_string(), Method::Get),
        RouteMatch::NotFound
    ));
}

#[test]
fn body_limit_is_carried_into_the_table() {
    let cfg = RouteConfiguration {
        body_limit: Some(10),
        compression: None,
    };
    let entries = vec![entry("/up", Method::Post, 7, None, None, Some(cfg))];
    let table = build_dispatch_table(&entries, true);
    assert!(table.compression);
    match table.dispatch(&"/up".to_string(), Method::Post) {
        RouteMatch::Handler {
            function,
            body_limit,
        } => {
            assert_eq!(function, 7);
            assert_eq!(body_limit, Some(10));
        }
        _ => panic!("expected a handler"),
    }
}

#[test]
fn route_configuration_setters() {
    let mut cfg = RouteConfiguration::default();
    cfg.set_body_limit(10);
    cfg.set_compression(true);
    assert_eq!(cfg.body_limit, Some(10));
    assert_eq!(cfg.compression, Some(true));
}

#[test]
fn method_names_decode() {
    assert_eq!(Method::parse(&"get".to_string()), Some(Method::Get));
    assert_eq!(Method::parse(&"static_dir".to_string()), Some(Method::StaticDir));
    assert_eq!(Method::parse(&"GET".to_string()), None);
    assert_eq!(Method::parse(&"head".to_string()), None);
}
