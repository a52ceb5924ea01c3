use astra::crypto::{
    base64_decode, base64_decode_urlsafe, base64_encode, base64_encode_urlsafe, LuaCrypto,
};
use astra::httpclient::HTTPClientRequest;
use astra::json::{json_decode, json_encode};
use astra::pattern::LuaRegex;
use astra::registrar::{type_definitions, NetworkComponent, UnixSocketComponent};
use astra::request::{BodyLua, RequestLua};
use astra::strmap::StringMap;
use astra::tasks::{IntervalTask, LuaInterval, LuaTask, LuaTimeout, TaskHandler};

#[test]
fn sha256_of_empty_input() {
    assert_eq!(
        LuaCrypto::hash("sha256".to_string(), "".to_string()),
        "e3b0c44298fc1c149afbf4c8996fb92427ae41e4649b934ca495991b7852b855".to_string()
    );
}

#[test]
fn sha_family_dispatch() {
    assert_eq!(
        LuaCrypto::hash("sha3_256".to_string(), "".to_string()),
        "a7ffc6f8bf1ed76651c14756a061d662f580ff4de43b49fa82d80a4b80f8434a".to_string()
    );
    let sha512_empty = LuaCrypto::hash("sha2_512".to_string(), "".to_string());
    assert_eq!(sha512_empty.len(), 128);
    assert!(sha512_empty.starts_with("cf83e1357eefb8bdf1542850d66d8007d620e4050b5715dc83f4a921d36ce9ce"));
    assert!(sha512_empty.ends_with("47d0d13c5d85f2b0ff8318d2877eec2f63b931bd47417a81a538327af927da3e"));
    // an unknown member of the family falls back to SHA-256
    assert_eq!(
        LuaCrypto::hash("sha_whatever".to_string(), "".to_string()),
        "e3b0c44298fc1c149afbf4c8996fb92427ae41e4649b934ca495991b7852b855".to_string()
    );
}

#[test]
fn non_sha_names_hash_to_nothing() {
    assert_eq!(LuaCrypto::hash("md5".to_string(), "x".to_string()), "".to_string());
}

#[test]
fn base64_round_trip() {
    let encoded = base64_encode(">>>".to_string());
    assert_eq!(encoded, "Pj4+".to_string());
    assert_eq!(base64_decode(encoded), Ok(">>>".to_string()));
}

#[test]
fn base64_urlsafe_round_trip() {
    let encoded = base64_encode_urlsafe(">>>".to_string());
    assert_eq!(encoded, "Pj4-".to_string());
    assert_eq!(base64_decode_urlsafe(encoded), Ok(">>>".to_string()));
}

#[test]
fn base64_rejects_invalid_text() {
    assert!(base64_decode("!!".to_string()).is_err());
}

#[test]
fn json_encode_decode_round_trip() {
    let v = json_decode("{\"a\":1}").unwrap();
    assert_eq!(json_encode(&v), Ok("{\"a\":1}".to_string()));
    assert!(json_decode("{not json").is_err());
}

#[test]
fn regex_matching_and_replacement() {
    let re = LuaRegex::new("[a-z]+".to_string()).unwrap();
    assert!(re.is_match("abc"));
    assert!(!re.is_match("123"));
    let caps = re.captures("a1b");
    assert_eq!(caps.len(), 2);
    assert_eq!(caps[0], vec!["a".to_string()]);
    assert_eq!(caps[1], vec!["b".to_string()]);
    assert_eq!(re.replace("a1b", "X", None), "X1X".to_string());
    assert_eq!(re.replace("a1b", "X", Some(1)), "X1b".to_string());
}

#[test]
fn regex_compile_failure_is_an_error() {
    assert!(LuaRegex::new("[".to_string()).is_err());
}

#[test]
fn interval_aborted_at_once_runs_at_most_once() {
    // cancellation racing the first callback run: zero or one invocation
    let mut immediate = IntervalTask::spawn();
    immediate.abort();
    assert_eq!(immediate.invocations, 0);

    let mut after_first = IntervalTask::spawn();
    after_first.tick();
    after_first.abort();
    assert_eq!(after_first.invocations, 1);
}

#[test]
fn interval_runs_once_per_wake() {
    let mut t = IntervalTask::spawn();
    t.tick();
    t.wake();
    t.tick();
    assert_eq!(t.invocations, 2);
    assert_eq!(t.wakes, 1);
}

#[test]
fn task_handle_abort_gives_up_the_handle() {
    let rt = tokio::runtime::Runtime::new().unwrap();
    rt.block_on(async {
        let handle = tokio::spawn(async {});
        let mut th = TaskHandler::new(handle);
        th.abort();
        assert!(th.handler.is_none());
        th.abort();
        assert!(th.handler.is_none());
    });
}

#[test]
fn task_handle_awaits_once() {
    let rt = tokio::runtime::Runtime::new().unwrap();
    rt.block_on(async {
        let handle = tokio::spawn(async {});
        let mut th = TaskHandler::new(handle);
        let taken = th.take_for_await();
        assert!(taken.is_some());
        let _ = taken.unwrap().await;
        assert!(th.take_for_await().is_none());
    });
}

#[test]
fn task_capabilities_install_internal_names() {
    assert_eq!(LuaTask::global_name(), "astra_internal__spawn_task".to_string());
    assert_eq!(
        LuaTimeout::global_name(),
        "astra_internal__spawn_timeout".to_string()
    );
    assert_eq!(
        LuaInterval::global_name(),
        "astra_internal__spawn_interval".to_string()
    );
}

#[test]
fn request_view_exposes_plain_values() {
    let mut headers = StringMap::new();
    headers.insert("host".to_string(), "localhost".to_string());
    let mut jar = StringMap::new();
    jar.insert(
        "sid".to_string(),
        astra::cookie::LuaCookie::new("sid".to_string(), "1".to_string()),
    );
    let req = RequestLua::new(
        "GET".to_string(),
        "/items/7".to_string(),
        headers,
        vec![("q".to_string(), "1".to_string())],
        vec![("id".to_string(), "7".to_string()), ("name".to_string(), "x".to_string())],
        Some(vec![104, 105]),
        jar,
    );
    assert_eq!(req.method(), "GET".to_string());
    assert_eq!(req.uri(), "/items/7".to_string());
    assert_eq!(req.get_cookie(&"sid".to_string()).unwrap().value, "1".to_string());
    assert!(req.get_cookie(&"nope".to_string()).is_none());
    let body = req.body();
    assert_eq!(body.text(), "hi".to_string());
    let params = req.params();
    assert_eq!(params.len(), 2);
    assert!(matches!(params[0].1, astra::params::ParamValue::Int(7)));
    assert!(matches!(params[1].1, astra::params::ParamValue::Text(_)));
}

#[test]
fn body_json_view() {
    let body = BodyLua::new(vec![b'{', b'}']);
    assert!(body.json().is_ok());
    let bad = BodyLua::new(vec![b'x']);
    assert!(bad.json().is_err());
}

#[test]
fn http_client_request_builder() {
    let mut r = HTTPClientRequest::new("http://example.invalid".to_string());
    assert_eq!(r.method, "GET".to_string());
    r.set_method("POST".to_string());
    r.set_header("accept".to_string(), "application/json".to_string());
    r.set_header("accept".to_string(), "text/plain".to_string());
    r.set_body("payload".to_string());
    r.set_form_field("k".to_string(), "v".to_string());
    assert_eq!(r.method, "POST".to_string());
    assert_eq!(
        r.headers.get(&"accept".to_string()),
        Some(&"text/plain".to_string())
    );
    assert_eq!(r.body, Some("payload".to_string()));
    assert_eq!(r.form.get(&"k".to_string()), Some(&"v".to_string()));
}

#[test]
fn string_map_semantics() {
    let mut m: StringMap<u32> = StringMap::new();
    m.insert("a".to_string(), 1);
    m.insert("b".to_string(), 2);
    m.insert("a".to_string(), 3);
    assert_eq!(m.len(), 2);
    assert_eq!(m.get(&"a".to_string()), Some(&3));
    assert!(m.contains(&"b".to_string()));
    m.remove(&"a".to_string());
    assert!(m.get(&"a".to_string()).is_none());
    assert_eq!(m.len(), 1);
    let (k, v) = m.entry_at(0);
    assert_eq!(k, &"b".to_string());
    assert_eq!(v, &2);
}

#[test]
fn capability_sources_are_nonempty() {
    assert!(!NetworkComponent::lua_code().is_empty());
    assert!(!UnixSocketComponent::lua_code().is_empty());
    let defs = type_definitions("m", "s", "c", "st", "mw");
    assert_eq!(defs, "m\ns\nc\nst\nmw".to_string());
}

#[test]
fn query_strings_parse_into_pairs() {
    let pairs = astra::request::parse_query("a=1&b=2&flag&c=x=y");
    assert_eq!(
        pairs,
        vec![
            ("a".to_string(), "1".to_string()),
            ("b".to_string(), "2".to_string()),
            ("flag".to_string(), "".to_string()),
            ("c".to_string(), "x=y".to_string()),
        ]
    );
    assert_eq!(astra::request::parse_query(""), Vec::<(String, String)>::new());
}
