use mcp_maxchar_length::config::{Config, FieldLimits0Config, PolicyConfig};
use mcp_maxchar_length::filter::{
    check_rpc, check_tools_call_args, check_transport, parse_error_reject, route_request,
    Route, RpcReject, RpcRequest, Verdict, INVALID_PARAMS, INVALID_REQUEST,
    PARSE_ERROR,
};
use mcp_maxchar_length::json::JsonValue;
use serde_json::Value;

const ENDPOINT: &str = "/mcp";

fn to_json(v: &Value) -> JsonValue {
    match v {
        Value::Null => JsonValue::Null,
        Value::Bool(b) => JsonValue::Bool(*b),
        Value::Number(n) => JsonValue::Number(n.to_string()),
        Value::String(s) => JsonValue::Str(s.clone()),
        Value::Array(items) => JsonValue::Array(items.iter().map(to_json).collect()),
        Value::Object(map) => {
            JsonValue::Object(map.iter().map(|(k, v)| (k.clone(), to_json(v))).collect())
        },
    }
}

fn int_setting(v: &Value, a: &str, b: &str) -> Option<i64> {
    v.get(a).or_else(|| v.get(b)).and_then(|x| x.as_i64())
}

fn config_from_text(text: &str) -> Config {
    let v: Value = serde_json::from_str(text).unwrap();
    let field_limits = v
        .get("fieldLimits")
        .and_then(|x| x.as_array())
        .map(|rows| {
            rows.iter()
                .map(|r| FieldLimits0Config {
                    field: r["field"].as_str().unwrap().to_string(),
                    max_chars: r["maxChars"].as_i64().unwrap(),
                })
                .collect()
        });
    Config {
        default_field_max_chars: int_setting(&v, "defaultFieldMaxChars", "default_field_max_chars"),
        field_limits,
        max_request_bytes: int_setting(&v, "maxRequestBytes", "max_request_bytes"),
        max_total_argument_chars: int_setting(&v, "maxTotalArgumentChars", "max_total_argument_chars"),
        mcp_endpoint: v.get("mcpEndpoint").and_then(|x| x.as_str()).map(|s| s.to_string()),
        strict_mode: v.get("strictMode").and_then(|x| x.as_bool()),
    }
}

fn default_config() -> String {
    r#"{"mcpEndpoint":"/mcp","strictMode":true,"defaultFieldMaxChars":100}"#.to_string()
}

/// What the gateway answers: the status, and the JSON body when the policy
/// answers itself (none when the request went downstream).
struct Answer {
    status: u32,
    body: Option<Value>,
}

fn error_body(id: Option<Value>, code: i64, message: String) -> Value {
    let mut err = serde_json::Map::new();
    err.insert("code".to_string(), Value::from(code));
    err.insert("message".to_string(), Value::from(message));
    let mut m = serde_json::Map::new();
    m.insert("jsonrpc".to_string(), Value::from("2.0"));
    m.insert("id".to_string(), id.unwrap_or(Value::Null));
    m.insert("error".to_string(), Value::Object(err));
    Value::Object(m)
}

fn reply(id: Option<Value>, rej: RpcReject) -> Answer {
    Answer { status: 200, body: Some(error_body(id, rej.code, rej.message)) }
}

fn handle(config: &str, method: &str, path: &str, headers: &[(&str, &str)], body: &str) -> Answer {
    let policy = PolicyConfig::from_config(&config_from_text(config)).unwrap();
    match route_request(&policy, path, method) {
        Route::NotFound => {
            return Answer { status: 404, body: Some(serde_json::from_str(r#"{"error":"Not Found"}"#).unwrap()) };
        },
        Route::PassThrough => return Answer { status: 200, body: None },
        Route::Inspect => {},
    }
    let content_type =
        headers.iter().find(|(k, _)| k.eq_ignore_ascii_case("content-type")).map(|(_, v)| *v).unwrap_or("");
    if let Some(rej) = check_transport(&policy, content_type, body.len()) {
        return reply(None, rej);
    }
    let v: Value = match serde_json::from_str(body) {
        Ok(v) => v,
        Err(e) => return reply(None, parse_error_reject(&e.to_string())),
    };
    let id = v.get("id").filter(|x| !x.is_null()).cloned();
    let rpc = RpcRequest {
        jsonrpc: v.get("jsonrpc").and_then(|x| x.as_str()).map(|s| s.to_string()),
        id: id.as_ref().map(to_json),
        method: v.get("method").and_then(|x| x.as_str()).map(|s| s.to_string()),
        params: v.get("params").filter(|x| !x.is_null()).map(to_json),
    };
    match check_rpc(&policy, &rpc) {
        Verdict::Continue => Answer { status: 200, body: None },
        Verdict::Reject(rej) => reply(id, rej),
    }
}

fn post(config: &str, body: &str) -> Answer {
    handle(config, "POST", ENDPOINT, &[("content-type", "application/json")], body)
}

fn code(a: &Answer) -> i64 {
    a.body.as_ref().unwrap()["error"]["code"].as_i64().unwrap()
}

fn message(a: &Answer) -> String {
    a.body.as_ref().unwrap()["error"]["message"].as_str().unwrap_or_default().to_string()
}

#[test]
fn tc01_non_mcp_path_is_404_in_strict_mode() {
    let a = handle(
        &default_config(),
        "POST",
        "/not-mcp",
        &[("content-type", "application/json")],
        r#"{"jsonrpc":"2.0","id":1,"method":"ping"}"#,
    );
    assert_eq!(a.status, 404);
}

#[test]
fn tc02_non_mcp_path_passes_through_in_non_strict_mode() {
    let cfg = r#"{"mcpEndpoint":"/mcp","strictMode":false}"#;
    let a = handle(
        cfg,
        "POST",
        "/upstream-api",
        &[("content-type", "application/json")],
        r#"{"jsonrpc":"2.0","id":1,"method":"ping"}"#,
    );
    assert_eq!(a.status, 200);
    assert!(a.body.is_none());
}

#[test]
fn tc03_get_passes_through() {
    let a = handle(&default_config(), "GET", ENDPOINT, &[], "");
    assert_eq!(a.status, 200);
    assert!(a.body.is_none());
}

#[test]
fn tc04_wrong_content_type_returns_invalid_request() {
    let a = handle(
        &default_config(),
        "POST",
        ENDPOINT,
        &[("content-type", "text/plain")],
        r#"{"jsonrpc":"2.0","id":1,"method":"ping"}"#,
    );
    assert_eq!(a.status, 200);
    assert_eq!(code(&a), -32600);
}

#[test]
fn tc05_malformed_json_returns_parse_error() {
    let a = post(&default_config(), "{ not valid json ");
    assert_eq!(a.status, 200);
    assert_eq!(code(&a), -32700);
}

#[test]
fn tc06_wrong_jsonrpc_version_returns_invalid_request() {
    let a = post(&default_config(), r#"{"jsonrpc":"1.0","id":1,"method":"ping"}"#);
    assert_eq!(a.status, 200);
    assert_eq!(code(&a), -32600);
}

#[test]
fn tc07_missing_method_returns_invalid_request() {
    let a = post(&default_config(), r#"{"jsonrpc":"2.0","id":1}"#);
    assert_eq!(a.status, 200);
    assert_eq!(code(&a), -32600);
}

#[test]
fn tc08_unknown_protocol_version_passes_through() {
    let a = handle(
        &default_config(),
        "POST",
        ENDPOINT,
        &[("content-type", "application/json"), ("mcp-protocol-version", "2025-11-25")],
        r#"{"jsonrpc":"2.0","id":1,"method":"tools/list"}"#,
    );
    assert_eq!(a.status, 200);
    assert!(a.body.is_none());
}

#[test]
fn tc09_initialize_passes_through_downstream() {
    let a = post(
        &default_config(),
        r#"{"jsonrpc":"2.0","id":1,"method":"initialize","params":{"protocolVersion":"2025-06-18"}}"#,
    );
    assert_eq!(a.status, 200);
    assert!(a.body.is_none());
}

#[test]
fn tc09b_tools_list_passes_through_downstream() {
    let a = post(&default_config(), r#"{"jsonrpc":"2.0","id":2,"method":"tools/list"}"#);
    assert_eq!(a.status, 200);
    assert!(a.body.is_none());
}

#[test]
fn tc10_tools_call_within_default_limit_passes_through() {
    let cfg = r#"{"mcpEndpoint":"/mcp","strictMode":true,"defaultFieldMaxChars":50}"#;
    let a = post(
        cfg,
        r#"{"jsonrpc":"2.0","id":10,"method":"tools/call","params":{"name":"myTool","arguments":{"query":"short query"}}}"#,
    );
    assert_eq!(a.status, 200);
    assert!(a.body.is_none());
}

#[test]
fn tc11_single_field_over_default_limit_is_invalid_params() {
    let cfg = r#"{"mcpEndpoint":"/mcp","strictMode":true,"defaultFieldMaxChars":10}"#;
    let long_val = "x".repeat(11);
    let body = format!(
        r#"{{"jsonrpc":"2.0","id":11,"method":"tools/call","params":{{"name":"myTool","arguments":{{"description":"{long_val}"}}}}}}"#
    );
    let a = post(cfg, &body);
    assert_eq!(a.status, 200);
    assert_eq!(code(&a), -32602);
    let msg = message(&a);
    assert!(msg.contains("description"), "error must name the field: {msg}");
    assert!(!msg.contains(&long_val), "error must not echo value: {msg}");
}

#[test]
fn tc12_field_specific_limit_overrides_default() {
    let cfg = r#"{"mcpEndpoint":"/mcp","strictMode":true,"defaultFieldMaxChars":1000,"fieldLimits":[{"field":"description","maxChars":20}]}"#;
    let a = post(
        cfg,
        r#"{"jsonrpc":"2.0","id":12,"method":"tools/call","params":{"name":"myTool","arguments":{"description":"this is twenty-five ch"}}}"#,
    );
    assert_eq!(a.status, 200);
    assert_eq!(code(&a), -32602);
    assert!(message(&a).contains("description"));
    let a2 = post(
        cfg,
        r#"{"jsonrpc":"2.0","id":13,"method":"tools/call","params":{"name":"myTool","arguments":{"name":"short","description":"ok description"}}}"#,
    );
    assert_eq!(a2.status, 200);
    assert!(a2.body.is_none());
}

#[test]
fn tc13_wildcard_field_limit_applies_to_unmatched_fields() {
    let cfg = r#"{"mcpEndpoint":"/mcp","strictMode":true,"defaultFieldMaxChars":10000,"fieldLimits":[{"field":"*","maxChars":5}]}"#;
    let a = post(
        cfg,
        r#"{"jsonrpc":"2.0","id":14,"method":"tools/call","params":{"name":"myTool","arguments":{"anyfield":"sixchr"}}}"#,
    );
    assert_eq!(a.status, 200);
    assert_eq!(code(&a), -32602);
}

#[test]
fn tc14_total_char_limit_exceeded_is_invalid_params() {
    let cfg = r#"{"mcpEndpoint":"/mcp","strictMode":true,"defaultFieldMaxChars":1000,"maxTotalArgumentChars":20}"#;
    let body = format!(
        r#"{{"jsonrpc":"2.0","id":15,"method":"tools/call","params":{{"name":"myTool","arguments":{{"a":"hello","b":"{}"}}}}}}"#,
        "x".repeat(20)
    );
    let a = post(cfg, &body);
    assert_eq!(a.status, 200);
    assert_eq!(code(&a), -32602);
    assert!(message(&a).contains("total"), "should mention 'total': {}", message(&a));
}

#[test]
fn tc15_nested_string_in_object_is_checked() {
    let cfg = r#"{"mcpEndpoint":"/mcp","strictMode":true,"defaultFieldMaxChars":5}"#;
    let a = post(
        cfg,
        r#"{"jsonrpc":"2.0","id":16,"method":"tools/call","params":{"name":"myTool","arguments":{"address":{"city":"toolong"}}}}"#,
    );
    assert_eq!(a.status, 200);
    assert_eq!(code(&a), -32602);
    assert!(message(&a).contains("address.city"), "path must be in error: {}", message(&a));
}

#[test]
fn tc16_missing_arguments_object_passes_through() {
    let a = post(
        &default_config(),
        r#"{"jsonrpc":"2.0","id":17,"method":"tools/call","params":{"name":"myTool"}}"#,
    );
    assert_eq!(a.status, 200);
    assert!(a.body.is_none());
}

#[test]
fn tc17_non_object_arguments_returns_invalid_params() {
    let a = post(
        &default_config(),
        r#"{"jsonrpc":"2.0","id":18,"method":"tools/call","params":{"name":"myTool","arguments":"not-an-object"}}"#,
    );
    assert_eq!(a.status, 200);
    assert_eq!(code(&a), -32602);
    assert_eq!(message(&a), "'arguments' must be a JSON object, got a string");
    assert!(!message(&a).contains("not-an-object"));
}

#[test]
fn tc18_unicode_chars_not_bytes_are_counted() {
    let cfg = r#"{"mcpEndpoint":"/mcp","strictMode":true,"defaultFieldMaxChars":4}"#;
    let ok = post(
        cfg,
        "{\"jsonrpc\":\"2.0\",\"id\":19,\"method\":\"tools/call\",\"params\":{\"name\":\"myTool\",\"arguments\":{\"city\":\"S\u{e3}o\"}}}",
    );
    assert_eq!(ok.status, 200, "S\u{e3}o (3 chars) should pass a 4-char limit");
    assert!(ok.body.is_none());
    let exact = post(
        cfg,
        "{\"jsonrpc\":\"2.0\",\"id\":20,\"method\":\"tools/call\",\"params\":{\"name\":\"myTool\",\"arguments\":{\"city\":\"S\u{e3}oP\"}}}",
    );
    assert_eq!(exact.status, 200, "S\u{e3}oP (4 chars) should pass at the exact limit");
    assert!(exact.body.is_none());
    let fail = post(
        cfg,
        "{\"jsonrpc\":\"2.0\",\"id\":21,\"method\":\"tools/call\",\"params\":{\"name\":\"myTool\",\"arguments\":{\"city\":\"S\u{e3}oPaulo\"}}}",
    );
    assert_eq!(code(&fail), -32602);
}

#[test]
fn tc19_oversized_request_body_is_rejected_before_parsing() {
    let cfg = r#"{"mcpEndpoint":"/mcp","strictMode":true,"maxRequestBytes":1024}"#;
    let body = format!(r#"{{"jsonrpc":"2.0","id":1,"method":"ping","pad":"{}"}}"#, "x".repeat(4096));
    let a = post(cfg, &body);
    assert_eq!(a.status, 200);
    assert_eq!(code(&a), -32600);
    assert!(message(&a).contains("exceeds limit"), "got: {}", message(&a));
}

#[test]
fn tc20_notification_passes_through_without_checks() {
    let a = post(&default_config(), r#"{"jsonrpc":"2.0","method":"notifications/initialized"}"#);
    assert_eq!(a.status, 200);
    assert!(a.body.is_none());
}

// ---------------------------------------------------------------------------
// The decision functions one by one
// ---------------------------------------------------------------------------

fn policy(strict: bool) -> PolicyConfig {
    PolicyConfig {
        mcp_endpoint: "/mcp".into(),
        strict_mode: strict,
        default_field_max_chars: Some(5),
        field_limits: vec![],
        max_total_argument_chars: None,
        max_request_bytes: 1024,
    }
}

#[test]
fn route_ignores_the_query_and_the_method_case() {
    let p = policy(true);
    assert!(matches!(route_request(&p, "/mcp?session=1", "post"), Route::Inspect));
    assert!(matches!(route_request(&p, "/mcp/sub", "PoSt"), Route::Inspect));
    assert!(matches!(route_request(&p, "/x?/mcp", "POST"), Route::NotFound));
    assert!(matches!(route_request(&p, "/mc", "POST"), Route::NotFound));
    assert!(matches!(route_request(&p, "/mcp", "DELETE"), Route::PassThrough));
    assert!(matches!(route_request(&p, "/mcp", "POSTS"), Route::PassThrough));
    assert!(matches!(route_request(&policy(false), "/other", "POST"), Route::PassThrough));
}

#[test]
fn transport_messages_are_exact() {
    let p = policy(true);
    match check_transport(&p, "text/plain", 10) {
        Some(RpcReject { code, message: m }) => {
            assert_eq!(code, INVALID_REQUEST);
            assert_eq!(m, "Content-Type must be application/json");
        },
        _ => panic!("expected a rejection"),
    }
    match check_transport(&p, "application/json; charset=utf-8", 1025) {
        Some(RpcReject { code, message: m }) => {
            assert_eq!(code, INVALID_REQUEST);
            assert_eq!(m, "request body of 1025 bytes exceeds limit of 1024 bytes");
        },
        _ => panic!("expected a rejection"),
    }
    assert!(check_transport(&p, "application/json", 1024).is_none());
}

#[test]
fn parse_error_message() {
    let r = parse_error_reject("EOF while parsing");
    assert_eq!(r.code, PARSE_ERROR);
    assert_eq!(r.message, "Parse error: EOF while parsing");
}

fn rpc(jsonrpc: Option<&str>, id: bool, method: Option<&str>, params: Option<JsonValue>) -> RpcRequest {
    RpcRequest {
        jsonrpc: jsonrpc.map(|s| s.to_string()),
        id: if id { Some(JsonValue::Number("1".to_string())) } else { None },
        method: method.map(|s| s.to_string()),
        params,
    }
}

fn args_params(args: JsonValue) -> JsonValue {
    JsonValue::Object(vec![("arguments".to_string(), args)])
}

#[test]
fn envelope_checks_in_order() {
    let p = policy(true);
    match check_rpc(&p, &rpc(None, true, None, None)) {
        Verdict::Reject(RpcReject { code, message: m }) => {
            assert_eq!(code, INVALID_REQUEST);
            assert_eq!(m, "jsonrpc must be \"2.0\"");
        },
        _ => panic!("expected a rejection"),
    }
    match check_rpc(&p, &rpc(Some("2.0"), true, None, None)) {
        Verdict::Reject(RpcReject { code, message: m }) => {
            assert_eq!(code, INVALID_REQUEST);
            assert_eq!(m, "missing method");
        },
        _ => panic!("expected a rejection"),
    }
    let long = args_params(JsonValue::Object(vec![("q".to_string(), JsonValue::Str("toolong".to_string()))]));
    assert!(matches!(check_rpc(&p, &rpc(Some("2.0"), false, Some("tools/call"), Some(long))), Verdict::Continue));
    let long = args_params(JsonValue::Object(vec![("q".to_string(), JsonValue::Str("toolong".to_string()))]));
    assert!(matches!(check_rpc(&p, &rpc(Some("2.0"), true, Some("tools/list"), Some(long))), Verdict::Continue));
    let long = args_params(JsonValue::Object(vec![("q".to_string(), JsonValue::Str("toolong".to_string()))]));
    match check_rpc(&p, &rpc(Some("2.0"), true, Some("tools/call"), Some(long))) {
        Verdict::Reject(RpcReject { code, message: m }) => {
            assert_eq!(code, INVALID_PARAMS);
            assert_eq!(
                m,
                "argument character limit exceeded \u{2014} argument field 'q' has 7 character(s), which exceeds the limit of 5"
            );
        },
        _ => panic!("expected a rejection"),
    }
}

#[test]
fn tools_call_argument_shapes() {
    let p = policy(true);
    assert!(check_tools_call_args(None, &p).is_ok());
    let params = JsonValue::Str("x".to_string());
    assert!(check_tools_call_args(Some(&params), &p).is_ok());
    let params = args_params(JsonValue::Array(vec![]));
    match check_tools_call_args(Some(&params), &p) {
        Err(RpcReject { code, message }) => {
            assert_eq!(code, INVALID_PARAMS);
            assert_eq!(message, "'arguments' must be a JSON object, got an array");
        },
        _ => panic!("expected a rejection"),
    }
    let kinds = [
        (JsonValue::Null, "null"),
        (JsonValue::Bool(true), "a boolean"),
        (JsonValue::Number("7".to_string()), "a number"),
        (JsonValue::Str("TOP_SECRET_PROMPT_INJECTION_PAYLOAD".to_string()), "a string"),
    ];
    for (v, kind) in kinds {
        let params = args_params(v);
        match check_tools_call_args(Some(&params), &p) {
            Err(RpcReject { code, message }) => {
                assert_eq!(code, INVALID_PARAMS);
                assert_eq!(message, format!("'arguments' must be a JSON object, got {kind}"));
                assert!(!message.contains("TOP_SECRET"));
            },
            _ => panic!("expected a rejection"),
        }
    }
}

#[test]
fn answers_ignore_string_contents() {
    let p = policy(true);
    let a = args_params(JsonValue::Object(vec![("q".to_string(), JsonValue::Str("secret!".to_string()))]));
    let b = args_params(JsonValue::Object(vec![("q".to_string(), JsonValue::Str("public!".to_string()))]));
    let ra = check_tools_call_args(Some(&a), &p).unwrap_err();
    let rb = check_tools_call_args(Some(&b), &p).unwrap_err();
    assert_eq!((ra.code, ra.message), (rb.code, rb.message));
    let a = args_params(JsonValue::Str("secret".to_string()));
    let b = args_params(JsonValue::Str("public".to_string()));
    let ra = check_tools_call_args(Some(&a), &p).unwrap_err();
    let rb = check_tools_call_args(Some(&b), &p).unwrap_err();
    assert_eq!(ra.message, rb.message);
}
