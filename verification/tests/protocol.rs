//! The wire protocol: JSON values, reply scanning, the session state
//! machine, and tool-reply decoding.

use ainotework::error::McpError;
use ainotework::json::{json_line, parse_json, JsonValue};
use ainotework::session::{
    choose_token, fallback_path, npx_candidates, resolve_command, McpSession,
};
use ainotework::tools::{check_status, decode_tool_reply};
use ainotework::wire::{scan_reply, ReplyScan, CONNECT_TIMEOUT_SECS, REQUEST_TIMEOUT_SECS};

fn jstr(s: &str) -> JsonValue {
    JsonValue::Str(s.to_string())
}

fn jobj(entries: Vec<(&str, JsonValue)>) -> JsonValue {
    JsonValue::Obj(entries.into_iter().map(|(k, v)| (k.to_string(), v)).collect())
}

fn jeq(a: &JsonValue, b: &JsonValue) -> bool {
    match (a, b) {
        (JsonValue::Null, JsonValue::Null) => true,
        (JsonValue::Bool(x), JsonValue::Bool(y)) => x == y,
        (JsonValue::Int(x), JsonValue::Int(y)) => x == y,
        (JsonValue::Str(x), JsonValue::Str(y)) => x == y,
        (JsonValue::Arr(xs), JsonValue::Arr(ys)) => {
            xs.len() == ys.len() && xs.iter().zip(ys.iter()).all(|(x, y)| jeq(x, y))
        },
        (JsonValue::Obj(xs), JsonValue::Obj(ys)) => {
            xs.len() == ys.len()
                && xs.iter().zip(ys.iter()).all(|(x, y)| x.0 == y.0 && jeq(&x.1, &y.1))
        },
        _ => false,
    }
}

fn get<'a>(v: &'a JsonValue, key: &str) -> &'a JsonValue {
    v.get(key).expect("missing key")
}

fn as_str(v: &JsonValue) -> &str {
    match v {
        JsonValue::Str(s) => s.as_str(),
        _ => panic!("not a string"),
    }
}

#[test]
fn parse_json_reads_structure() {
    let v = parse_json("{\"a\": 1, \"b\": [true, null, \"x\"]}").expect("valid json");
    assert!(matches!(get(&v, "a"), JsonValue::Int(1)));
    match get(&v, "b") {
        JsonValue::Arr(items) => {
            assert_eq!(items.len(), 3);
            assert!(matches!(items[0], JsonValue::Bool(true)));
            assert!(matches!(items[1], JsonValue::Null));
            assert_eq!(as_str(&items[2]), "x");
        },
        _ => panic!("not an array"),
    }
    assert!(parse_json("{not json").is_none());
}

#[test]
fn json_line_round_trips() {
    let v = jobj(vec![
        ("alpha", JsonValue::Int(-3)),
        ("beta", JsonValue::Arr(vec![jstr("a\nb"), JsonValue::Bool(false)])),
        ("gamma", jobj(vec![("inner", JsonValue::Null)])),
    ]);
    let line = json_line(&v);
    assert!(!line.contains('\n'));
    let back = parse_json(&line).expect("line parses");
    assert!(jeq(&v, &back));
}

#[test]
fn deep_copy_is_equal() {
    let v = jobj(vec![("k", JsonValue::Arr(vec![JsonValue::Int(1), jstr("s")]))]);
    let w = v.deep_copy();
    assert!(jeq(&v, &w));
}

#[test]
fn get_takes_first_matching_key() {
    let v = JsonValue::Obj(vec![
        ("k".to_string(), JsonValue::Int(1)),
        ("k".to_string(), JsonValue::Int(2)),
    ]);
    assert!(matches!(get(&v, "k"), JsonValue::Int(1)));
    assert!(v.get("missing").is_none());
}

#[test]
fn scan_reply_skips_blank_lines() {
    assert!(matches!(scan_reply(""), ReplyScan::Skip));
    assert!(matches!(scan_reply("   \t"), ReplyScan::Skip));
}

#[test]
fn scan_reply_rejects_malformed_lines() {
    match scan_reply("{oops") {
        ReplyScan::Failed(McpError::Parse(raw)) => assert_eq!(raw, "{oops"),
        _ => panic!("expected a parse failure"),
    }
    // a well-formed JSON value that is not an envelope fails the same way
    assert!(matches!(scan_reply("42"), ReplyScan::Failed(McpError::Parse(_))));
    assert!(matches!(
        scan_reply("{\"id\": 1, \"result\": {}}"),
        ReplyScan::Failed(McpError::Parse(_))
    ));
}

#[test]
fn scan_reply_maps_error_envelopes() {
    match scan_reply("{\"jsonrpc\": \"2.0\", \"id\": 7, \"error\": {\"code\": -32600, \"message\": \"boom\"}}") {
        ReplyScan::Failed(McpError::Protocol(m)) => assert_eq!(m, "boom"),
        _ => panic!("expected a protocol failure"),
    }
}

#[test]
fn scan_reply_answers_with_the_result() {
    match scan_reply("{\"jsonrpc\": \"2.0\", \"id\": 7, \"result\": {\"ok\": true}}") {
        ReplyScan::Answer(v) => assert!(matches!(get(&v, "ok"), JsonValue::Bool(true))),
        _ => panic!("expected an answer"),
    }
}

#[test]
fn scan_reply_reports_empty_results() {
    assert!(matches!(
        scan_reply("{\"jsonrpc\": \"2.0\", \"id\": 7}"),
        ReplyScan::Failed(McpError::EmptyResult)
    ));
    assert!(matches!(
        scan_reply("{\"jsonrpc\": \"2.0\", \"id\": 7, \"result\": null}"),
        ReplyScan::Failed(McpError::EmptyResult)
    ));
}

#[test]
fn session_requests_carry_increasing_ids() {
    let mut s = McpSession::new();
    s.attach();
    let line1 = s.initialize_request().expect("connected");
    let v1 = parse_json(&line1).expect("line parses");
    assert!(matches!(get(&v1, "id"), JsonValue::Int(1)));
    assert_eq!(as_str(get(&v1, "jsonrpc")), "2.0");
    assert_eq!(as_str(get(&v1, "method")), "initialize");
    let params = get(&v1, "params");
    assert_eq!(as_str(get(params, "protocolVersion")), "2024-11-05");
    assert_eq!(as_str(get(get(params, "clientInfo"), "name")), "AINoteWork");
    let line2 = s.tools_list_request().expect("connected");
    let v2 = parse_json(&line2).expect("line parses");
    assert!(matches!(get(&v2, "id"), JsonValue::Int(2)));
    assert_eq!(as_str(get(&v2, "method")), "tools/list");
}

#[test]
fn tool_call_request_wraps_name_and_arguments() {
    let mut s = McpSession::new();
    s.attach();
    let args = jobj(vec![("query", jstr("hello"))]);
    let line = s.tool_call_request("API-post-search", args).expect("connected");
    let v = parse_json(&line).expect("line parses");
    assert_eq!(as_str(get(&v, "method")), "tools/call");
    let params = get(&v, "params");
    assert_eq!(as_str(get(params, "name")), "API-post-search");
    assert_eq!(as_str(get(get(params, "arguments"), "query")), "hello");
}

#[test]
fn initialized_notification_has_no_id() {
    let line = McpSession::initialized_notification();
    let v = parse_json(&line).expect("line parses");
    assert_eq!(as_str(get(&v, "method")), "notifications/initialized");
    assert!(v.get("id").is_none());
}

#[test]
fn failed_handshake_leaves_session_disconnected() {
    let mut s = McpSession::new();
    s.attach();
    assert!(s.is_connected());
    let e = s.handshake_failed();
    assert!(matches!(e, McpError::HandshakeTimeout));
    assert!(!s.is_connected());
    // a later tool call is answered with a not-connected failure, not a hang
    let args = jobj(vec![]);
    match s.tool_call_request("anything", args) {
        Err(McpError::NotConnected) => (),
        _ => panic!("expected a not-connected failure"),
    }
}

#[test]
fn disconnect_is_idempotent() {
    let mut s = McpSession::new();
    s.disconnect();
    s.disconnect();
    assert!(!s.is_connected());
}

#[test]
fn tool_reply_with_invalid_text_is_a_parse_failure() {
    let reply = jobj(vec![("content", JsonValue::Arr(vec![jobj(vec![("text", jstr("not json"))])]))]);
    match decode_tool_reply(&reply) {
        Err(McpError::Parse(raw)) => assert_eq!(raw, "not json"),
        _ => panic!("expected a parse failure, not the raw text"),
    }
}

#[test]
fn tool_reply_with_valid_text_is_unwrapped() {
    let reply = jobj(vec![(
        "content",
        JsonValue::Arr(vec![jobj(vec![("text", jstr("{\"results\": []}"))])]),
    )]);
    match decode_tool_reply(&reply) {
        Ok(v) => assert!(matches!(get(&v, "results"), JsonValue::Arr(_))),
        _ => panic!("expected the unwrapped payload"),
    }
}

#[test]
fn tool_reply_without_content_passes_through() {
    let reply = jobj(vec![("status", JsonValue::Int(200))]);
    match decode_tool_reply(&reply) {
        Ok(v) => assert!(jeq(&v, &reply)),
        _ => panic!("expected the raw envelope"),
    }
}

#[test]
fn check_status_maps_upstream_failures() {
    let ok = jobj(vec![("status", JsonValue::Int(200))]);
    assert!(check_status(&ok).is_ok());
    let none = jobj(vec![("results", JsonValue::Arr(vec![]))]);
    assert!(check_status(&none).is_ok());
    let bad = jobj(vec![("status", JsonValue::Int(404)), ("message", jstr("gone"))]);
    match check_status(&bad) {
        Err(McpError::UpstreamStatus(code, m)) => {
            assert_eq!(code, 404);
            assert_eq!(m, "gone");
        },
        _ => panic!("expected an upstream failure"),
    }
    let bare = jobj(vec![("status", JsonValue::Int(500))]);
    match check_status(&bare) {
        Err(McpError::UpstreamStatus(code, m)) => {
            assert_eq!(code, 500);
            assert_eq!(m, "Unknown error");
        },
        _ => panic!("expected an upstream failure"),
    }
}

#[test]
fn error_messages_are_human_readable() {
    assert_eq!(
        McpError::Protocol("x".to_string()).message(),
        "MCP error: x"
    );
    assert_eq!(
        McpError::NotConnected.message(),
        "MCP client not connected"
    );
    assert!(McpError::HandshakeTimeout.message().contains("15 seconds"));
    assert!(McpError::RequestTimeout.message().contains("30 seconds"));
    assert_eq!(McpError::EmptyResult.message(), "Empty result");
    assert_eq!(
        McpError::UpstreamStatus(404, "gone".to_string()).message(),
        "Notion API error (404): gone"
    );
    assert_eq!(
        McpError::UpstreamStatus(-7, "odd".to_string()).message(),
        "Notion API error (-7): odd"
    );
    assert_eq!(CONNECT_TIMEOUT_SECS, 15);
    assert_eq!(REQUEST_TIMEOUT_SECS, 30);
}

#[test]
fn npx_resolution_probes_known_locations() {
    let cands = npx_candidates("npx", "/home/u");
    assert_eq!(cands.len(), 5);
    assert_eq!(cands[0], "npx");
    assert_eq!(cands[1], "/usr/local/bin/npx");
    assert_eq!(cands[3], "/home/u/bin/npx");
    let picked = resolve_command("npx", &cands, &vec![false, true, true, false, false]);
    assert_eq!(picked, "/usr/local/bin/npx");
    let fallback = resolve_command("npx", &cands, &vec![false, false, false, false, false]);
    assert_eq!(fallback, "npx");
    let other = resolve_command("node", &cands, &vec![true, true, true, true, true]);
    assert_eq!(other, "node");
}

#[test]
fn cached_token_wins_over_ambient() {
    let r = choose_token(Some("cached".to_string()), Some("ambient".to_string()));
    assert_eq!(r, Some("cached".to_string()));
    let r = choose_token(None, Some("ambient".to_string()));
    assert_eq!(r, Some("ambient".to_string()));
    assert_eq!(fallback_path(), "/usr/local/bin:/opt/homebrew/bin:/usr/bin:/bin");
}
