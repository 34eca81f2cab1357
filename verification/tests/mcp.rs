use gemini_cli_rs::error::GeminiError;
use gemini_cli_rs::json::JsonValue;
use gemini_cli_rs::mcp::{
    is_tool_call, make_response, on_http_body, on_line, on_parsed_request, parse_error_response, prepare_tool_call,
    response_id, tool_call_reply, tool_call_reply_text, Incoming, RequestAction, MAX_PROMPT_BYTES,
    TOOL_CALL_ERROR_MESSAGE,
};
use gemini_cli_rs::models::{DEFAULT_MODEL, HIGH_PERF_MODEL};

fn num(n: u64) -> JsonValue {
    JsonValue::Number(n.to_string())
}

fn s(t: &str) -> JsonValue {
    JsonValue::Str(t.to_string())
}

fn obj(members: Vec<(&str, JsonValue)>) -> JsonValue {
    JsonValue::Object(members.into_iter().map(|(k, v)| (k.to_string(), v)).collect())
}

fn req(id: u64, method: &str) -> JsonValue {
    obj(vec![
        ("jsonrpc", s("2.0")),
        ("id", num(id)),
        ("method", s(method)),
        ("params", obj(vec![])),
    ])
}

fn notif(method: &str) -> JsonValue {
    obj(vec![("jsonrpc", s("2.0")), ("method", s(method))])
}

fn at<'a>(v: &'a JsonValue, path: &[&str]) -> Option<&'a JsonValue> {
    let mut cur = v;
    for k in path {
        cur = cur.get(k)?;
    }
    Some(cur)
}

fn tool_call(arguments: JsonValue) -> JsonValue {
    obj(vec![("params", obj(vec![("name", s("ask_gemini_mcp")), ("arguments", arguments)]))])
}

fn prepare(request: &JsonValue) -> Result<gemini_cli_rs::mcp::ToolCall, GeminiError> {
    prepare_tool_call(request, DEFAULT_MODEL, HIGH_PERF_MODEL)
}

#[test]
fn initialize_returns_protocol_version() {
    let resp = make_response(&req(1, "initialize")).unwrap();
    assert_eq!(at(&resp, &["result", "protocolVersion"]), Some(&s("2024-11-05")));
    assert!(matches!(
        at(&resp, &["result", "capabilities", "tools"]),
        Some(JsonValue::Object(_))
    ));
}

#[test]
fn initialize_echoes_id() {
    let resp = make_response(&req(42, "initialize")).unwrap();
    assert_eq!(resp.get("id"), Some(&num(42)));
}

#[test]
fn initialized_notification_returns_none() {
    assert!(make_response(&notif("initialized")).is_none());
}

#[test]
fn initialize_notification_returns_none() {
    assert!(make_response(&notif("initialize")).is_none());
}

#[test]
fn tools_list_notification_returns_none() {
    assert!(make_response(&notif("tools/list")).is_none());
}

#[test]
fn tools_list_contains_ask_gemini_mcp() {
    let resp = make_response(&req(2, "tools/list")).unwrap();
    let tools = match at(&resp, &["result", "tools"]) {
        Some(JsonValue::Array(items)) => items,
        _ => panic!("tools is not an array"),
    };
    assert_eq!(tools.len(), 1);
    assert_eq!(tools[0].get("name"), Some(&s("ask_gemini_mcp")));
    let required = match at(&tools[0], &["inputSchema", "required"]) {
        Some(JsonValue::Array(items)) => items,
        _ => panic!("required is not an array"),
    };
    assert!(required.contains(&s("prompt")));
}

#[test]
fn unknown_method_with_id_returns_method_not_found() {
    let resp = make_response(&req(3, "unknown/method")).unwrap();
    assert_eq!(at(&resp, &["error", "code"]), Some(&JsonValue::Number("-32601".to_string())));
    assert_eq!(
        at(&resp, &["error", "message"]),
        Some(&s("Method not found: unknown/method"))
    );
}

#[test]
fn tools_list_schema_contains_thinking_parameter() {
    let resp = make_response(&req(2, "tools/list")).unwrap();
    let tools = match at(&resp, &["result", "tools"]) {
        Some(JsonValue::Array(items)) => items,
        _ => panic!("tools is not an array"),
    };
    let props = at(&tools[0], &["inputSchema", "properties"]).unwrap();
    assert!(props.get("thinking").is_some());
    assert_eq!(at(props, &["thinking", "type"]), Some(&s("boolean")));
}

#[test]
fn error_response_omits_internal_details() {
    let request = obj(vec![("id", num(1))]);
    let response = tool_call_reply(
        &request,
        Err(GeminiError::UnknownTool("secret-key-path-token".to_string())),
    )
    .unwrap();
    assert_eq!(at(&response, &["error", "code"]), Some(&JsonValue::Number("-32000".to_string())));
    let message = match at(&response, &["error", "message"]) {
        Some(JsonValue::Str(m)) => m.clone(),
        _ => panic!("message is not a string"),
    };
    assert_eq!(message, "Internal error");
    assert_eq!(message, TOOL_CALL_ERROR_MESSAGE);
    assert!(!message.contains("key"));
    assert!(!message.contains("path"));
    assert!(!message.contains("token"));
}

#[test]
fn ping_with_null_id_is_answered() {
    let request = obj(vec![("id", JsonValue::Null), ("method", s("ping"))]);
    let resp = make_response(&request).unwrap();
    assert_eq!(resp.get("id"), Some(&JsonValue::Null));
    assert_eq!(resp.get("result"), Some(&obj(vec![])));
}

#[test]
fn initialize_with_null_id_is_not_answered() {
    let request = obj(vec![("id", JsonValue::Null), ("method", s("initialize"))]);
    assert!(make_response(&request).is_none());
}

#[test]
fn initialize_reports_server_info() {
    let resp = make_response(&req(1, "initialize")).unwrap();
    assert_eq!(at(&resp, &["result", "serverInfo", "name"]), Some(&s("gemini-mcp")));
    assert_eq!(at(&resp, &["jsonrpc"]), Some(&s("2.0")));
}

#[test]
fn tools_list_describes_default_model() {
    let resp = make_response(&req(2, "tools/list")).unwrap();
    let tools = match at(&resp, &["result", "tools"]) {
        Some(JsonValue::Array(items)) => items,
        _ => panic!("tools is not an array"),
    };
    let desc = at(&tools[0], &["inputSchema", "properties", "model", "description"]).unwrap();
    assert_eq!(
        desc,
        &s("Gemini model to use (default: gemini-3-flash-preview). Ignored when thinking=true.")
    );
}

#[test]
fn parse_error_has_null_id() {
    let resp = parse_error_response();
    assert_eq!(resp.get("id"), Some(&JsonValue::Null));
    assert_eq!(at(&resp, &["error", "code"]), Some(&JsonValue::Number("-32700".to_string())));
    assert_eq!(at(&resp, &["error", "message"]), Some(&s("Parse error")));
}

#[test]
fn tool_reply_carries_text() {
    let request = obj(vec![("id", num(7))]);
    let resp = tool_call_reply::<GeminiError>(&request, Ok("answer".to_string())).unwrap();
    let content = match at(&resp, &["result", "content"]) {
        Some(JsonValue::Array(items)) => items,
        _ => panic!("content is not an array"),
    };
    assert_eq!(content[0].get("type"), Some(&s("text")));
    assert_eq!(content[0].get("text"), Some(&s("answer")));
    assert_eq!(resp.get("id"), Some(&num(7)));
}

#[test]
fn tool_reply_without_id_is_none() {
    let request = obj(vec![("id", JsonValue::Null)]);
    assert!(tool_call_reply::<GeminiError>(&request, Ok("x".to_string())).is_none());
    assert!(response_id(&request).is_none());
}

#[test]
fn tool_call_is_recognised() {
    assert!(is_tool_call(&notif("tools/call")));
    assert!(!is_tool_call(&notif("tools/list")));
    assert!(!is_tool_call(&obj(vec![])));
}

#[test]
fn call_tool_unknown_tool_name_errors() {
    let request = obj(vec![("params", obj(vec![("name", s("unknown_tool")), ("arguments", obj(vec![]))]))]);
    let err = prepare(&request).unwrap_err();
    assert!(err.message().contains("Unknown tool"));
}

#[test]
fn call_tool_empty_prompt_errors() {
    let err = prepare(&tool_call(obj(vec![("prompt", s("  "))]))).unwrap_err();
    assert!(err.message().contains("prompt must not be empty"));
}

#[test]
fn call_tool_empty_model_name_errors() {
    let err = prepare(&tool_call(obj(vec![("prompt", s("hi")), ("model", s(""))]))).unwrap_err();
    assert!(err.message().contains("Invalid model name"));
}

#[test]
fn call_tool_too_long_model_name_errors() {
    let long_model = "a".repeat(101);
    let err =
        prepare(&tool_call(obj(vec![("prompt", s("hi")), ("model", s(&long_model))]))).unwrap_err();
    assert!(err.message().contains("Invalid model name"));
}

#[test]
fn call_tool_oversized_prompt_errors() {
    let big_prompt = "x".repeat(1024 * 1024 + 1);
    let err = prepare(&tool_call(obj(vec![("prompt", s(&big_prompt))]))).unwrap_err();
    assert!(err.message().contains("exceeds maximum size"));
}

#[test]
fn call_tool_invalid_model_name_errors() {
    let err = prepare(&tool_call(obj(vec![("prompt", s("hi")), ("model", s("../../etc/passwd"))])))
        .unwrap_err();
    assert!(err.message().contains("Invalid model name"));
}

#[test]
fn call_tool_unicode_model_name_rejected() {
    let err =
        prepare(&tool_call(obj(vec![("prompt", s("hi")), ("model", s("モデル"))]))).unwrap_err();
    assert!(err.message().contains("Invalid model name"));
}

#[test]
fn call_tool_thinking_true_uses_high_perf_model_passes_validation() {
    let call =
        prepare(&tool_call(obj(vec![("prompt", s("hi")), ("thinking", JsonValue::Bool(true))])))
            .unwrap();
    assert_eq!(call.model, HIGH_PERF_MODEL);
}

#[test]
fn call_tool_thinking_false_falls_back_to_default() {
    let call =
        prepare(&tool_call(obj(vec![("prompt", s("hi")), ("thinking", JsonValue::Bool(false))])))
            .unwrap();
    assert_eq!(call.model, DEFAULT_MODEL);
}

#[test]
fn call_tool_thinking_overrides_named_model() {
    let call = prepare(&tool_call(obj(vec![
        ("prompt", s("hi")),
        ("model", s("gemini-2.5-pro")),
        ("thinking", JsonValue::Bool(true)),
    ])))
    .unwrap();
    assert_eq!(call.model, HIGH_PERF_MODEL);
}

#[test]
fn call_tool_trims_prompt_and_uses_named_model() {
    let call = prepare(&tool_call(obj(vec![
        ("prompt", s("  hello \n")),
        ("model", s("gemini-2.5-pro")),
    ])))
    .unwrap();
    assert_eq!(call.prompt, "hello");
    assert_eq!(call.model, "gemini-2.5-pro");
}

#[test]
fn call_tool_prompt_at_limit_is_accepted() {
    let prompt = "x".repeat(MAX_PROMPT_BYTES);
    let call = prepare(&tool_call(obj(vec![("prompt", s(&prompt))]))).unwrap();
    assert_eq!(call.prompt.len(), MAX_PROMPT_BYTES);
}

#[test]
fn call_tool_missing_params_is_unknown_tool() {
    let err = prepare(&obj(vec![])).unwrap_err();
    assert!(matches!(err, GeminiError::UnknownTool(ref n) if n.is_empty()));
}

#[test]
fn blank_lines_are_skipped() {
    assert!(matches!(on_line("   \t "), Incoming::Skip));
    assert!(matches!(on_line(""), Incoming::Skip));
}

#[test]
fn ping_line_is_answered_in_json() {
    match on_line("  {\"jsonrpc\":\"2.0\",\"id\":1,\"method\":\"ping\"}  ") {
        Incoming::Request { method, action: RequestAction::Reply(text) } => {
            assert_eq!(method, "ping");
            assert_eq!(text, r#"{"id":1,"jsonrpc":"2.0","result":{}}"#);
        }
        other => panic!("unexpected {:?}", other),
    }
}

#[test]
fn malformed_line_gets_parse_error() {
    match on_line("{not json") {
        Incoming::Malformed(text) => assert_eq!(
            text,
            r#"{"error":{"code":-32700,"message":"Parse error"},"id":null,"jsonrpc":"2.0"}"#
        ),
        other => panic!("unexpected {:?}", other),
    }
}

#[test]
fn notification_line_gets_no_reply() {
    assert!(matches!(
        on_line(r#"{"jsonrpc":"2.0","method":"initialized"}"#),
        Incoming::Request { action: RequestAction::NoReply, .. }
    ));
}

#[test]
fn tool_call_line_is_handed_over() {
    match on_line(r#"{"id":"a","method":"tools/call","params":{"name":"ask_gemini_mcp"}}"#) {
        Incoming::Request { method, action: RequestAction::CallTool(request) } => {
            assert_eq!(method, "tools/call");
            assert_eq!(request.get("id"), Some(&s("a")));
            let text = tool_call_reply_text(&request, Err::<String, ()>(())).unwrap();
            assert_eq!(
                text,
                r#"{"error":{"code":-32000,"message":"Internal error"},"id":"a","jsonrpc":"2.0"}"#
            );
        }
        other => panic!("unexpected {:?}", other),
    }
}

#[test]
fn http_body_must_be_utf8() {
    assert!(matches!(on_http_body(&[0xff, 0x00]), Incoming::Malformed(_)));
    assert!(matches!(
        on_http_body(br#"{"id":2,"method":"tools/list"}"#),
        Incoming::Request { action: RequestAction::Reply(_), .. }
    ));
}

#[test]
fn unknown_method_text_echoes_string_id() {
    match on_http_body(br#"{"id":"x-1","method":"nope"}"#) {
        Incoming::Request { action: RequestAction::Reply(text), .. } => assert_eq!(
            text,
            r#"{"error":{"code":-32601,"message":"Method not found: nope"},"id":"x-1","jsonrpc":"2.0"}"#
        ),
        other => panic!("unexpected {:?}", other),
    }
}

#[test]
fn parsed_request_is_dispatched() {
    match on_parsed_request(req(3, "ping")) {
        Incoming::Request { method, action: RequestAction::Reply(text) } => {
            assert_eq!(method, "ping");
            assert!(text.contains("\"id\":3"));
        }
        _ => panic!("expected a reply"),
    }
    assert!(matches!(
        on_parsed_request(notif("notifications/initialized")),
        Incoming::Request { action: RequestAction::NoReply, .. }
    ));
    let call = obj(vec![
        ("jsonrpc", s("2.0")),
        ("id", num(4)),
        ("method", s("tools/call")),
        ("params", obj(vec![("name", s("ask_gemini_mcp"))])),
    ]);
    assert!(matches!(
        on_parsed_request(call),
        Incoming::Request { action: RequestAction::CallTool(_), .. }
    ));
}

/// The reply the stdio server writes for `line`, with `answer` as the
/// outcome of any tool call.
fn stdio_reply_line(line: &str, answer: Result<String, GeminiError>) -> Option<String> {
    match on_line(line) {
        Incoming::Skip => None,
        Incoming::Malformed(t) => Some(t),
        Incoming::Request { action, .. } => match action {
            RequestAction::Reply(t) => Some(t),
            RequestAction::NoReply => None,
            RequestAction::CallTool(request) => tool_call_reply_text(&request, answer),
        },
    }
}

#[test]
fn stdio_replies_are_jsonrpc_responses() {
    let lines = [
        "",
        "   ",
        "not json",
        r#"{"jsonrpc":"2.0","id":1,"method":"ping"}"#,
        r#"{"jsonrpc":"2.0","method":"notifications/initialized"}"#,
        r#"{"jsonrpc":"2.0","id":2,"method":"nope"}"#,
        r#"{"jsonrpc":"2.0","id":3,"method":"tools/call","params":{"name":"ask_gemini_mcp"}}"#,
        r#"{"jsonrpc":"2.0","method":"tools/call","params":{"name":"ask_gemini_mcp"}}"#,
    ];
    let expected = [false, false, true, true, false, true, true, false];
    for (line, want) in lines.iter().zip(expected) {
        for answer in [Ok("text".to_string()), Err(GeminiError::EmptyPrompt)] {
            let reply = stdio_reply_line(line, answer);
            assert_eq!(reply.is_some(), want, "line {line:?}");
            if let Some(text) = reply {
                assert!(!text.contains('\n'));
                let v: serde_json::Value = serde_json::from_str(&text).unwrap();
                assert_eq!(v["jsonrpc"], "2.0");
                assert!(v.get("id").is_some());
            }
        }
    }
}
