//! The MCP server's JSON-RPC 2.0 rules: the answers to protocol methods, the
//! checks on a tool call, and the replies to it.
use vstd::prelude::*;
use vstd::utf8::{decode_utf8, encode_utf8, valid_utf8};

use crate::error::GeminiError;
use crate::json::{
    member_lookup, parsed_json, read_json_text, write_json_text, written_json, Json, JsonValue,
};
use crate::models::{validate_model_name, valid_model_name, DEFAULT_MODEL, HIGH_PERF_MODEL};
use crate::text::{same_text, string_from_utf8, trim, trimmed};

verus! {

/// The MCP protocol revision this server speaks.
pub const PROTOCOL_VERSION: &'static str = "2024-11-05";

/// The server's name, reported at initialization.
pub const SERVER_NAME: &'static str = "gemini-mcp";

/// The server's version, reported at initialization.
pub const SERVER_VERSION: &'static str = "0.1.6";

/// The name of the one tool the server offers.
pub const TOOL_NAME: &'static str = "ask_gemini_mcp";

/// The description of the tool.
pub const TOOL_DESCRIPTION: &'static str = "Ask Google Gemini a question. Supports Google Search grounding for up-to-date information. Use for web search, code review, and technical advice.";

/// The message of every failed tool call: internal details never reach the
/// client.
pub const TOOL_CALL_ERROR_MESSAGE: &'static str = "Internal error";

/// The longest input line the stdio server reads, in bytes (1 MB).
pub const MAX_LINE_BYTES: usize = 1024 * 1024;

/// The largest request body the HTTP server reads, in bytes (10 MB).
pub const MAX_HTTP_BODY_BYTES: usize = 10 * 1024 * 1024;

/// The largest prompt a tool call may carry, in bytes (1 MB).
pub const MAX_PROMPT_BYTES: usize = 1024 * 1024;

// --- Shapes of the messages ---

/// A JSON-RPC response: version, id, and `key` (result or error) set to `body`.
pub open spec fn rpc_envelope(id: Json, key: Seq<char>, body: Json) -> Json {
    Json::Object(seq![("jsonrpc"@, Json::Str("2.0"@)), ("id"@, id), (key, body)])
}

/// A successful JSON-RPC response.
pub open spec fn rpc_result(id: Json, result: Json) -> Json {
    rpc_envelope(id, "result"@, result)
}

/// A JSON-RPC error response.
pub open spec fn rpc_error(id: Json, code: Seq<char>, message: Seq<char>) -> Json {
    rpc_envelope(
        id,
        "error"@,
        Json::Object(seq![("code"@, Json::Number(code)), ("message"@, Json::Str(message))]),
    )
}

/// The result of `initialize`.
pub open spec fn initialize_result() -> Json {
    Json::Object(
        seq![
            ("protocolVersion"@, Json::Str(PROTOCOL_VERSION@)),
            ("capabilities"@, Json::Object(seq![("tools"@, Json::Object(Seq::empty()))])),
            (
                "serverInfo"@,
                Json::Object(
                    seq![("name"@, Json::Str(SERVER_NAME@)), ("version"@, Json::Str(SERVER_VERSION@))],
                ),
            ),
        ],
    )
}

/// The schema of one tool parameter.
pub open spec fn param_schema(ty: Seq<char>, description: Seq<char>) -> Json {
    Json::Object(seq![("type"@, Json::Str(ty)), ("description"@, Json::Str(description))])
}

/// The description of the `model` parameter.
pub open spec fn model_param_description() -> Seq<char> {
    "Gemini model to use (default: "@ + DEFAULT_MODEL@ + "). Ignored when thinking=true."@
}

/// The description of the `thinking` parameter.
pub open spec fn thinking_param_description() -> Seq<char> {
    "Use the high-performance model ("@ + HIGH_PERF_MODEL@
        + ") for complex reasoning, deep analysis, or multi-step tasks. Default: false (uses "@
        + DEFAULT_MODEL@ + ")."@
}

/// The input schema of the tool.
pub open spec fn input_schema() -> Json {
    Json::Object(
        seq![
            ("type"@, Json::Str("object"@)),
            (
                "properties"@,
                Json::Object(
                    seq![
                        ("prompt"@, param_schema("string"@, "The prompt to send to Gemini"@)),
                        ("model"@, param_schema("string"@, model_param_description())),
                        ("thinking"@, param_schema("boolean"@, thinking_param_description())),
                    ],
                ),
            ),
            ("required"@, Json::Array(seq![Json::Str("prompt"@)])),
        ],
    )
}

/// The result of `tools/list`: the one tool.
pub open spec fn tools_list_result() -> Json {
    Json::Object(
        seq![
            (
                "tools"@,
                Json::Array(
                    seq![
                        Json::Object(
                            seq![
                                ("name"@, Json::Str(TOOL_NAME@)),
                                ("description"@, Json::Str(TOOL_DESCRIPTION@)),
                                ("inputSchema"@, input_schema()),
                            ],
                        ),
                    ],
                ),
            ),
        ],
    )
}

/// The result of a successful tool call: one text content item.
pub open spec fn tool_result(text: Seq<char>) -> Json {
    Json::Object(
        seq![
            (
                "content"@,
                Json::Array(
                    seq![Json::Object(seq![("type"@, Json::Str("text"@)), ("text"@, Json::Str(text))])],
                ),
            ),
        ],
    )
}

// --- Reading requests ---

/// The member `key`, or `null` when it is missing (as indexing a
/// `serde_json::Value` gives).
pub open spec fn member_or_null(j: Json, key: Seq<char>) -> Json {
    match j.get(key) {
        Some(v) => v,
        None => Json::Null,
    }
}

/// The method of a request; empty when it is missing or not a string.
pub open spec fn method_of(request: Json) -> Seq<char> {
    match member_or_null(request, "method"@) {
        Json::Str(m) => m,
        _ => Seq::empty(),
    }
}

/// The id of a request when it is present and not `null`.
pub open spec fn non_null_id(request: Json) -> Option<Json> {
    match request.get("id"@) {
        Some(id) => if id == Json::Null {
            None
        } else {
            Some(id)
        },
        None => None,
    }
}

/// The answer to a request other than `tools/call`. `initialize` and
/// `tools/list` are answered only when the id is present and not null; `ping`
/// and unknown methods whenever an id is present; `initialized` never.
pub open spec fn response_for(request: Json) -> Option<Json> {
    let id = request.get("id"@);
    let m = method_of(request);
    if m == "initialize"@ {
        match non_null_id(request) {
            Some(i) => Some(rpc_result(i, initialize_result())),
            None => None,
        }
    } else if m == "initialized"@ {
        None
    } else if m == "ping"@ {
        match id {
            Some(i) => Some(rpc_result(i, Json::Object(Seq::empty()))),
            None => None,
        }
    } else if m == "tools/list"@ {
        match non_null_id(request) {
            Some(i) => Some(rpc_result(i, tools_list_result())),
            None => None,
        }
    } else {
        match id {
            Some(i) => Some(rpc_error(i, "-32601"@, "Method not found: "@ + m)),
            None => None,
        }
    }
}

// --- Builders ---

/// A JSON-RPC response with `key` set to `body`.
fn envelope(id: JsonValue, key: &str, body: JsonValue) -> (j: JsonValue)
    ensures
        j@ == rpc_envelope(id@, key@, body@),
{
    proof {
        reveal_strlit("2.0");
    }
    JsonValue::object3(
        JsonValue::member("jsonrpc", JsonValue::string("2.0")),
        JsonValue::member("id", id),
        JsonValue::member(key, body),
    )
}

/// A JSON-RPC error response.
fn error_response(id: JsonValue, code: &str, message: &str) -> (j: JsonValue)
    ensures
        j@ == rpc_error(id@, code@, message@),
{
    let body = JsonValue::object2(
        JsonValue::member("code", JsonValue::number(code)),
        JsonValue::member("message", JsonValue::string(message)),
    );
    envelope(id, "error", body)
}

fn initialize_result_value() -> (j: JsonValue)
    ensures
        j@ == initialize_result(),
{
    let capabilities = JsonValue::object1(
        JsonValue::member("tools", JsonValue::empty_object()),
    );
    let server_info = JsonValue::object2(
        JsonValue::member("name", JsonValue::string(SERVER_NAME)),
        JsonValue::member("version", JsonValue::string(SERVER_VERSION)),
    );
    JsonValue::object3(
        JsonValue::member("protocolVersion", JsonValue::string(PROTOCOL_VERSION)),
        JsonValue::member("capabilities", capabilities),
        JsonValue::member("serverInfo", server_info),
    )
}

fn param_schema_value(ty: &str, description: &str) -> (j: JsonValue)
    ensures
        j@ == param_schema(ty@, description@),
{
    JsonValue::object2(
        JsonValue::member("type", JsonValue::string(ty)),
        JsonValue::member("description", JsonValue::string(description)),
    )
}

fn input_schema_value() -> (j: JsonValue)
    ensures
        j@ == input_schema(),
{
    let mut model_desc = String::from_str("Gemini model to use (default: ");
    model_desc.append(DEFAULT_MODEL);
    model_desc.append("). Ignored when thinking=true.");
    let mut thinking_desc = String::from_str("Use the high-performance model (");
    thinking_desc.append(HIGH_PERF_MODEL);
    thinking_desc.append(
        ") for complex reasoning, deep analysis, or multi-step tasks. Default: false (uses ",
    );
    thinking_desc.append(DEFAULT_MODEL);
    thinking_desc.append(").");
    let properties = JsonValue::object3(
        JsonValue::member("prompt", param_schema_value("string", "The prompt to send to Gemini")),
        JsonValue::member("model", param_schema_value("string", model_desc.as_str())),
        JsonValue::member("thinking", param_schema_value("boolean", thinking_desc.as_str())),
    );
    JsonValue::object3(
        JsonValue::member("type", JsonValue::string("object")),
        JsonValue::member("properties", properties),
        JsonValue::member("required", JsonValue::array1(JsonValue::string("prompt"))),
    )
}

fn tools_list_value() -> (j: JsonValue)
    ensures
        j@ == tools_list_result(),
{
    let tool = JsonValue::object3(
        JsonValue::member("name", JsonValue::string(TOOL_NAME)),
        JsonValue::member("description", JsonValue::string(TOOL_DESCRIPTION)),
        JsonValue::member("inputSchema", input_schema_value()),
    );
    JsonValue::object1(JsonValue::member("tools", JsonValue::array1(tool)))
}

// --- Answers ---

/// The member `key` of `j`, read as a string; empty when it is missing or not
/// a string (as `value[key].as_str().unwrap_or("")` reads it).
pub open spec fn str_or_empty(j: Json, key: Seq<char>) -> Seq<char> {
    match member_or_null(j, key) {
        Json::Str(s) => s,
        _ => Seq::empty(),
    }
}

/// Reads the member `key` of `j` as a string, or the empty string.
fn read_str<'a>(j: &'a JsonValue, key: &str) -> (s: &'a str)
    ensures
        s@ == str_or_empty(j@, key@),
{
    proof {
        reveal_strlit("");
    }
    match j.get(key) {
        Some(v) => match v.as_str() {
            Some(t) => t,
            None => "",
        },
        None => "",
    }
}

/// The id of a request, when present and not `null`: the id that replies to
/// a tool call carry.
pub fn response_id(request: &JsonValue) -> (id: Option<JsonValue>)
    ensures
        id matches Some(i) ==> non_null_id(request@) == Some(i@),
        id is None ==> non_null_id(request@) is None,
{
    match request.get("id") {
        Some(v) => if v.is_null() {
            None
        } else {
            Some(v.copy())
        },
        None => None,
    }
}

/// Whether the request is a tool call, which the server answers itself.
pub fn is_tool_call(request: &JsonValue) -> (b: bool)
    ensures
        b == (method_of(request@) == "tools/call"@),
{
    let m = read_str(request, "method");
    same_text(m, "tools/call")
}

/// The answer to a request other than a tool call, as `response_for` says;
/// none for notifications.
pub fn make_response(request: &JsonValue) -> (r: Option<JsonValue>)
    ensures
        r matches Some(v) ==> response_for(request@) == Some(v@),
        r is None ==> response_for(request@) is None,
{
    let id: Option<JsonValue> = match request.get("id") {
        Some(v) => Some(v.copy()),
        None => None,
    };
    let method = read_str(request, "method");
    if same_text(method, "initialize") {
        match id {
            Some(i) => if i.is_null() {
                None
            } else {
                Some(envelope(i, "result", initialize_result_value()))
            },
            None => None,
        }
    } else if same_text(method, "initialized") {
        None
    } else if same_text(method, "ping") {
        match id {
            Some(i) => Some(envelope(i, "result", JsonValue::empty_object())),
            None => None,
        }
    } else if same_text(method, "tools/list") {
        match id {
            Some(i) => if i.is_null() {
                None
            } else {
                Some(envelope(i, "result", tools_list_value()))
            },
            None => None,
        }
    } else {
        match id {
            Some(i) => {
                let mut message = String::from_str("Method not found: ");
                message.append(method);
                Some(error_response(i, "-32601", message.as_str()))
            },
            None => None,
        }
    }
}

/// The answer to a line or body that is not JSON.
pub fn parse_error_response() -> (j: JsonValue)
    ensures
        j@ == rpc_error(Json::Null, "-32700"@, "Parse error"@),
{
    error_response(JsonValue::Null, "-32700", "Parse error")
}

/// The reply to a tool call: none without an id; else the answer text as a
/// text content item, or, whatever the error, the code -32000 with the fixed
/// message `TOOL_CALL_ERROR_MESSAGE`.
pub fn tool_call_reply<E>(request: &JsonValue, outcome: Result<String, E>) -> (r: Option<
    JsonValue,
>)
    ensures
        non_null_id(request@) is None ==> r is None,
        non_null_id(request@) matches Some(id) ==> r matches Some(v) && v@ == match outcome {
            Ok(text) => rpc_result(id, tool_result(text@)),
            Err(_) => rpc_error(id, "-32000"@, TOOL_CALL_ERROR_MESSAGE@),
        },
{
    match response_id(request) {
        None => None,
        Some(id) => match outcome {
            Ok(text) => {
                let item = JsonValue::object2(
                    JsonValue::member("type", JsonValue::string("text")),
                    JsonValue::member("text", JsonValue::string(text.as_str())),
                );
                let result = JsonValue::object1(
                    JsonValue::member("content", JsonValue::array1(item)),
                );
                Some(envelope(id, "result", result))
            },
            Err(_) => Some(error_response(id, "-32000", TOOL_CALL_ERROR_MESSAGE)),
        },
    }
}

// --- Tool calls ---

/// What a tool call asks for, once checked.
#[derive(Debug)]
pub struct ToolCall {
    /// The prompt, trimmed.
    pub prompt: String,
    /// The model to ask.
    pub model: String,
}

/// The `params` of a request.
pub open spec fn params_of(request: Json) -> Json {
    member_or_null(request, "params"@)
}

/// The `arguments` of a tool call.
pub open spec fn arguments_of(request: Json) -> Json {
    member_or_null(params_of(request), "arguments"@)
}

/// The tool a call names.
pub open spec fn tool_name_of(request: Json) -> Seq<char> {
    str_or_empty(params_of(request), "name"@)
}

/// The prompt of a tool call, trimmed.
pub open spec fn prompt_of(request: Json) -> Seq<char> {
    trimmed(str_or_empty(arguments_of(request), "prompt"@))
}

/// Whether a tool call asks for the high-performance model.
pub open spec fn thinking_of(request: Json) -> bool {
    match member_or_null(arguments_of(request), "thinking"@) {
        Json::Bool(b) => b,
        _ => false,
    }
}

/// The model a tool call is to use: the high-performance one when thinking,
/// else the one it names, else the default.
pub open spec fn model_of(request: Json, default_model: Seq<char>, high_perf_model: Seq<char>) -> Seq<
    char,
> {
    if thinking_of(request) {
        high_perf_model
    } else {
        match member_or_null(arguments_of(request), "model"@) {
            Json::Str(m) => m,
            _ => default_model,
        }
    }
}

/// Checks a tool call and reads what it asks for. In order: the tool must be
/// `TOOL_NAME`; the trimmed prompt must not be empty, nor longer than
/// `MAX_PROMPT_BYTES` bytes; the model name must be valid.
pub fn prepare_tool_call(request: &JsonValue, default_model: &str, high_perf_model: &str) -> (r:
    Result<ToolCall, GeminiError>)
    ensures
        ({
            let req = request@;
            let name = tool_name_of(req);
            let prompt = prompt_of(req);
            let model = model_of(req, default_model@, high_perf_model@);
            if name != TOOL_NAME@ {
                r matches Err(GeminiError::UnknownTool(n)) && n@ == name
            } else if prompt.len() == 0 {
                r == Err::<ToolCall, GeminiError>(GeminiError::EmptyPrompt)
            } else if encode_utf8(prompt).len() > MAX_PROMPT_BYTES {
                r == Err::<ToolCall, GeminiError>(GeminiError::PromptTooLarge)
            } else if !valid_model_name(model) {
                r == Err::<ToolCall, GeminiError>(GeminiError::InvalidModelName)
            } else {
                r matches Ok(call) && call.prompt@ == prompt && call.model@ == model
            }
        }),
{
    proof {
        reveal_strlit("");
    }
    let params = request.get("params");
    let name: &str = match params {
        Some(p) => read_str(p, "name"),
        None => "",
    };
    if !same_text(name, TOOL_NAME) {
        return Err(GeminiError::UnknownTool(name.to_owned()));
    }
    let args: Option<&JsonValue> = match params {
        Some(p) => p.get("arguments"),
        None => None,
    };
    let raw_prompt: &str = match args {
        Some(a) => read_str(a, "prompt"),
        None => "",
    };
    let prompt = trim(raw_prompt).to_owned();
    let thinking = match args {
        Some(a) => match a.get("thinking") {
            Some(t) => match t.as_bool() {
                Some(b) => b,
                None => false,
            },
            None => false,
        },
        None => false,
    };
    let model: String = if thinking {
        high_perf_model.to_owned()
    } else {
        let named: Option<&str> = match args {
            Some(a) => match a.get("model") {
                Some(m) => m.as_str(),
                None => None,
            },
            None => None,
        };
        match named {
            Some(m) => m.to_owned(),
            None => default_model.to_owned(),
        }
    };
    assert(raw_prompt@ == str_or_empty(arguments_of(request@), "prompt"@));
    assert(prompt@ == prompt_of(request@));
    assert(model@ == model_of(request@, default_model@, high_perf_model@));
    if prompt.as_str().is_empty() {
        return Err(GeminiError::EmptyPrompt);
    }
    if prompt.as_str().as_bytes().len() > MAX_PROMPT_BYTES {
        return Err(GeminiError::PromptTooLarge);
    }
    match validate_model_name(model.as_str()) {
        Ok(()) => Ok(ToolCall { prompt, model }),
        Err(e) => Err(e),
    }
}

// --- Handling one input ---

/// What a request asks of the server.
#[derive(Debug)]
pub enum RequestAction {
    /// Write this line back.
    Reply(String),
    /// Write nothing back (a notification).
    NoReply,
    /// Run the tool call in this request, then reply with
    /// `tool_call_reply_text`.
    CallTool(JsonValue),
}

/// What to do with one input line or request body.
#[derive(Debug)]
pub enum Incoming {
    /// A blank line: nothing.
    Skip,
    /// Not a JSON document: write this parse-error line back.
    Malformed(String),
    /// A request, with its method (for the log) and what it asks.
    Request { method: String, action: RequestAction },
}

/// The answer to input that is not JSON.
pub open spec fn parse_error_json() -> Json {
    rpc_error(Json::Null, "-32700"@, "Parse error"@)
}

/// What `request` asks: tool calls are run, other requests answered as
/// `response_for` says, in JSON text.
pub open spec fn action_for(request: Json, a: RequestAction) -> bool {
    if method_of(request) == "tools/call"@ {
        a matches RequestAction::CallTool(v) && v@ == request
    } else {
        match response_for(request) {
            Some(answer) => a matches RequestAction::Reply(t) && t@ == written_json(answer),
            None => a is NoReply,
        }
    }
}

/// What to do with the request text `text`.
pub open spec fn incoming_for(text: Seq<char>, r: Incoming) -> bool {
    match parsed_json(text) {
        None => r matches Incoming::Malformed(t) && t@ == written_json(parse_error_json()),
        Some(request) => r matches Incoming::Request { method, action } && method@ == method_of(
            request,
        ) && action_for(request, action),
    }
}

/// Handles one parsed request: tool calls are handed over, other requests
/// answered in JSON text, as `action_for` says.
pub fn on_parsed_request(request: JsonValue) -> (r: Incoming)
    ensures
        r matches Incoming::Request { method, action } && method@ == method_of(request@)
            && action_for(request@, action),
{
    let method = read_str(&request, "method").to_owned();
    let action = if is_tool_call(&request) {
        RequestAction::CallTool(request)
    } else {
        match make_response(&request) {
            Some(answer) => RequestAction::Reply(write_json_text(&answer)),
            None => RequestAction::NoReply,
        }
    };
    Incoming::Request { method, action }
}

/// Handles one request text, as `incoming_for` says.
pub fn on_request(text: &str) -> (r: Incoming)
    ensures
        incoming_for(text@, r),
{
    match read_json_text(text) {
        None => Incoming::Malformed(write_json_text(&parse_error_response())),
        Some(request) => on_parsed_request(request),
    }
}

/// What to do with the stdio input line `line`: nothing when it is blank,
/// else what its trimmed text asks.
pub open spec fn line_incoming(line: Seq<char>, r: Incoming) -> bool {
    if trimmed(line).len() == 0 {
        r is Skip
    } else {
        incoming_for(trimmed(line), r)
    }
}

/// Handles one line of the stdio transport: blank lines are skipped, others
/// are trimmed and handled as requests.
pub fn on_line(line: &str) -> (r: Incoming)
    ensures
        line_incoming(line@, r),
{
    let t = trim(line);
    if t.is_empty() {
        Incoming::Skip
    } else {
        on_request(t)
    }
}

/// Handles one body of the HTTP transport: a body that is not UTF-8 is
/// answered with a parse error; others are handled as requests.
pub fn on_http_body(body: &[u8]) -> (r: Incoming)
    ensures
        !valid_utf8(body@) ==> (r matches Incoming::Malformed(t) && t@ == written_json(
            parse_error_json(),
        )),
        valid_utf8(body@) ==> incoming_for(decode_utf8(body@), r),
{
    let bytes = vstd::slice::slice_to_vec(body);
    match string_from_utf8(bytes) {
        None => Incoming::Malformed(write_json_text(&parse_error_response())),
        Some(text) => on_request(text.as_str()),
    }
}

/// The reply line to a tool call, as `tool_call_reply` gives it, in JSON
/// text; none without an id.
pub fn tool_call_reply_text<E>(request: &JsonValue, outcome: Result<String, E>) -> (r: Option<
    String,
>)
    ensures
        non_null_id(request@) is None ==> r is None,
        non_null_id(request@) matches Some(id) ==> r matches Some(t) && t@ == written_json(
            match outcome {
                Ok(text) => rpc_result(id, tool_result(text@)),
                Err(_) => rpc_error(id, "-32000"@, TOOL_CALL_ERROR_MESSAGE@),
            },
        ),
        match tool_reply_json(request@, outcome_text(outcome)) {
            Some(j) => r matches Some(t) && t@ == written_json(j),
            None => r is None,
        },
{
    match tool_call_reply(request, outcome) {
        Some(reply) => Some(write_json_text(&reply)),
        None => None,
    }
}

/// A notification (a request without an id) is never answered.
pub proof fn law_notifications_unanswered(request: Json)
    requires
        request.get("id"@) is None,
    ensures
        response_for(request) is None,
{
}

/// Every answer carries the id of its request.
pub proof fn law_answer_echoes_id(request: Json)
    ensures
        response_for(request) matches Some(answer) ==> answer.get("id"@) == request.get("id"@),
{
    if let Some(answer) = response_for(request) {
        let ms = match answer {
            Json::Object(ms) => ms,
            _ => Seq::empty(),
        };
        assert(ms[0].0 == "jsonrpc"@);
        assert(ms[1].0 == "id"@);
        assert("jsonrpc"@ != "id"@) by {
            reveal_strlit("jsonrpc");
            reveal_strlit("id");
            assert("jsonrpc"@.len() != "id"@.len());
        }
        assert(ms.drop_first()[0] == ms[1]);
        assert(ms[1].1 == request.get("id"@)->0);
        reveal_with_fuel(crate::json::member_lookup, 2);
        assert(member_lookup(ms.drop_first(), "id"@) == Some(ms[1].1));
    }
}

/// The text of a tool call's outcome: the answer, or none when it failed.
pub open spec fn outcome_text<E>(outcome: Result<String, E>) -> Option<Seq<char>> {
    match outcome {
        Ok(text) => Some(text@),
        Err(_) => None,
    }
}

/// The reply to the tool call `request` whose outcome is `outcome` (the
/// answer text, or none when it failed): none without an id.
pub open spec fn tool_reply_json(request: Json, outcome: Option<Seq<char>>) -> Option<Json> {
    match non_null_id(request) {
        None => None,
        Some(id) => Some(
            match outcome {
                Some(text) => rpc_result(id, tool_result(text)),
                None => rpc_error(id, "-32000"@, TOOL_CALL_ERROR_MESSAGE@),
            },
        ),
    }
}

/// The text the stdio server writes back after handling an input line as
/// `incoming` says, the tool call it may ask for having ended with
/// `outcome`: the parse error or answer it holds, or the reply to the tool
/// call in JSON text.
pub open spec fn reply_of(incoming: Incoming, outcome: Option<Seq<char>>) -> Option<Seq<char>> {
    match incoming {
        Incoming::Skip => None,
        Incoming::Malformed(t) => Some(t@),
        Incoming::Request { action, .. } => match action {
            RequestAction::Reply(t) => Some(t@),
            RequestAction::NoReply => None,
            RequestAction::CallTool(v) => match tool_reply_json(v@, outcome) {
                Some(j) => Some(written_json(j)),
                None => None,
            },
        },
    }
}

/// The JSON-RPC response the stdio server writes for the input line `line`,
/// when the tool call it may hold ends with `outcome`; none for blank lines,
/// notifications and tool calls without an id.
pub open spec fn stdio_reply(line: Seq<char>, outcome: Option<Seq<char>>) -> Option<Json> {
    let t = trimmed(line);
    if t.len() == 0 {
        None
    } else {
        match parsed_json(t) {
            None => Some(parse_error_json()),
            Some(request) => if method_of(request) == "tools/call"@ {
                tool_reply_json(request, outcome)
            } else {
                response_for(request)
            },
        }
    }
}

/// Whether `j` is a JSON-RPC 2.0 response: an object whose `jsonrpc` member
/// is the string "2.0" and which has an `id` member.
pub open spec fn is_rpc_response(j: Json) -> bool {
    &&& j is Object
    &&& j.get("jsonrpc"@) == Some(Json::Str("2.0"@))
    &&& j.get("id"@) is Some
}

/// A response envelope is a JSON-RPC 2.0 response carrying its id.
pub proof fn lemma_envelope_is_response(id: Json, key: Seq<char>, body: Json)
    ensures
        is_rpc_response(rpc_envelope(id, key, body)),
        rpc_envelope(id, key, body).get("id"@) == Some(id),
{
    let ms = seq![("jsonrpc"@, Json::Str("2.0"@)), ("id"@, id), (key, body)];
    assert("jsonrpc"@ != "id"@) by {
        reveal_strlit("jsonrpc");
        reveal_strlit("id");
        assert("jsonrpc"@.len() != "id"@.len());
    }
    assert(ms.drop_first()[0] == ms[1]);
    reveal_with_fuel(crate::json::member_lookup, 2);
    assert(member_lookup(ms, "jsonrpc"@) == Some(Json::Str("2.0"@)));
    assert(member_lookup(ms.drop_first(), "id"@) == Some(id));
}

/// Over the stdio transport, each input line gets at most one reply line,
/// written after the line is handled: what `on_line` returns for the line,
/// then `tool_call_reply_text` for a tool call, write exactly the JSON text
/// of `stdio_reply`. A blank line gets none, and every reply is a JSON-RPC
/// 2.0 response: an object with `jsonrpc` "2.0" and an `id`.
pub proof fn law_stdio_line_replies(
    line: Seq<char>,
    incoming: Incoming,
    outcome: Option<Seq<char>>,
)
    requires
        line_incoming(line, incoming),
    ensures
        reply_of(incoming, outcome) == match stdio_reply(line, outcome) {
            Some(j) => Some(written_json(j)),
            None => None::<Seq<char>>,
        },
        trimmed(line).len() == 0 ==> stdio_reply(line, outcome) is None,
        stdio_reply(line, outcome) matches Some(j) ==> is_rpc_response(j),
{
    let t = trimmed(line);
    if t.len() > 0 {
        match parsed_json(t) {
            None => {
                lemma_envelope_is_response(Json::Null, "error"@, Json::Object(
                    seq![("code"@, Json::Number("-32700"@)), ("message"@, Json::Str("Parse error"@))],
                ));
            },
            Some(request) => {
                if method_of(request) == "tools/call"@ {
                    if let Some(id) = non_null_id(request) {
                        match outcome {
                            Some(text) => lemma_envelope_is_response(id, "result"@, tool_result(text)),
                            None => lemma_envelope_is_response(
                                id,
                                "error"@,
                                Json::Object(
                                    seq![
                                        ("code"@, Json::Number("-32000"@)),
                                        ("message"@, Json::Str(TOOL_CALL_ERROR_MESSAGE@)),
                                    ],
                                ),
                            ),
                        }
                    }
                } else {
                    lemma_response_is_rpc(request);
                }
            },
        }
    }
}

/// Every answer to a request other than a tool call is a JSON-RPC 2.0
/// response.
pub proof fn lemma_response_is_rpc(request: Json)
    ensures
        response_for(request) matches Some(j) ==> is_rpc_response(j),
{
    let id = request.get("id"@);
    let m = method_of(request);
    if let Some(answer) = response_for(request) {
        if m == "initialize"@ {
            lemma_envelope_is_response(non_null_id(request)->0, "result"@, initialize_result());
        } else if m == "ping"@ {
            lemma_envelope_is_response(id->0, "result"@, Json::Object(Seq::empty()));
        } else if m == "tools/list"@ {
            lemma_envelope_is_response(non_null_id(request)->0, "result"@, tools_list_result());
        } else {
            lemma_envelope_is_response(
                id->0,
                "error"@,
                Json::Object(
                    seq![
                        ("code"@, Json::Number("-32601"@)),
                        ("message"@, Json::Str("Method not found: "@ + m)),
                    ],
                ),
            );
        }
    }
}

/// Only a `thinking` argument that is `true` picks the high-performance
/// model. Otherwise (`thinking` false, absent or not a boolean alike) a
/// string `model` argument is the model of the call, and without one the
/// default model is.
pub proof fn law_model_choice(request: Json, default_model: Seq<char>, high_perf_model: Seq<char>)
    ensures
        member_or_null(arguments_of(request), "thinking"@) == Json::Bool(true) ==> model_of(
            request,
            default_model,
            high_perf_model,
        ) == high_perf_model,
        member_or_null(arguments_of(request), "thinking"@) != Json::Bool(true) ==> model_of(
            request,
            default_model,
            high_perf_model,
        ) == match member_or_null(arguments_of(request), "model"@) {
            Json::Str(m) => m,
            _ => default_model,
        },
{
}

/// The key of the `inputSchema` member differs from the other keys of a
/// tool's description, and `result` from the other keys of a response.
proof fn lemma_schema_keys_distinct()
    ensures
        "inputSchema"@ != "name"@,
        "inputSchema"@ != "description"@,
        "result"@ != "jsonrpc"@,
        "result"@ != "id"@,
        "required"@ != "type"@,
        "required"@ != "properties"@,
        "tools/list"@ != "initialize"@,
        "tools/list"@ != "initialized"@,
        "tools/list"@ != "ping"@,
{
    reveal_strlit("inputSchema");
    reveal_strlit("name");
    reveal_strlit("description");
    reveal_strlit("result");
    reveal_strlit("jsonrpc");
    reveal_strlit("id");
    reveal_strlit("required");
    reveal_strlit("type");
    reveal_strlit("properties");
    reveal_strlit("tools/list");
    reveal_strlit("initialize");
    reveal_strlit("initialized");
    reveal_strlit("ping");
    assert("inputSchema"@[0] != "description"@[0]);
    assert("tools/list"@[0] != "initialize"@[0]);
    assert("inputSchema"@.len() != "name"@.len());
    assert("result"@.len() != "jsonrpc"@.len());
    assert("result"@.len() != "id"@.len());
    assert("required"@.len() != "type"@.len());
    assert("required"@.len() != "properties"@.len());
    assert("tools/list"@.len() != "initialized"@.len());
    assert("tools/list"@.len() != "ping"@.len());
}

/// The `required` list of the input schema of the first tool that a
/// `tools/list` answer describes, found by following its members.
pub open spec fn first_tool_required(answer: Json) -> Option<Json> {
    match answer.get("result"@) {
        Some(result) => match result.get("tools"@) {
            Some(Json::Array(tools)) => if tools.len() > 0 {
                match tools[0].get("inputSchema"@) {
                    Some(schema) => schema.get("required"@),
                    None => None,
                }
            } else {
                None
            },
            _ => None,
        },
        None => None,
    }
}

/// The answer to `tools/list` describes one tool whose input schema requires
/// exactly the prompt: its `required` list is `["prompt"]`, so a call with
/// only a prompt conforms to it, and the model and thinking arguments are
/// optional.
pub proof fn law_tools_list_requires_only_prompt(request: Json)
    requires
        method_of(request) == "tools/list"@,
        non_null_id(request) is Some,
    ensures
        response_for(request) is Some,
        first_tool_required(response_for(request)->0) == Some(
            Json::Array(seq![Json::Str("prompt"@)]),
        ),
{
    lemma_schema_keys_distinct();
    let id = non_null_id(request)->0;
    let answer = rpc_result(id, tools_list_result());
    assert(response_for(request) == Some(answer));
    let env = seq![("jsonrpc"@, Json::Str("2.0"@)), ("id"@, id), ("result"@, tools_list_result())];
    reveal_with_fuel(crate::json::member_lookup, 4);
    assert(env.drop_first().drop_first()[0] == env[2]);
    assert(answer.get("result"@) == Some(tools_list_result()));
    let tool = Json::Object(
        seq![
            ("name"@, Json::Str(TOOL_NAME@)),
            ("description"@, Json::Str(TOOL_DESCRIPTION@)),
            ("inputSchema"@, input_schema()),
        ],
    );
    let tms = seq![
        ("name"@, Json::Str(TOOL_NAME@)),
        ("description"@, Json::Str(TOOL_DESCRIPTION@)),
        ("inputSchema"@, input_schema()),
    ];
    assert(tms.drop_first().drop_first()[0] == tms[2]);
    assert(tool.get("inputSchema"@) == Some(input_schema()));
    let sms = seq![
        ("type"@, Json::Str("object"@)),
        (
            "properties"@,
            Json::Object(
                seq![
                    ("prompt"@, param_schema("string"@, "The prompt to send to Gemini"@)),
                    ("model"@, param_schema("string"@, model_param_description())),
                    ("thinking"@, param_schema("boolean"@, thinking_param_description())),
                ],
            ),
        ),
        ("required"@, Json::Array(seq![Json::Str("prompt"@)])),
    ];
    assert(sms.drop_first().drop_first()[0] == sms[2]);
    assert(input_schema().get("required"@) == Some(Json::Array(seq![Json::Str("prompt"@)])));
}

} // verus!
