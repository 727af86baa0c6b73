use mcp_runtime::json::Json;
use mcp_runtime::message::JsonRpcMessage;

pub fn jstr(s: &str) -> Json {
    Json::Str(s.to_string())
}

pub fn obj(members: Vec<(&str, Json)>) -> Json {
    Json::Object(members.into_iter().map(|(k, v)| (k.to_string(), v)).collect())
}

fn escape(s: &str) -> String {
    let mut out = String::from("\"");
    for c in s.chars() {
        match c {
            '"' => out.push_str("\\\""),
            '\\' => out.push_str("\\\\"),
            '\n' => out.push_str("\\n"),
            c => out.push(c),
        }
    }
    out.push('"');
    out
}

pub fn render(j: &Json) -> String {
    match j {
        Json::Null => "null".to_string(),
        Json::Bool(b) => b.to_string(),
        Json::Int(n) => n.to_string(),
        Json::Number(t) => t.clone(),
        Json::Str(s) => escape(s),
        Json::Array(items) => {
            let parts: Vec<String> = items.iter().map(render).collect();
            format!("[{}]", parts.join(","))
        }
        Json::Object(es) => {
            let parts: Vec<String> = es.iter().map(|(k, v)| format!("{}:{}", escape(k), render(v))).collect();
            format!("{{{}}}", parts.join(","))
        }
    }
}

pub fn render_message(m: JsonRpcMessage) -> String {
    render(&m.into_json())
}

#[test]
fn render_helper_writes_compact_json() {
    let j = obj(vec![("a", Json::Array(vec![Json::Int(1), Json::Bool(true), Json::Null])), ("b", jstr("x\"y"))]);
    assert_eq!(render(&j), "{\"a\":[1,true,null],\"b\":\"x\\\"y\"}");
}

use mcp_runtime::client::{ClientAction, ClientBuilder};
use mcp_runtime::lifecycle::ServerState;
use mcp_runtime::message::{FrameError, JsonRpcError};
use mcp_runtime::pending::{request_id_key, IdCounter, PendingTable};
use mcp_runtime::prompts::validate_arguments;
use mcp_runtime::server::{Server, ServerAction};
use mcp_runtime::template::extract_parameter_from_uri;
use mcp_runtime::types::prompt::{Prompt, PromptArgument, PromptMessage, PromptMessageContent};
use mcp_runtime::types::resource::{CompletionItem, Resource, ResourceContent, ResourceTemplate};
use mcp_runtime::types::sampling::{CreateMessageResult, MessageContent};
use mcp_runtime::types::tool::{Tool, ToolCallResult, ToolContent};
use mcp_runtime::version::{is_supported_version, version_mismatch_error};

fn init_params(version: &str) -> Json {
    obj(vec![
        ("protocolVersion", jstr(version)),
        ("capabilities", obj(vec![])),
        ("clientInfo", obj(vec![("name", jstr("c")), ("version", jstr("1"))])),
    ])
}

fn reply(a: ServerAction) -> JsonRpcMessage {
    match a {
        ServerAction::Reply(m) => m,
        _ => panic!("expected a reply"),
    }
}

fn error_code(m: &JsonRpcMessage) -> Option<i32> {
    match m {
        JsonRpcMessage::Response { error: Some(e), .. } => Some(e.code),
        _ => None,
    }
}

fn error_text(m: &JsonRpcMessage) -> String {
    match m {
        JsonRpcMessage::Response { error: Some(e), .. } => e.message.clone(),
        _ => panic!("expected an error"),
    }
}

fn result_text(m: JsonRpcMessage) -> String {
    match m {
        JsonRpcMessage::Response { result: Some(r), error: None, .. } => render(&r),
        _ => panic!("expected a result"),
    }
}

fn ready_server() -> Server {
    let mut s = Server::new("s", "1");
    let _ = s.handle_request(Json::Int(1), "initialize", Some(init_params("2025-06-18")));
    s.handle_notification("notifications/initialized");
    s
}

fn tool(name: &str) -> Tool {
    Tool { name: name.to_string(), description: None, input_schema: obj(vec![("type", jstr("object"))]), annotations: None }
}

fn resource(uri: &str) -> Resource {
    Resource { uri: uri.to_string(), name: uri.to_string(), description: None, mime_type: None, size: None, annotations: None }
}

fn prompt(name: &str, arguments: Option<Vec<PromptArgument>>) -> Prompt {
    Prompt { name: name.to_string(), description: None, arguments, annotations: None }
}

#[test]
fn lifecycle_initialize_then_initialized() {
    let mut s = Server::new("s", "1");
    let r = reply(s.handle_request(Json::Int(1), "initialize", Some(init_params("2025-06-18"))));
    assert_eq!(
        result_text(r),
        "{\"protocolVersion\":\"2025-06-18\",\"capabilities\":{\"tools\":{\"listChanged\":true},\"resources\":{\"listChanged\":true,\"subscribe\":true},\"prompts\":{\"listChanged\":true}},\"serverInfo\":{\"name\":\"s\",\"version\":\"1\"}}"
    );
    assert_eq!(s.state, ServerState::Initializing);
    s.handle_notification("notifications/initialized");
    assert_eq!(s.state, ServerState::Ready);
    let r = reply(s.handle_request(Json::Int(2), "tools/list", None));
    assert_eq!(result_text(r), "{\"tools\":[],\"nextCursor\":\"\"}");
}

#[test]
fn tool_roundtrip_returns_handler_content() {
    let mut s = ready_server();
    let _ = s.register_tool(tool("hello"));
    let args = obj(vec![("name", jstr("MCP User"))]);
    let a = s.handle_request(Json::Int(3), "tools/call", Some(obj(vec![("name", jstr("hello")), ("arguments", args)])));
    let (id, arguments) = match a {
        ServerAction::CallTool { id, name, arguments } => {
            assert_eq!(name, "hello");
            (id, arguments)
        }
        _ => panic!("expected a tool call"),
    };
    let who = match arguments.get("name") {
        Some(Json::Str(n)) => n.clone(),
        _ => panic!("missing name"),
    };
    let result = ToolCallResult { content: vec![ToolContent::Text { text: format!("Hello, {}!", who) }], is_error: None };
    let r = Server::tool_call_reply(id, Ok(result));
    assert_eq!(result_text(r), "{\"content\":[{\"type\":\"text\",\"text\":\"Hello, MCP User!\"}],\"isError\":false}");
}

#[test]
fn tool_handler_failure_is_internal_error() {
    let r = Server::tool_call_reply(Json::Int(4), Err("boom".to_string()));
    assert_eq!(error_code(&r), Some(-32603));
    assert_eq!(error_text(&r), "Tool execution error: boom");
}

#[test]
fn unknown_tool_is_internal_error() {
    let mut s = ready_server();
    let r = reply(s.handle_request(Json::Int(5), "tools/call", Some(obj(vec![("name", jstr("nope")), ("arguments", obj(vec![]))]))));
    assert_eq!(error_code(&r), Some(-32603));
    assert_eq!(error_text(&r), "Tool execution error: Tool not found: nope");
}

#[test]
fn template_completion_filters_by_prefix() {
    let mut s = Server::new("s", "1");
    let _ = s.register_template(ResourceTemplate {
        uri_template: "file:///{project}/{filename}".to_string(),
        name: "files".to_string(),
        description: None,
        mime_type: None,
        annotations: None,
    });
    s.register_template_completion("file:///{project}/{filename}");
    let _ = s.handle_request(Json::Int(1), "initialize", Some(init_params("2025-06-18")));
    s.handle_notification("notifications/initialized");
    let params = obj(vec![
        ("ref", obj(vec![("type", jstr("ref/resource")), ("uri", jstr("file:///{project}/{filename}"))])),
        ("argument", obj(vec![("name", jstr("project")), ("value", jstr("b"))])),
    ]);
    let a = s.handle_request(Json::Int(6), "completion/complete", Some(params));
    let (id, prefix) = match a {
        ServerAction::CompleteTemplate { id, uri, argument, value } => {
            assert_eq!(uri, "file:///{project}/{filename}");
            assert_eq!(argument, "project");
            (id, value.unwrap())
        }
        _ => panic!("expected a template completion"),
    };
    let items: Vec<CompletionItem> = ["backend", "frontend"]
        .iter()
        .filter(|v| v.starts_with(prefix.as_str()))
        .map(|v| CompletionItem { label: v.to_string(), description: None, insert_text: None })
        .collect();
    let r = Server::template_completion_reply(id, Ok(items));
    assert_eq!(result_text(r), "{\"completion\":{\"values\":[\"backend\"],\"total\":1,\"hasMore\":false}}");
}

#[test]
fn completion_without_provider_is_empty() {
    let mut s = ready_server();
    let params = obj(vec![
        ("ref", obj(vec![("type", jstr("ref/resource")), ("uri", jstr("db:///{table}"))])),
        ("argument", obj(vec![("name", jstr("table"))])),
    ]);
    let r = reply(s.handle_request(Json::Int(7), "completion/complete", Some(params)));
    assert_eq!(result_text(r), "{\"completion\":{\"values\":[],\"hasMore\":false}}");
}

#[test]
fn prompt_completion_wraps_values() {
    let mut s = Server::new("s", "1");
    s.register_prompt_completion("greet", "style");
    let _ = s.handle_request(Json::Int(1), "initialize", Some(init_params("2025-06-18")));
    s.handle_notification("notifications/initialized");
    let params = obj(vec![
        ("ref", obj(vec![("type", jstr("ref/prompt")), ("name", jstr("greet"))])),
        ("argument", obj(vec![("name", jstr("style")), ("value", jstr("f"))])),
    ]);
    let id = match s.handle_request(Json::Int(8), "completion/complete", Some(params)) {
        ServerAction::CompletePrompt { id, prompt, argument, value } => {
            assert_eq!(prompt, "greet");
            assert_eq!(argument, "style");
            assert_eq!(value.as_deref(), Some("f"));
            id
        }
        _ => panic!("expected a prompt completion"),
    };
    let r = Server::prompt_completion_reply(id, Ok(vec!["formal".to_string(), "friendly".to_string()]));
    assert_eq!(result_text(r), "{\"completion\":{\"values\":[\"formal\",\"friendly\"],\"hasMore\":false}}");
}

#[test]
fn subscriber_is_told_of_update() {
    let mut s = ready_server();
    let _ = s.register_resource(resource("file:///a"));
    let r = reply(s.handle_request(Json::Int(9), "resources/subscribe", Some(obj(vec![("uri", jstr("file:///a"))]))));
    assert_eq!(result_text(r), "{\"success\":true}");
    let n = s.update_resource(resource("file:///a")).expect("a notification");
    assert_eq!(render_message(n), "{\"jsonrpc\":\"2.0\",\"method\":\"notifications/resources/updated\",\"params\":{\"uri\":\"file:///a\"}}");
}

#[test]
fn update_without_subscriber_sends_nothing() {
    let mut s = ready_server();
    let _ = s.register_resource(resource("file:///b"));
    assert!(s.update_resource(resource("file:///b")).is_none());
}

#[test]
fn subscribe_to_unknown_resource_is_not_found() {
    let mut s = ready_server();
    let r = reply(s.handle_request(Json::Int(10), "resources/subscribe", Some(obj(vec![("uri", jstr("file:///none"))]))));
    assert_eq!(error_code(&r), Some(-32002));
}

#[test]
fn unsubscribe_without_subscription_succeeds() {
    let mut s = ready_server();
    let r = reply(s.handle_request(Json::Int(11), "resources/unsubscribe", Some(obj(vec![("uri", jstr("file:///x"))]))));
    assert_eq!(result_text(r), "{\"success\":true}");
}

#[test]
fn unsubscribe_stops_updates() {
    let mut s = ready_server();
    let _ = s.register_resource(resource("file:///a"));
    let _ = s.handle_request(Json::Int(12), "resources/subscribe", Some(obj(vec![("uri", jstr("file:///a"))])));
    let _ = s.handle_request(Json::Int(13), "resources/unsubscribe", Some(obj(vec![("uri", jstr("file:///a"))])));
    assert!(s.update_resource(resource("file:///a")).is_none());
}

#[test]
fn sampling_callback_echoes_last_user_message() {
    let mut c = ClientBuilder::new("c", "1").with_sampling().build();
    assert!(c.register_sampling_callback().is_ok());
    let params = obj(vec![
        ("messages", Json::Array(vec![obj(vec![("role", jstr("user")), ("content", obj(vec![("type", jstr("text")), ("text", jstr("hi"))]))])])),
        ("maxTokens", Json::Int(100)),
    ]);
    let request = JsonRpcMessage::request(Json::Int(1), "sampling/createMessage", Some(params));
    let (id, params) = match c.handle_message(request) {
        ClientAction::InvokeSampling { id, params } => (id, params),
        _ => panic!("expected the callback to run"),
    };
    let last = match params.get("messages") {
        Some(Json::Array(ms)) => ms.last().unwrap().get("content").unwrap().get_str("text").unwrap().clone(),
        _ => panic!("no messages"),
    };
    let result = CreateMessageResult {
        role: "assistant".to_string(),
        content: MessageContent::Text { text: format!("You said: {}", last) },
        model: Some("echo-model-1.0".to_string()),
        stop_reason: Some("content_length".to_string()),
        metadata: None,
    };
    let r = mcp_runtime::client::Client::sampling_reply(id, Ok(result));
    assert_eq!(
        result_text(r),
        "{\"role\":\"assistant\",\"content\":{\"type\":\"text\",\"text\":\"You said: hi\"},\"model\":\"echo-model-1.0\",\"stopReason\":\"content_length\"}"
    );
}

#[test]
fn sampling_refusals_by_code() {
    let mut c = ClientBuilder::new("c", "1").build();
    let req = JsonRpcMessage::request(Json::Int(1), "sampling/createMessage", Some(obj(vec![])));
    match c.handle_message(req) {
        ClientAction::Reply(m) => assert_eq!(error_code(&m), Some(-32004)),
        _ => panic!("expected a refusal"),
    }
    assert!(c.register_sampling_callback().is_err());
    let mut c = ClientBuilder::new("c", "1").with_sampling().build();
    let req = JsonRpcMessage::request(Json::Int(2), "sampling/createMessage", Some(obj(vec![])));
    match c.handle_message(req) {
        ClientAction::Reply(m) => assert_eq!(error_code(&m), Some(-32005)),
        _ => panic!("expected a refusal"),
    }
    let req = JsonRpcMessage::request(Json::Int(3), "sampling/createMessage", None);
    match c.handle_message(req) {
        ClientAction::Reply(m) => assert_eq!(error_code(&m), Some(-32005)),
        _ => panic!("expected a refusal"),
    }
    assert!(c.register_sampling_callback().is_ok());
    let req = JsonRpcMessage::request(Json::Int(5), "sampling/createMessage", None);
    match c.handle_message(req) {
        ClientAction::Reply(m) => assert_eq!(error_code(&m), Some(-32602)),
        _ => panic!("expected a refusal"),
    }
    let r = mcp_runtime::client::Client::sampling_reply(Json::Int(4), Err("model down".to_string()));
    assert_eq!(error_code(&r), Some(-32006));
    assert_eq!(error_text(&r), "Sampling error: model down");
}

fn names_of(r: &str) -> usize {
    r.matches("\"name\":").count()
}

#[test]
fn pagination_of_seventy_five_prompts() {
    let mut s = ready_server();
    for i in 0..75 {
        let _ = s.register_prompt(prompt(&format!("p{:02}", i), None));
    }
    let first = result_text(reply(s.handle_request(Json::Int(20), "prompts/list", Some(obj(vec![])))));
    assert_eq!(names_of(&first), 50);
    assert!(first.starts_with("{\"prompts\":[{\"name\":\"p00\"}"));
    assert!(first.ends_with("{\"name\":\"p49\"}],\"nextCursor\":\"p49\"}"));
    let second = result_text(reply(s.handle_request(Json::Int(21), "prompts/list", Some(obj(vec![("cursor", jstr("p49"))])))));
    assert_eq!(names_of(&second), 25);
    assert!(second.starts_with("{\"prompts\":[{\"name\":\"p50\"}"));
    assert!(second.ends_with("{\"name\":\"p74\"}],\"nextCursor\":\"\"}"));
}

#[test]
fn cursor_walk_visits_each_tool_once_in_order() {
    let mut s = ready_server();
    let mut expected: Vec<String> = (0..120).map(|i| format!("t{:03}", i)).collect();
    for name in expected.iter().rev() {
        let _ = s.register_tool(tool(name));
    }
    expected.sort();
    let mut seen: Vec<String> = Vec::new();
    let mut cursor = String::new();
    loop {
        let (items, next) = s.tools.list_tools(&cursor);
        for j in items.iter() {
            seen.push(j.get_str("name").unwrap().clone());
        }
        if next.is_empty() {
            break;
        }
        cursor = next;
    }
    assert_eq!(seen, expected);
}

#[test]
fn next_cursor_empty_exactly_at_end() {
    let mut s = ready_server();
    for i in 0..50 {
        let _ = s.register_tool(tool(&format!("a{:02}", i)));
    }
    let (items, next) = s.tools.list_tools("");
    assert_eq!(items.len(), 50);
    assert_eq!(next, "");
    let _ = s.register_tool(tool("zz"));
    let (items, next) = s.tools.list_tools("");
    assert_eq!(items.len(), 50);
    assert_eq!(next, "a49");
}

#[test]
fn reregistration_replaces_and_signals() {
    let mut s = ready_server();
    let n = s.register_tool(tool("x")).expect("list changed");
    assert_eq!(render_message(n), "{\"jsonrpc\":\"2.0\",\"method\":\"notifications/tools/list_changed\"}");
    let _ = s.register_tool(Tool { description: Some("second".to_string()), ..tool("x") });
    let (items, _) = s.tools.list_tools("");
    assert_eq!(items.len(), 1);
    assert_eq!(render(&items[0]), "{\"name\":\"x\",\"inputSchema\":{\"type\":\"object\"},\"description\":\"second\"}");
    let n = s.register_prompt(prompt("p", None)).expect("list changed");
    assert_eq!(render_message(n), "{\"jsonrpc\":\"2.0\",\"method\":\"notifications/prompts/list_changed\"}");
}

#[test]
fn registration_before_ready_is_silent() {
    let mut s = Server::new("s", "1");
    assert!(s.register_tool(tool("x")).is_none());
    assert!(s.register_resource(resource("file:///r")).is_none());
}

#[test]
fn requests_before_ready_are_refused() {
    let mut s = Server::new("s", "1");
    let r = reply(s.handle_request(Json::Int(1), "tools/list", None));
    assert_eq!(error_code(&r), Some(-32003));
    let _ = s.handle_request(Json::Int(2), "initialize", Some(init_params("2025-06-18")));
    let r = reply(s.handle_request(Json::Int(3), "prompts/list", None));
    assert_eq!(error_code(&r), Some(-32003));
    let r = reply(s.handle_request(Json::Int(4), "no/such", None));
    assert_eq!(error_code(&r), Some(-32003));
}

#[test]
fn second_initialize_is_refused_without_change() {
    let mut s = ready_server();
    let r = reply(s.handle_request(Json::Int(2), "initialize", Some(init_params("2025-06-18"))));
    assert_eq!(error_code(&r), Some(-32600));
    assert_eq!(s.state, ServerState::Ready);
}

#[test]
fn unsupported_version_is_invalid_params() {
    let mut s = Server::new("s", "1");
    let r = reply(s.handle_request(Json::Int(1), "initialize", Some(init_params("1999-01-01"))));
    assert_eq!(error_code(&r), Some(-32602));
    match r {
        JsonRpcMessage::Response { error: Some(e), .. } => {
            assert_eq!(render(&e.data.unwrap()), "{\"supported\":[\"2025-06-18\"],\"requested\":\"1999-01-01\"}");
        }
        _ => panic!("expected an error"),
    }
    assert_eq!(s.state, ServerState::Created);
}

#[test]
fn unknown_method_is_not_found() {
    let mut s = ready_server();
    let r = reply(s.handle_request(Json::Int(1), "no/such", None));
    assert_eq!(error_code(&r), Some(-32601));
    assert_eq!(error_text(&r), "Method not found: no/such");
}

#[test]
fn malformed_params_are_invalid() {
    let mut s = ready_server();
    let r = reply(s.handle_request(Json::Int(1), "tools/list", Some(obj(vec![("cursor", Json::Int(3))]))));
    assert_eq!(error_code(&r), Some(-32602));
    let r = reply(s.handle_request(Json::Int(2), "resources/read", None));
    assert_eq!(error_code(&r), Some(-32602));
    let r = reply(s.handle_request(Json::Int(3), "tools/call", Some(obj(vec![("name", jstr("x"))]))));
    assert_eq!(error_code(&r), Some(-32602));
}

#[test]
fn read_returns_provider_output_unchanged() {
    let mut s = ready_server();
    let _ = s.register_resource(resource("file:///a"));
    let (id, uri) = match s.handle_request(Json::Int(1), "resources/read", Some(obj(vec![("uri", jstr("file:///a"))]))) {
        ServerAction::ReadResource { id, uri } => (id, uri),
        _ => panic!("expected a read"),
    };
    let contents = vec![
        ResourceContent { uri: uri.clone(), mime_type: "text/plain".to_string(), text: Some("hello".to_string()), blob: None },
        ResourceContent { uri, mime_type: "application/octet-stream".to_string(), text: None, blob: Some("AAE=".to_string()) },
    ];
    let r = Server::resource_read_reply(id, Ok(contents));
    assert_eq!(
        result_text(r),
        "{\"contents\":[{\"uri\":\"file:///a\",\"mimeType\":\"text/plain\",\"text\":\"hello\"},{\"uri\":\"file:///a\",\"mimeType\":\"application/octet-stream\",\"blob\":\"AAE=\"}]}"
    );
}

#[test]
fn read_of_unknown_resource_is_not_found() {
    let mut s = ready_server();
    let r = reply(s.handle_request(Json::Int(1), "resources/read", Some(obj(vec![("uri", jstr("file:///zz"))]))));
    assert_eq!(error_code(&r), Some(-32002));
}

fn greet() -> Prompt {
    let mut p = greet_without_description();
    p.description = Some("Greets".to_string());
    p
}

fn greet_without_description() -> Prompt {
    prompt(
        "greet",
        Some(vec![
            PromptArgument { name: "name".to_string(), description: None, required: Some(true) },
            PromptArgument { name: "style".to_string(), description: None, required: None },
        ]),
    )
}

#[test]
fn missing_required_argument_is_named() {
    let mut s = ready_server();
    let _ = s.register_prompt(greet());
    let r = reply(s.handle_request(Json::Int(1), "prompts/get", Some(obj(vec![("name", jstr("greet")), ("arguments", obj(vec![("style", jstr("x"))]))]))));
    assert_eq!(error_code(&r), Some(-32602));
    assert_eq!(error_text(&r), "Missing required argument: name");
}

#[test]
fn blank_required_argument_is_rejected() {
    let p = greet();
    let args = Some(vec![("name".to_string(), "   ".to_string())]);
    assert_eq!(validate_arguments(&p, &args), Err("Required argument cannot be empty: name".to_string()));
    let args = Some(vec![("name".to_string(), "".to_string())]);
    assert_eq!(validate_arguments(&p, &args), Err("Required argument cannot be empty: name".to_string()));
    let args = Some(vec![("name".to_string(), "\u{3000}\t\u{2028}".to_string())]);
    assert!(validate_arguments(&p, &args).is_err());
    let args = Some(vec![("name".to_string(), " Ann ".to_string())]);
    assert_eq!(validate_arguments(&p, &args), Ok(()));
    assert_eq!(validate_arguments(&p, &None), Err("Missing required argument: name".to_string()));
    let args = Some(vec![("name".to_string(), "A".to_string()), ("mood".to_string(), "x".to_string())]);
    assert_eq!(validate_arguments(&p, &args), Err("Unexpected argument: mood".to_string()));
}

#[test]
fn prompt_get_hands_over_arguments_and_wraps_messages() {
    let mut s = ready_server();
    let _ = s.register_prompt(greet());
    let a = s.handle_request(Json::Int(1), "prompts/get", Some(obj(vec![("name", jstr("greet")), ("arguments", obj(vec![("name", jstr("Ann"))]))])));
    let (id, args, description) = match a {
        ServerAction::GetPrompt { id, name, arguments, description } => {
            assert_eq!(description.as_deref(), Some("Greets"));
            assert_eq!(name, "greet");
            (id, arguments.unwrap(), description)
        }
        _ => panic!("expected a prompt"),
    };
    assert_eq!(args, vec![("name".to_string(), "Ann".to_string())]);
    let messages = vec![PromptMessage { role: "user".to_string(), content: PromptMessageContent::Text { text: "Hi Ann".to_string() } }];
    let r = Server::prompt_get_reply(id, description, Ok(messages));
    assert_eq!(result_text(r), "{\"messages\":[{\"role\":\"user\",\"content\":{\"type\":\"text\",\"text\":\"Hi Ann\"}}],\"description\":\"Greets\"}");
}

#[test]
fn envelope_round_trip() {
    let samples = vec![
        JsonRpcMessage::request(Json::Int(7), "tools/list", Some(obj(vec![("cursor", jstr("a"))]))),
        JsonRpcMessage::request(jstr("abc"), "ping", None),
        JsonRpcMessage::response(Json::Int(7), obj(vec![("ok", Json::Bool(true))])),
        JsonRpcMessage::error(jstr("x"), -32601, "Method not found", Some(obj(vec![("m", jstr("q"))]))),
        JsonRpcMessage::notification("notifications/initialized", None),
        JsonRpcMessage::notification("notifications/resources/updated", Some(obj(vec![("uri", jstr("file:///a"))]))),
    ];
    for m in samples {
        let text = render(&m.into_json());
        let j = {
            let again = JsonRpcMessage::from_json(reparse(&text)).ok().expect("decodes");
            again.into_json()
        };
        assert_eq!(render(&j), text);
    }
}

// The encoder's output is rebuilt from its text with the same shapes, so that decoding
// starts from a value that shares nothing with the encoded message.
fn reparse(text: &str) -> Json {
    fn value(s: &[char], i: &mut usize) -> Json {
        match s[*i] {
            '{' => {
                *i += 1;
                let mut es = Vec::new();
                while s[*i] != '}' {
                    if s[*i] == ',' {
                        *i += 1;
                    }
                    let k = match value(s, i) {
                        Json::Str(k) => k,
                        _ => panic!("key"),
                    };
                    *i += 1;
                    let v = value(s, i);
                    es.push((k, v));
                }
                *i += 1;
                Json::Object(es)
            }
            '[' => {
                *i += 1;
                let mut items = Vec::new();
                while s[*i] != ']' {
                    if s[*i] == ',' {
                        *i += 1;
                    }
                    items.push(value(s, i));
                }
                *i += 1;
                Json::Array(items)
            }
            '"' => {
                *i += 1;
                let mut out = String::new();
                while s[*i] != '"' {
                    if s[*i] == '\\' {
                        *i += 1;
                    }
                    out.push(s[*i]);
                    *i += 1;
                }
                *i += 1;
                Json::Str(out)
            }
            't' => {
                *i += 4;
                Json::Bool(true)
            }
            'f' => {
                *i += 5;
                Json::Bool(false)
            }
            'n' => {
                *i += 4;
                Json::Null
            }
            _ => {
                let start = *i;
                while *i < s.len() && (s[*i] == '-' || s[*i].is_ascii_digit()) {
                    *i += 1;
                }
                let t: String = s[start..*i].iter().collect();
                Json::Int(t.parse().unwrap())
            }
        }
    }
    let chars: Vec<char> = text.chars().collect();
    let mut i = 0;
    value(&chars, &mut i)
}

#[test]
fn frames_that_are_not_messages() {
    let e: FrameError = JsonRpcMessage::from_json(obj(vec![("jsonrpc", jstr("1.0")), ("id", Json::Int(3)), ("method", jstr("x"))])).err().unwrap();
    assert_eq!(render(&e.id.unwrap()), "3");
    let e = JsonRpcMessage::from_json(obj(vec![("jsonrpc", jstr("2.0"))])).err().unwrap();
    assert!(e.id.is_none());
    let both = obj(vec![
        ("jsonrpc", jstr("2.0")),
        ("id", Json::Int(4)),
        ("result", Json::Int(1)),
        ("error", JsonRpcError { code: -1, message: "m".to_string(), data: None }.into_json()),
    ]);
    let e = JsonRpcMessage::from_json(both).err().unwrap();
    assert_eq!(render(&e.id.unwrap()), "4");
    let e = JsonRpcMessage::from_json(Json::Array(vec![])).err().unwrap();
    assert!(e.id.is_none());
}

#[test]
fn null_members_count_as_absent() {
    let m = JsonRpcMessage::from_json(obj(vec![("jsonrpc", jstr("2.0")), ("method", jstr("n")), ("params", Json::Null), ("id", Json::Null)])).ok().unwrap();
    assert_eq!(render_message(m), "{\"jsonrpc\":\"2.0\",\"method\":\"n\"}");
}

#[test]
fn pending_requests_settle_once() {
    let mut t = PendingTable::new();
    assert!(t.register("1".to_string(), 10));
    assert!(t.register("2".to_string(), 20));
    assert!(!t.register("1".to_string(), 11));
    let key = request_id_key(&Json::Int(1)).unwrap();
    assert_eq!(t.resolve(&key), Some(10));
    assert_eq!(t.resolve(&key), None);
    assert_eq!(t.cancel_all(), vec![20]);
    assert_eq!(t.resolve("2"), None);
}

#[test]
fn numeric_and_string_ids_share_a_key() {
    assert_eq!(request_id_key(&Json::Int(7)).unwrap(), "7");
    assert_eq!(request_id_key(&jstr("7")).unwrap(), "7");
    assert_eq!(request_id_key(&Json::Int(-12)).unwrap(), "-12");
    assert!(request_id_key(&Json::Null).is_none());
}

#[test]
fn id_counter_increases() {
    let mut ids = IdCounter::new();
    assert_eq!(ids.next_request_id(), 1);
    assert_eq!(ids.next_request_id(), 2);
}

#[test]
fn client_handshake_and_response_routing() {
    let mut c = ClientBuilder::new("c", "1").with_sampling().build();
    let req = c.initialize_request(100).unwrap();
    assert_eq!(
        render_message(req),
        "{\"jsonrpc\":\"2.0\",\"id\":1,\"method\":\"initialize\",\"params\":{\"protocolVersion\":\"2025-06-18\",\"capabilities\":{\"sampling\":{}},\"clientInfo\":{\"name\":\"c\",\"version\":\"1\"}}}"
    );
    assert!(c.initialize_request(101).is_err());
    assert!(c.request("tools/list", None, 5).is_err());
    let response = JsonRpcMessage::response(jstr("1"), obj(vec![("protocolVersion", jstr("2025-06-18"))]));
    let delivered = match c.handle_message(response) {
        ClientAction::Deliver { waiter, message } => {
            assert_eq!(waiter, 100);
            message
        }
        _ => panic!("expected delivery"),
    };
    let (_, note) = c.on_initialize_response(delivered).unwrap();
    assert_eq!(render_message(note), "{\"jsonrpc\":\"2.0\",\"method\":\"notifications/initialized\"}");
    assert_eq!(c.state, ServerState::Ready);
    let req = c.request("tools/list", None, 7).unwrap();
    assert_eq!(render_message(req), "{\"jsonrpc\":\"2.0\",\"id\":2,\"method\":\"tools/list\"}");
    match c.handle_message(JsonRpcMessage::response(Json::Int(99), Json::Null)) {
        ClientAction::Nothing => {}
        _ => panic!("orphan responses are dropped"),
    }
    assert_eq!(c.shutdown().unwrap(), vec![7]);
    assert_eq!(c.state, ServerState::ShuttingDown);
}

#[test]
fn server_sampling_request_is_tracked() {
    let mut s = ready_server();
    let m = s.create_message_request(obj(vec![("maxTokens", Json::Int(10))]), 55).unwrap();
    assert_eq!(render_message(m), "{\"jsonrpc\":\"2.0\",\"id\":1,\"method\":\"sampling/createMessage\",\"params\":{\"maxTokens\":10}}");
    match s.handle_message(JsonRpcMessage::response(Json::Int(1), obj(vec![]))) {
        ServerAction::Deliver { waiter, .. } => assert_eq!(waiter, 55),
        _ => panic!("expected delivery"),
    }
    assert_eq!(s.close(), Vec::<u64>::new());
    assert_eq!(s.state, ServerState::ShuttingDown);
}

#[test]
fn placeholder_detection() {
    assert_eq!(extract_parameter_from_uri("file:///{project}/{filename}", "project"), Some("project".to_string()));
    assert_eq!(extract_parameter_from_uri("file:///{project}/{filename}", "proj"), None);
    assert_eq!(extract_parameter_from_uri("file:///x", "x"), None);
}

#[test]
fn version_support() {
    assert!(is_supported_version("2025-06-18"));
    assert!(!is_supported_version("2024-11-05"));
    let e = version_mismatch_error("2024-11-05");
    assert_eq!(e.supported, vec!["2025-06-18".to_string()]);
    assert_eq!(e.requested, "2024-11-05");
}

#[test]
fn template_parameters_are_read_back() {
    let rm = mcp_runtime::resources::ResourceManager::new();
    let pairs = rm.parse_template_parameters("file:///{project}/{filename}", "file:///backend/main.rs").unwrap();
    assert_eq!(
        pairs,
        vec![("project".to_string(), "backend".to_string()), ("filename".to_string(), "main.rs".to_string())]
    );
    assert!(rm.parse_template_parameters("file:///{project}/{filename}", "http://x/y").is_none());
    let pairs = rm.parse_template_parameters("db:///{table}", "db:///users").unwrap();
    assert_eq!(pairs, vec![("table".to_string(), "users".to_string())]);
}

#[test]
fn template_expansion_fills_known_parameters() {
    let rm = mcp_runtime::resources::ResourceManager::new();
    let params = vec![("project".to_string(), "web".to_string())];
    assert_eq!(rm.expand_template("file:///{project}/{filename}", &params), "file:///web/{filename}");
    let params = vec![("project".to_string(), "web".to_string()), ("filename".to_string(), "a.txt".to_string())];
    assert_eq!(rm.expand_template("file:///{project}/{filename}", &params), "file:///web/a.txt");
}

#[test]
fn resource_and_template_listing() {
    let mut s = ready_server();
    let _ = s.register_resource(Resource { size: Some(u64::MAX), mime_type: Some("text/plain".to_string()), ..resource("file:///b") });
    let _ = s.register_resource(Resource { size: Some(12), ..resource("file:///a") });
    let r = result_text(reply(s.handle_request(Json::Int(1), "resources/list", None)));
    assert_eq!(
        r,
        "{\"resources\":[{\"uri\":\"file:///a\",\"name\":\"file:///a\",\"size\":12},{\"uri\":\"file:///b\",\"name\":\"file:///b\",\"mimeType\":\"text/plain\",\"size\":18446744073709551615}],\"nextCursor\":\"\"}"
    );
    let _ = s.register_template(ResourceTemplate {
        uri_template: "db:///{table}".to_string(),
        name: "tables".to_string(),
        description: Some("rows".to_string()),
        mime_type: None,
        annotations: None,
    });
    let r = result_text(reply(s.handle_request(Json::Int(2), "resources/templates/list", None)));
    assert_eq!(r, "{\"resourceTemplates\":[{\"uriTemplate\":\"db:///{table}\",\"name\":\"tables\",\"description\":\"rows\"}],\"nextCursor\":\"\"}");
}

#[test]
fn nested_values_are_copied() {
    let j = obj(vec![("a", Json::Array(vec![Json::Number("1.5".to_string()), obj(vec![("b", Json::Null)])]))]);
    let c = j.copy_nested(mcp_runtime::json::MAX_DEPTH);
    assert_eq!(render(&c), render(&j));
    assert_eq!(render(&j.copy_nested(1)), "{\"a\":[null,null]}");
}

#[test]
fn prompt_annotations_are_set_and_read() {
    let mut pm = mcp_runtime::prompts::PromptManager::new();
    pm.register_prompt(prompt("p", None));
    assert!(pm.add_annotation("q", "k", Json::Int(1)).is_err());
    pm.add_annotation("p", "k", Json::Int(1)).unwrap();
    pm.add_annotation("p", "k", jstr("v")).unwrap();
    pm.add_annotation("p", "other", Json::Bool(true)).unwrap();
    assert_eq!(render(&pm.get_annotation("p", "k").unwrap().unwrap()), "\"v\"");
    assert_eq!(render(&pm.get_annotation("p", "other").unwrap().unwrap()), "true");
    assert!(pm.get_annotation("p", "missing").unwrap().is_none());
    assert!(pm.get_annotation("q", "k").is_err());
    let (items, _) = pm.list_prompts("");
    assert_eq!(render(&items[0]), "{\"name\":\"p\",\"annotations\":{\"k\":\"v\",\"other\":true}}");
}

#[test]
fn unreadable_frames_with_an_id_get_a_parse_error() {
    let e = JsonRpcMessage::from_json(obj(vec![("id", Json::Int(9)), ("method", jstr("x"))])).err().unwrap();
    let r = e.reply().unwrap();
    assert_eq!(error_code(&r), Some(-32700));
    assert_eq!(render_message(r), "{\"jsonrpc\":\"2.0\",\"id\":9,\"error\":{\"code\":-32700,\"message\":\"Parse error\"}}");
    let e = JsonRpcMessage::from_json(obj(vec![("method", jstr("x"))])).err().unwrap();
    assert!(e.reply().is_none());
}

#[test]
fn template_parameters_read_back_exactly() {
    let rm = mcp_runtime::resources::ResourceManager::new();
    let pairs = rm.parse_template_parameters("db:///{table}/{id}", "db:///users/42").unwrap();
    assert_eq!(pairs, vec![("table".to_string(), "users".to_string()), ("id".to_string(), "42".to_string())]);
    assert!(rm.parse_template_parameters("db:///{table}/{id}", "db:///users").is_none());
}
