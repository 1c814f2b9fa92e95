use mcp_client::client::{ChildStatus, ConnectPlan, McpClient, ShutdownPlan, TransportKind};
use mcp_client::error::McpError;
use mcp_client::handle::{read_result, HandleTransport, McpHandle, Outcome, Outgoing};
use mcp_client::http::{HttpMethod, ReplyKind, ResponseHead};
use mcp_client::pending::PendingRequests;
use mcp_client::protocol::{
    encode_notification, InitializeResult, JsonRpcError, JsonRpcResponse, McpServerConfig, McpToolDef,
    ServerCapabilities, ServerInfo,
};
use mcp_client::string_map::StringMap;
use serde_json::Value;

fn http_config(url: String) -> McpServerConfig {
    McpServerConfig {
        command: String::new(),
        args: vec![],
        env: StringMap::new(),
        shared: true,
        transport: Some("http".to_string()),
        url: Some(url),
        headers: StringMap::from_pairs(vec![(
            "Authorization".to_string(),
            "Bearer test-token".to_string(),
        )]),
        enabled: None,
        disabled: None,
    }
}

fn stdio_config() -> McpServerConfig {
    McpServerConfig {
        command: "/bin/sh".to_string(),
        args: vec!["-c".to_string(), "true".to_string()],
        env: StringMap::from_pairs(vec![("MODE".to_string(), "test".to_string())]),
        shared: false,
        transport: None,
        url: None,
        headers: StringMap::new(),
        enabled: None,
        disabled: None,
    }
}

fn parse(text: &str) -> Option<JsonRpcResponse> {
    let value: Value = serde_json::from_str(text).ok()?;
    Some(JsonRpcResponse {
        id: value.get("id").and_then(Value::as_u64),
        result: value.get("result").cloned(),
        error: None,
    })
}

fn line(outgoing: Outgoing) -> String {
    match outgoing {
        Outgoing::Line(line) => line,
        Outgoing::Post(request) => panic!("a line, not {request:?}"),
    }
}

fn initialize_result(version: &str, name: &str) -> InitializeResult {
    InitializeResult {
        protocol_version: version.to_string(),
        capabilities: ServerCapabilities::default(),
        server_info: Some(ServerInfo {
            name: name.to_string(),
            version: Some("1.0.0".to_string()),
        }),
    }
}

fn message() -> Value {
    serde_json::from_str("{\"message\":\"hi\"}").expect("valid JSON")
}

fn echo_tool() -> McpToolDef {
    McpToolDef {
        name: "echo".to_string(),
        description: Some("Echo a message".to_string()),
        input_schema: Value::Null,
    }
}

#[test]
fn http_config_without_url_fails_with_clear_error() {
    let mut config = http_config(String::new());
    config.url = None;
    let error = match McpClient::connect_http("no-url".to_string(), &config) {
        Ok(_) => panic!("missing url must fail"),
        Err(error) => error,
    };
    assert!(error.message().contains("no 'url' configured"));
    assert_eq!(
        error.message(),
        "MCP HTTP server 'no-url' has no 'url' configured"
    );
    config.url = Some(" \t ".to_string());
    assert!(McpClient::connect_http("no-url".to_string(), &config).is_err());
}

#[test]
fn http_connection_is_planned_without_a_child() {
    let config = http_config("  http://h/mcp \n".to_string());
    let plan: Result<ConnectPlan<String>, McpError> = McpClient::connect_in_dir(
        "web".to_string(),
        &config,
        TransportKind::Http,
        Some(("/tmp".to_string(), true)),
        StringMap::new(),
    );
    let client = match plan {
        Ok(ConnectPlan::Http(client)) => client,
        _ => panic!("an HTTP client"),
    };
    assert_eq!(client.name(), "web");
    assert!(client.server_info().is_none());
    assert!(client.tools().is_empty());
    match &client.handle().transport {
        HandleTransport::Http(http) => assert_eq!(http.url, "http://h/mcp"),
        HandleTransport::Stdio(_) => panic!("HTTP"),
    }
    for status in [ChildStatus::Running, ChildStatus::Exited, ChildStatus::Unknown] {
        assert!(client.is_running(status));
    }
}

#[test]
fn working_dir_applies_only_where_it_exists() {
    for (working_dir, expected) in [
        (Some(("/work".to_string(), true)), Some("/work".to_string())),
        (Some(("/nonexistent/jcode-557".to_string(), false)), None),
        (None, None),
    ] {
        let inherited = StringMap::from_pairs(vec![
            ("PATH".to_string(), "/bin".to_string()),
            ("OPENAI_API_KEY".to_string(), "secret".to_string()),
        ]);
        let plan = McpClient::connect_in_dir(
            "cwd-test".to_string(),
            &stdio_config(),
            TransportKind::Stdio,
            working_dir,
            inherited,
        );
        match plan {
            Ok(ConnectPlan::Spawn(spawn)) => {
                assert_eq!(spawn.cwd, expected);
                assert_eq!(spawn.command, "/bin/sh");
                assert_eq!(spawn.args, vec!["-c".to_string(), "true".to_string()]);
                assert_eq!(
                    spawn.env.pairs(),
                    vec![
                        ("PATH".to_string(), "/bin".to_string()),
                        ("MODE".to_string(), "test".to_string()),
                    ]
                );
            }
            _ => panic!("a child process"),
        }
    }
    let plan: Result<ConnectPlan<String>, McpError> = McpClient::connect(
        "cwd-test".to_string(),
        &stdio_config(),
        TransportKind::Stdio,
        StringMap::new(),
    );
    match plan {
        Ok(ConnectPlan::Spawn(spawn)) => assert_eq!(spawn.cwd, None),
        _ => panic!("a child process"),
    }
}

#[test]
fn stdio_handshake_runs_in_order() {
    let mut client = McpClient::spawned("child".to_string());
    let call = client.initialize("0.1.0");
    assert_eq!(call.id, 1);
    assert_eq!(
        line(call.outgoing),
        "{\"jsonrpc\":\"2.0\",\"id\":1,\"method\":\"initialize\",\"params\":\
         {\"capabilities\":{},\"clientInfo\":{\"name\":\"jcode\",\"version\":\"0.1.0\"},\
         \"protocolVersion\":\"2024-11-05\"}}\n"
    );
    let confirmation = client
        .on_initialize(Ok(Some(initialize_result("2024-11-05", "child-server"))))
        .expect("a confirmation");
    assert_eq!(
        line(confirmation),
        "{\"jsonrpc\":\"2.0\",\"method\":\"notifications/initialized\"}\n"
    );
    assert_eq!(client.server_info().expect("server info").name, "child-server");
    let call = client.on_confirmed(Ok(())).expect("a request");
    assert_eq!(call.id, 2);
    assert_eq!(
        line(call.outgoing),
        "{\"jsonrpc\":\"2.0\",\"id\":2,\"method\":\"tools/list\"}\n"
    );
    assert!(client.finish_connect(Ok(Some(vec![echo_tool()]))).is_ok());
    assert_eq!(client.tools().len(), 1);
    assert_eq!(client.tools()[0].name, "echo");
    let call = client.call_tool("echo", message());
    assert_eq!(call.id, 3);
    assert_eq!(
        line(call.outgoing),
        "{\"jsonrpc\":\"2.0\",\"id\":3,\"method\":\"tools/call\",\"params\":\
         {\"arguments\":{\"message\":\"hi\"},\"name\":\"echo\"}}\n"
    );
    assert_eq!(client.refresh_tools().id, 4);
    client.handle.tools_listed(None);
    assert_eq!(client.tools().len(), 1);
}

#[test]
fn http_handshake_echoes_session_and_revision() {
    let mut client = match McpClient::connect_http(
        "fake-http".to_string(),
        &http_config("http://h/mcp".to_string()),
    ) {
        Ok(client) => client,
        Err(error) => panic!("{}", error.message()),
    };
    let call = client.initialize("0.1.0");
    let request = match call.outgoing {
        Outgoing::Post(request) => request,
        Outgoing::Line(line) => panic!("a request, not {line}"),
    };
    assert_eq!(request.headers.len(), 3);
    assert!(request
        .body
        .expect("a body")
        .contains("\"protocolVersion\":\"2025-03-26\""));
    match &mut client.handle.transport {
        HandleTransport::Http(http) => {
            let kind = http.accept(&ResponseHead {
                status: 200,
                session_id: Some(b"fake-session-1".to_vec()),
                content_type: Some(b"application/json".to_vec()),
            });
            assert_eq!(kind, ReplyKind::Json);
        }
        HandleTransport::Stdio(_) => panic!("HTTP"),
    }
    let confirmation = client
        .on_initialize(Ok(Some(initialize_result("2025-03-26", "fake-http"))))
        .expect("a confirmation");
    let expected = vec![
        ("content-type".to_string(), "application/json".to_string()),
        (
            "accept".to_string(),
            "application/json, text/event-stream".to_string(),
        ),
        ("Authorization".to_string(), "Bearer test-token".to_string()),
        ("mcp-session-id".to_string(), "fake-session-1".to_string()),
        ("mcp-protocol-version".to_string(), "2025-03-26".to_string()),
    ];
    match confirmation {
        Outgoing::Post(request) => assert_eq!(request.headers, expected),
        Outgoing::Line(line) => panic!("a request, not {line}"),
    }
    let call = client.on_confirmed(Ok(())).expect("a request");
    assert_eq!(call.id, 2);
    match call.outgoing {
        Outgoing::Post(request) => {
            assert_eq!(request.method, HttpMethod::Post);
            assert_eq!(request.headers, expected);
        }
        Outgoing::Line(line) => panic!("a request, not {line}"),
    }
    match client.shutdown() {
        ShutdownPlan::Http { close } => {
            assert_eq!(close.expect("a session").method, HttpMethod::Delete)
        }
        ShutdownPlan::Child { .. } => panic!("HTTP"),
    }
}

#[test]
fn failed_handshake_names_server_and_status() {
    let mut client = match McpClient::connect_http(
        "failing-http".to_string(),
        &http_config("http://h/mcp".to_string()),
    ) {
        Ok(client) => client,
        Err(error) => panic!("{}", error.message()),
    };
    client.initialize("0.1.0");
    let rejected = match &client.handle.transport {
        HandleTransport::Http(http) => http.rejected(500, "internal error"),
        HandleTransport::Stdio(_) => panic!("HTTP"),
    };
    let settled = client.handle.settle(Outcome::Failed(rejected));
    assert!(!client.is_running(ChildStatus::Unknown));
    let error = client
        .on_initialize(settled.map(|_| None))
        .expect_err("a 500 during initialize must fail the connect");
    assert_eq!(
        error.message(),
        "MCP server 'failing-http' failed to initialize: MCP HTTP server 'failing-http' \
         returned 500 Internal Server Error: internal error"
    );
    let error = client
        .on_confirmed(Err(McpError::Other { cause: "channel closed".to_string() }))
        .expect_err("not sent");
    assert_eq!(
        error.message(),
        "MCP server 'failing-http' failed to initialize: channel closed"
    );
    let error = client
        .finish_connect(Err(McpError::NoToolResult))
        .expect_err("not listed");
    assert_eq!(
        error.message(),
        "MCP server 'failing-http' failed to list tools: No result from tool call"
    );
}

#[test]
fn outcomes_are_settled() {
    let mut handle = McpClient::spawned("child".to_string()).handle;
    let answered = handle.settle(Outcome::Answered(JsonRpcResponse {
        id: Some(1),
        result: Some(Value::from(5)),
        error: None,
    }))
    .expect("a response");
    assert_eq!(
        McpHandle::tool_result(answered).expect("a result"),
        Value::from(5)
    );
    assert!(!handle.failed);
    let refused = handle.settle(Outcome::Answered(JsonRpcResponse {
        id: Some(1),
        result: Some(Value::from(5)),
        error: Some(JsonRpcError {
            code: -32601,
            message: "no such method".to_string(),
        }),
    }))
    .expect_err("an error");
    assert_eq!(refused.message(), "MCP error -32601: no such method");
    for (outcome, message) in [
        (
            Outcome::NotSent { cause: "channel closed".to_string() },
            "Failed to send request: channel closed",
        ),
        (
            Outcome::TimedOut { cause: "deadline has elapsed".to_string() },
            "Request timeout: deadline has elapsed",
        ),
        (
            Outcome::Dropped { cause: "channel closed".to_string() },
            "Channel closed: channel closed",
        ),
    ] {
        assert_eq!(handle.settle(outcome).expect_err("an error").message(), message);
    }
    let empty = JsonRpcResponse { id: Some(1), result: None, error: None };
    assert_eq!(
        McpHandle::tool_result(empty).expect_err("no result").message(),
        "No result from tool call"
    );
}

#[test]
fn outside_failures_are_worded() {
    for (error, message) in [
        (
            McpError::Spawn {
                command: "nope".to_string(),
                cause: "No such file".to_string(),
            },
            "Failed to spawn MCP server: nope: No such file",
        ),
        (McpError::MissingStream { stream: "stdin".to_string() }, "No stdin"),
        (
            McpError::HttpClient { cause: "tls".to_string() },
            "Failed to build HTTP client for MCP transport: tls",
        ),
    ] {
        assert_eq!(error.message(), message);
    }
}

#[test]
fn initialize_without_a_result_changes_nothing() {
    let mut client = McpClient::spawned("child".to_string());
    client.initialize("0.1.0");
    assert!(client.on_initialize(Ok(None)).is_ok());
    assert!(client.server_info().is_none());
    assert!(client.handle.capabilities.tools.is_none());
}

#[test]
fn child_is_asked_and_then_ended() {
    let client = McpClient::spawned("child".to_string());
    match client.shutdown() {
        ShutdownPlan::Child { line, kill } => {
            assert_eq!(line, "{\"jsonrpc\":\"2.0\",\"method\":\"shutdown\"}\n");
            assert!(kill);
        }
        ShutdownPlan::Http { .. } => panic!("a child process"),
    }
    assert!(client.is_running(ChildStatus::Running));
    assert!(!client.is_running(ChildStatus::Exited));
    assert!(!client.is_running(ChildStatus::Unknown));
}

#[test]
fn answers_reach_their_own_requests_in_any_order() {
    let mut pending: PendingRequests<&str> = PendingRequests::new();
    pending.register(1, "first");
    pending.register(2, "second");
    assert!(pending.read_line("starting up\n", parse).is_none());
    assert!(pending
        .read_line("{\"method\":\"notifications/message\"}\n", parse)
        .is_none());
    assert!(pending.read_line("{\"id\":7,\"result\":0}\n", parse).is_none());
    let (slot, message) = pending
        .read_line("{\"id\":2,\"result\":\"b\"}\n", parse)
        .expect("a delivery");
    assert_eq!(slot, "second");
    assert_eq!(message.result, Some(Value::from("b")));
    assert!(pending
        .read_line("{\"id\":2,\"result\":\"b\"}\n", parse)
        .is_none());
    let (slot, message) = pending
        .read_line("{\"id\":1,\"result\":\"a\"}\n", parse)
        .expect("a delivery");
    assert_eq!(slot, "first");
    assert_eq!(message.id, Some(1));
}

#[test]
fn result_is_read_where_there_is_one() {
    let number = |value: Value| value.as_u64().ok_or_else(|| "no number".to_string());
    let response = |result: Option<Value>| JsonRpcResponse {
        id: Some(1),
        result,
        error: None,
    };
    assert_eq!(
        read_result(response(Some(Value::from(5))), number).expect("a number"),
        Some(5)
    );
    assert_eq!(read_result(response(None), number).expect("nothing"), None);
    assert_eq!(
        read_result(response(Some(Value::Null)), number)
            .expect_err("no number")
            .message(),
        "no number"
    );
}

#[test]
fn http_server_counts_as_running_until_a_request_fails() {
    let config = http_config("http://h/mcp".to_string());
    let mut client = match McpClient::connect_http("web".to_string(), &config) {
        Ok(client) => client,
        Err(error) => panic!("{}", error.message()),
    };
    let answer = || {
        Outcome::Answered(JsonRpcResponse {
            id: Some(1),
            result: Some(Value::Null),
            error: None,
        })
    };
    assert!(client.handle.settle(answer()).is_ok());
    assert!(client.is_running(ChildStatus::Unknown));
    let timeout = Outcome::TimedOut {
        cause: "deadline has elapsed".to_string(),
    };
    assert!(client.handle.settle(timeout).is_err());
    for status in [ChildStatus::Running, ChildStatus::Exited, ChildStatus::Unknown] {
        assert!(!client.is_running(status));
    }
    assert!(client.handle.settle(answer()).is_ok());
    client.refresh_tools();
    assert!(!client.is_running(ChildStatus::Unknown));

    let mut child = McpClient::spawned("child".to_string());
    assert!(child.handle.settle(Outcome::Failed(McpError::NoToolResult)).is_err());
    assert!(child.is_running(ChildStatus::Running));
}

#[test]
fn outermost_message_leaves_the_causes_out() {
    let timeout = McpError::Timeout {
        cause: "deadline has elapsed".to_string(),
    };
    assert_eq!(timeout.outermost(), "Request timeout");
    assert_eq!(timeout.cause().as_deref(), Some("deadline has elapsed"));
    let failed = McpError::Initialize {
        server: "web".to_string(),
        source: Box::new(timeout),
    };
    assert_eq!(failed.outermost(), "MCP server 'web' failed to initialize");
    assert_eq!(
        failed.cause().as_deref(),
        Some("Request timeout: deadline has elapsed")
    );
    assert_eq!(
        failed.message(),
        "MCP server 'web' failed to initialize: Request timeout: deadline has elapsed"
    );
    let refused = McpError::Server {
        code: -32601,
        message: "no such method".to_string(),
    };
    assert_eq!(refused.outermost(), refused.message());
    assert_eq!(refused.cause(), None);
}

#[test]
fn slot_waits_while_others_come_and_go() {
    let mut pending: PendingRequests<&str> = PendingRequests::new();
    pending.register(1, "mine");
    for id in 2..50u64 {
        pending.register(id, "other");
        let answer = format!("{{\"id\":{id},\"result\":0}}\n");
        assert!(pending.read_line(&answer, parse).is_some());
    }
    let (slot, _) = pending
        .read_line("{\"id\":1,\"result\":0}\n", parse)
        .expect("a delivery");
    assert_eq!(slot, "mine");
}

#[test]
fn shutdown_line_is_a_notification() {
    match McpClient::spawned("child".to_string()).shutdown() {
        ShutdownPlan::Child { line, .. } => {
            assert_eq!(line, encode_notification("shutdown", &None) + "\n")
        }
        ShutdownPlan::Http { .. } => panic!("a child process"),
    }
}

#[test]
fn request_over_standard_streams_is_one_line() {
    let mut client = McpClient::spawned("child".to_string());
    let sent = line(client.handle.request("a\nb", Some(Value::from("c\nd"))).outgoing);
    assert_eq!(
        sent,
        "{\"jsonrpc\":\"2.0\",\"id\":1,\"method\":\"a\\nb\",\"params\":\"c\\nd\"}\n"
    );
    let sent = line(client.handle.notify("n", Some(Value::from("c\nd"))));
    assert_eq!(sent.matches('\n').count(), 1);
}
