//! Whole conversations with fake servers.

use mcp_client::client::{ChildStatus, ConnectPlan, McpClient, SpawnPlan, TransportKind};
use mcp_client::error::McpError;
use mcp_client::handle::{Call, HandleTransport, McpHandle, Outcome, Outgoing};
use mcp_client::http::{HttpRequest, ReplyKind, ResponseHead, SseExchange};
use mcp_client::pending::PendingRequests;
use mcp_client::protocol::{
    InitializeResult, JsonRpcError, JsonRpcResponse, McpServerConfig, McpToolDef,
    ServerCapabilities, ServerInfo,
};
use mcp_client::string_map::StringMap;
use serde_json::Value;

fn http_config(url: String) -> McpServerConfig {
    McpServerConfig {
        command: String::new(),
        args: vec![],
        env: StringMap::new(),
        shared: true,
        transport: Some("http".to_string()),
        url: Some(url),
        headers: StringMap::from_pairs(vec![(
            "Authorization".to_string(),
            "Bearer test-token".to_string(),
        )]),
        enabled: None,
        disabled: None,
    }
}

fn parse(text: &str) -> Option<JsonRpcResponse> {
    parse_slice(text.as_bytes()).ok()
}

fn parse_slice(bytes: &[u8]) -> Result<JsonRpcResponse, String> {
    let value: Value = serde_json::from_slice(bytes).map_err(|error| error.to_string())?;
    let error = value.get("error").map(|error| JsonRpcError {
        code: error["code"].as_i64().unwrap_or_default(),
        message: error["message"].as_str().unwrap_or_default().to_string(),
    });
    Ok(JsonRpcResponse {
        id: value.get("id").and_then(Value::as_u64),
        result: value.get("result").cloned(),
        error,
    })
}

fn text_of(value: &Value) -> Option<String> {
    value.as_str().map(|text| text.to_string())
}

fn initialize_result(value: &Value) -> InitializeResult {
    InitializeResult {
        protocol_version: text_of(&value["protocolVersion"]).unwrap_or_default(),
        capabilities: ServerCapabilities {
            tools: value["capabilities"].get("tools").cloned(),
            resources: None,
            prompts: None,
        },
        server_info: value.get("serverInfo").map(|info| ServerInfo {
            name: text_of(&info["name"]).unwrap_or_default(),
            version: text_of(&info["version"]),
        }),
    }
}

fn tools_of(value: &Value) -> Vec<McpToolDef> {
    let mut tools = Vec::new();
    for tool in value["tools"].as_array().into_iter().flatten() {
        tools.push(McpToolDef {
            name: text_of(&tool["name"]).unwrap_or_default(),
            description: text_of(&tool["description"]),
            input_schema: tool["inputSchema"].clone(),
        });
    }
    tools
}

struct Reply {
    status: u16,
    session: Option<&'static str>,
    content_type: Option<&'static str>,
    body: String,
}

fn json_response(body: String) -> Reply {
    Reply {
        status: 200,
        session: Some("fake-session-1"),
        content_type: Some("application/json"),
        body,
    }
}

fn sse_response(events: &[String]) -> Reply {
    let mut body = String::new();
    for event in events {
        body.push_str("event: message\n");
        body.push_str(&format!("data: {event}\n\n"));
    }
    Reply {
        status: 200,
        session: Some("fake-session-1"),
        content_type: Some("text/event-stream"),
        body,
    }
}

/// Answers initialize and tools/list with JSON bodies, and tools/call with an
/// event stream that carries a notification before the response.
fn fake_server(request: &HttpRequest) -> Reply {
    let message: Value = request
        .body
        .as_deref()
        .and_then(|body| serde_json::from_str(body).ok())
        .unwrap_or(Value::Null);
    let id = message.get("id").and_then(Value::as_u64).unwrap_or(0);
    match message.get("method").and_then(Value::as_str).unwrap_or("") {
        "initialize" => json_response(format!(
            "{{\"jsonrpc\":\"2.0\",\"id\":{id},\"result\":{{\"protocolVersion\":\"2025-03-26\",\
             \"capabilities\":{{\"tools\":{{}}}},\
             \"serverInfo\":{{\"name\":\"fake-http\",\"version\":\"1.0.0\"}}}}}}"
        )),
        "tools/list" => json_response(format!(
            "{{\"jsonrpc\":\"2.0\",\"id\":{id},\"result\":{{\"tools\":[{{\"name\":\"echo\",\
             \"description\":\"Echo a message\",\"inputSchema\":{{\"type\":\"object\"}}}}]}}}}"
        )),
        "tools/call" => sse_response(&[
            "{\"jsonrpc\":\"2.0\",\"method\":\"notifications/message\",\
             \"params\":{\"level\":\"info\",\"data\":\"working\"}}"
                .to_string(),
            format!(
                "{{\"jsonrpc\":\"2.0\",\"id\":{id},\"result\":{{\"content\":[{{\"type\":\"text\",\
                 \"text\":\"echoed over http\"}}],\"isError\":false}}}}"
            ),
        ]),
        _ => Reply {
            status: 202,
            session: None,
            content_type: None,
            body: String::new(),
        },
    }
}

fn failing_server(_request: &HttpRequest) -> Reply {
    Reply {
        status: 500,
        session: None,
        content_type: None,
        body: "internal error".to_string(),
    }
}

struct Conversation {
    client: McpClient,
    server: fn(&HttpRequest) -> Reply,
    seen: Vec<Vec<(String, String)>>,
}

impl Conversation {
    fn post(&mut self, outgoing: Outgoing) -> Result<(ReplyKind, String), McpError> {
        let request = match outgoing {
            Outgoing::Post(request) => request,
            Outgoing::Line(line) => panic!("a request, not {line}"),
        };
        let reply = (self.server)(&request);
        self.seen.push(request.headers);
        let http = match &mut self.client.handle.transport {
            HandleTransport::Http(http) => http,
            HandleTransport::Stdio(_) => panic!("an HTTP client"),
        };
        let kind = http.accept(&ResponseHead {
            status: reply.status,
            session_id: reply.session.map(|value| value.as_bytes().to_vec()),
            content_type: reply.content_type.map(|value| value.as_bytes().to_vec()),
        });
        if kind == ReplyKind::Rejected {
            return Err(http.rejected(reply.status, &reply.body));
        }
        Ok((kind, reply.body))
    }

    fn exchange(&mut self, call: Call) -> Result<JsonRpcResponse, McpError> {
        let (kind, body) = match self.post(call.outgoing) {
            Ok(reply) => reply,
            Err(error) => return self.client.handle.settle(Outcome::Failed(error)),
        };
        let http = match &self.client.handle.transport {
            HandleTransport::Http(http) => http,
            HandleTransport::Stdio(_) => panic!("an HTTP client"),
        };
        let received = if kind == ReplyKind::EventStream {
            let mut exchange = SseExchange::new(call.id);
            let mut answer = None;
            for chunk in body.as_bytes().chunks(7) {
                answer = exchange.read_chunk(chunk, parse);
                if answer.is_some() {
                    break;
                }
            }
            answer.ok_or_else(|| http.stream_ended(call.id))
        } else {
            http.extract_response(call.id, body.as_bytes(), parse_slice)
        };
        self.client.handle.settle(match received {
            Ok(response) => Outcome::Answered(response),
            Err(error) => Outcome::Failed(error),
        })
    }

    fn connect(&mut self) -> Result<(), McpError> {
        let call = self.client.initialize("0.1.0");
        let answer = self.exchange(call);
        let confirmation = self.client.on_initialize(
            answer.map(|response| response.result.as_ref().map(initialize_result)),
        )?;
        let sent = self.post(confirmation).map(|_| ());
        let call = self.client.on_confirmed(sent)?;
        let answer = self.exchange(call);
        self.client
            .finish_connect(answer.map(|response| response.result.as_ref().map(tools_of)))
    }
}

fn conversation(name: &str, server: fn(&HttpRequest) -> Reply) -> Conversation {
    let config = http_config("http://127.0.0.1:8080/mcp".to_string());
    let plan: Result<ConnectPlan<String>, McpError> =
        McpClient::connect(name.to_string(), &config, TransportKind::Http, StringMap::new());
    match plan {
        Ok(ConnectPlan::Http(client)) => Conversation {
            client,
            server,
            seen: Vec::new(),
        },
        _ => panic!("an HTTP client"),
    }
}

fn header_block(headers: &[(String, String)]) -> String {
    let mut block = String::new();
    for (key, value) in headers {
        block.push_str(&format!("{key}: {value}\r\n"));
    }
    block.to_ascii_lowercase()
}

#[test]
fn http_transport_end_to_end_initialize_list_and_call() {
    let mut talk = conversation("fake-http", fake_server);
    assert!(talk.connect().is_ok(), "HTTP MCP server must connect");

    assert_eq!(talk.client.server_info().expect("server info").name, "fake-http");
    assert_eq!(talk.client.tools().len(), 1);
    assert_eq!(talk.client.tools()[0].name, "echo");

    let arguments = serde_json::from_str("{\"message\": \"hi\"}").expect("valid JSON");
    let call = talk.client.call_tool("echo", arguments);
    let response = talk.exchange(call).expect("tools/call over SSE");
    let result = McpHandle::tool_result(response).expect("a result");
    assert_eq!(result["isError"], Value::Bool(false));
    assert_eq!(result["content"][0]["type"].as_str(), Some("text"));
    assert_eq!(result["content"][0]["text"].as_str(), Some("echoed over http"));

    assert!(talk.client.is_running(ChildStatus::Unknown));

    let initialize_headers = header_block(&talk.seen[0]);
    assert!(
        initialize_headers.contains("authorization: bearer test-token"),
        "configured headers must be sent: {initialize_headers}"
    );
    let call_headers = header_block(talk.seen.last().expect("tools/call request headers"));
    assert!(
        call_headers.contains("mcp-session-id: fake-session-1"),
        "session id from initialize must be echoed on later requests: {call_headers}"
    );
    assert!(
        call_headers.contains("mcp-protocol-version: 2025-03-26"),
        "negotiated protocol version must be echoed on later requests: {call_headers}"
    );
}

#[test]
fn http_connect_fails_cleanly_on_server_error() {
    let mut talk = conversation("failing-http", failing_server);
    let error = match talk.connect() {
        Ok(_) => panic!("a 500 during initialize must fail the connect"),
        Err(error) => error,
    };
    let message = error.message();
    assert!(
        message.contains("failing-http") && message.contains("500"),
        "error must name the server and status: {message}"
    );
    assert_eq!(talk.seen.len(), 1);
    assert!(!talk.client.is_running(ChildStatus::Unknown));
}

fn fake_server_config() -> McpServerConfig {
    McpServerConfig {
        command: "/bin/sh".to_string(),
        args: vec!["-c".to_string(), "cat".to_string()],
        env: StringMap::new(),
        shared: false,
        transport: None,
        url: None,
        headers: StringMap::new(),
        enabled: None,
        disabled: None,
    }
}

fn spawn_plan(name: &str, dir: &str, exists: bool) -> SpawnPlan<String> {
    let plan = McpClient::connect_in_dir(
        name.to_string(),
        &fake_server_config(),
        TransportKind::Stdio,
        Some((dir.to_string(), exists)),
        StringMap::new(),
    );
    match plan {
        Ok(ConnectPlan::Spawn(spawn)) => spawn,
        _ => panic!("a child process"),
    }
}

/// Connects to a fake child process that reports its working directory as the
/// name of the server.
fn connect_stdio(name: &str, cwd: &str) -> McpClient {
    let mut client = McpClient::spawned(name.to_string());
    let mut pending: PendingRequests<u64> = PendingRequests::new();

    let call = client.initialize("0.1.0");
    pending.register(call.id, call.id);
    let line = format!(
        "{{\"jsonrpc\":\"2.0\",\"id\":1,\"result\":{{\"protocolVersion\":\"2024-11-05\",\
         \"capabilities\":{{}},\"serverInfo\":{{\"name\":\"{cwd}\",\"version\":\"0\"}}}}}}\n"
    );
    let (slot, response) = pending.read_line(&line, parse).expect("an answer");
    assert_eq!(slot, call.id);
    let settled = client
        .handle
        .settle(Outcome::Answered(response))
        .expect("a response");
    assert!(client
        .on_initialize(Ok(settled.result.as_ref().map(initialize_result)))
        .is_ok());

    let call = client.on_confirmed(Ok(())).expect("a request");
    pending.register(call.id, call.id);
    let line = "{\"jsonrpc\":\"2.0\",\"id\":2,\"result\":{\"tools\":[]}}\n";
    let (slot, response) = pending.read_line(line, parse).expect("an answer");
    assert_eq!(slot, call.id);
    let settled = client
        .handle
        .settle(Outcome::Answered(response))
        .expect("a response");
    assert!(client
        .finish_connect(Ok(settled.result.as_ref().map(tools_of)))
        .is_ok());
    client
}

#[test]
fn connect_in_dir_sets_subprocess_cwd() {
    let spawn = spawn_plan("cwd-test", "/tmp/project", true);
    let cwd = spawn.cwd.expect("a working directory");
    let client = connect_stdio("cwd-test", &cwd);
    assert_eq!(client.server_info().expect("server info").name, "/tmp/project");
}

#[test]
fn connect_in_dir_missing_dir_falls_back_to_inherited_cwd() {
    let spawn = spawn_plan("cwd-fallback-test", "/nonexistent/jcode-557", false);
    let cwd = spawn.cwd.unwrap_or_else(|| "/inherited".to_string());
    let client = connect_stdio("cwd-fallback-test", &cwd);
    let reported = &client.server_info().expect("server info").name;
    assert!(!reported.is_empty());
    assert_eq!(reported, "/inherited");
}
