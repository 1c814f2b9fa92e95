use mcp_client::error::McpError;
use mcp_client::http::{
    select_answer, HttpMethod, HttpTransport, ReplyKind, ResponseHead, SseExchange,
};
use mcp_client::protocol::{JsonRpcError, JsonRpcResponse};
use mcp_client::string_map::StringMap;
use serde_json::Value;

fn transport() -> HttpTransport {
    let headers = StringMap::from_pairs(vec![(
        "Authorization".to_string(),
        "Bearer test-token".to_string(),
    )]);
    HttpTransport::new("fake-http".to_string(), "http://h/mcp".to_string(), headers)
}

fn head(status: u16, session: Option<&[u8]>, content_type: Option<&[u8]>) -> ResponseHead {
    ResponseHead {
        status,
        session_id: session.map(|value| value.to_vec()),
        content_type: content_type.map(|value| value.to_vec()),
    }
}

fn header<'a>(headers: &'a [(String, String)], name: &str) -> Option<&'a str> {
    headers
        .iter()
        .find(|(key, _)| key.as_str() == name)
        .map(|(_, value)| value.as_str())
}

/// An empty JSON object.
fn object() -> Value {
    Value::Object(serde_json::Map::new())
}

/// Makes a message of JSON text.
fn parse(text: &str) -> Option<JsonRpcResponse> {
    let value: Value = serde_json::from_str(text).ok()?;
    let error = value.get("error").map(|error| JsonRpcError {
        code: error["code"].as_i64().unwrap_or_default(),
        message: error["message"].as_str().unwrap_or_default().to_string(),
    });
    Some(JsonRpcResponse {
        id: value.get("id").and_then(Value::as_u64),
        result: value.get("result").cloned(),
        error,
    })
}

fn parse_body(body: &[u8]) -> Result<JsonRpcResponse, String> {
    std::str::from_utf8(body)
        .ok()
        .and_then(parse)
        .ok_or_else(|| "not JSON".to_string())
}

#[test]
fn post_carries_the_fixed_and_the_configured_headers() {
    let request = transport().post("{}".to_string());
    assert_eq!(request.method, HttpMethod::Post);
    assert_eq!(request.url, "http://h/mcp");
    assert_eq!(request.body.as_deref(), Some("{}"));
    assert_eq!(
        request.headers,
        vec![
            ("content-type".to_string(), "application/json".to_string()),
            (
                "accept".to_string(),
                "application/json, text/event-stream".to_string()
            ),
            ("Authorization".to_string(), "Bearer test-token".to_string()),
        ]
    );
}

#[test]
fn session_and_revision_are_echoed_once_known() {
    let mut http = transport();
    let kind = http.accept(&head(200, Some(b"fake-session-1"), Some(b"application/json")));
    assert_eq!(kind, ReplyKind::Json);
    http.set_protocol_version("2025-03-26");
    let call = http.request("tools/call", Some(object()));
    assert_eq!(call.id, 1);
    assert_eq!(
        call.request.body.as_deref(),
        Some("{\"jsonrpc\":\"2.0\",\"id\":1,\"method\":\"tools/call\",\"params\":{}}")
    );
    let headers = &call.request.headers;
    assert_eq!(header(headers, "mcp-session-id"), Some("fake-session-1"));
    assert_eq!(header(headers, "mcp-protocol-version"), Some("2025-03-26"));
    assert_eq!(header(headers, "Authorization"), Some("Bearer test-token"));
    assert_eq!(http.request("x", None).id, 2);
    let notification = http.notify("notifications/initialized", None);
    assert_eq!(
        notification.body.as_deref(),
        Some("{\"jsonrpc\":\"2.0\",\"method\":\"notifications/initialized\"}")
    );
    assert_eq!(
        header(&notification.headers, "mcp-session-id"),
        Some("fake-session-1")
    );
    assert_eq!(http.request("y", None).id, 3);
}

#[test]
fn latest_session_wins_even_on_failure() {
    let mut http = transport();
    assert_eq!(http.session_id(), None);
    assert_eq!(http.accept(&head(500, Some(b"one"), None)), ReplyKind::Rejected);
    assert_eq!(http.session_id(), Some("one".to_string()));
    assert_eq!(http.accept(&head(202, None, None)), ReplyKind::Json);
    assert_eq!(http.session_id(), Some("one".to_string()));
    assert_eq!(http.accept(&head(200, Some(b"two\xff"), None)), ReplyKind::Json);
    assert_eq!(http.session_id(), Some("one".to_string()));
    http.accept(&head(200, Some(b"two\t~"), None));
    assert_eq!(http.session_id(), Some("two\t~".to_string()));
    http.accept(&head(200, Some(b""), None));
    assert_eq!(http.session_id(), Some(String::new()));
}

#[test]
fn content_type_decides_how_the_body_is_read() {
    let mut http = transport();
    for (content_type, kind) in [
        (&b"text/event-stream"[..], ReplyKind::EventStream),
        (b"Text/Event-Stream; charset=utf-8", ReplyKind::EventStream),
        (b"text/event", ReplyKind::Json),
        (b" text/event-stream", ReplyKind::Json),
        (b"application/json", ReplyKind::Json),
        (b"text/event-stream\x01", ReplyKind::Json),
    ] {
        assert_eq!(http.accept(&head(200, None, Some(content_type))), kind);
    }
    assert_eq!(
        http.accept(&head(404, None, Some(b"text/event-stream"))),
        ReplyKind::Rejected
    );
}

#[test]
fn success_is_the_two_hundreds() {
    let mut http = transport();
    for (status, kind) in [
        (199, ReplyKind::Rejected),
        (200, ReplyKind::Json),
        (202, ReplyKind::Json),
        (299, ReplyKind::Json),
        (300, ReplyKind::Rejected),
        (500, ReplyKind::Rejected),
    ] {
        assert_eq!(http.accept(&head(status, None, None)), kind);
    }
}

#[test]
fn close_ends_an_assigned_session_only() {
    let mut http = transport();
    assert!(http.close().is_none());
    http.accept(&head(200, Some(b"s"), None));
    assert_eq!(
        http.close().expect("a session to end").headers,
        vec![
            ("mcp-session-id".to_string(), "s".to_string()),
            ("Authorization".to_string(), "Bearer test-token".to_string()),
        ]
    );
    http.set_protocol_version("2025-03-26");
    let request = http.close().expect("a session to end");
    assert_eq!(request.method, HttpMethod::Delete);
    assert_eq!(request.url, "http://h/mcp");
    assert_eq!(request.body, None);
    assert_eq!(
        request.headers,
        vec![
            ("mcp-session-id".to_string(), "s".to_string()),
            ("Authorization".to_string(), "Bearer test-token".to_string()),
            ("mcp-protocol-version".to_string(), "2025-03-26".to_string()),
        ]
    );
}

#[test]
fn failures_are_explained() {
    let http = transport();
    assert_eq!(
        http.rejected(500, "internal error").message(),
        "MCP HTTP server 'fake-http' returned 500 Internal Server Error: internal error"
    );
    assert_eq!(
        http.rejected(799, "").message(),
        "MCP HTTP server 'fake-http' returned 799 <unknown status code>: "
    );
    for (error, headline, cause) in [
        (
            http.send_failed("refused".to_string()),
            "Failed to reach MCP HTTP server 'fake-http' at http://h/mcp",
            Some("refused"),
        ),
        (
            http.body_failed("cut".to_string()),
            "Failed to read response body from MCP server 'fake-http'",
            Some("cut"),
        ),
        (
            http.stream_failed("cut".to_string()),
            "Failed to read SSE stream from MCP server 'fake-http'",
            Some("cut"),
        ),
        (
            http.parsed_response(1, b"<html>", Err("expected value".to_string()))
                .expect_err("no JSON"),
            "MCP HTTP server 'fake-http' returned a non-JSON-RPC body: <html>",
            Some("expected value"),
        ),
        (
            http.rejected(404, "gone"),
            "MCP HTTP server 'fake-http' returned 404 Not Found: gone",
            None,
        ),
    ] {
        assert_eq!(error.outermost(), headline);
        assert_eq!(error.cause().as_deref(), cause);
    }
    let long = http.rejected(404, &"x".repeat(400)).message();
    assert_eq!(
        long,
        format!(
            "MCP HTTP server 'fake-http' returned 404 Not Found: {}\u{2026}",
            "x".repeat(300)
        )
    );
    assert_eq!(
        http.send_failed("refused".to_string()).message(),
        "Failed to reach MCP HTTP server 'fake-http' at http://h/mcp: refused"
    );
    assert_eq!(
        http.body_failed("cut".to_string()).message(),
        "Failed to read response body from MCP server 'fake-http': cut"
    );
    assert_eq!(
        http.stream_failed("cut".to_string()).message(),
        "Failed to read SSE stream from MCP server 'fake-http': cut"
    );
    assert_eq!(
        http.stream_ended(12).message(),
        "MCP HTTP server 'fake-http' closed the SSE stream without answering request 12"
    );
}

#[test]
fn json_body_is_taken_or_quoted() {
    let http = transport();
    let body = b"{\"id\":9,\"result\":1}";
    let response = http
        .extract_response(9, body, parse_body)
        .expect("a response");
    assert_eq!(response.id, Some(9));
    assert_eq!(response.result, Some(Value::from(1)));
    let error = http
        .parsed_response(9, b"<ht\xffml>", Err("expected value".to_string()))
        .expect_err("no JSON");
    assert_eq!(
        error.message(),
        "MCP HTTP server 'fake-http' returned a non-JSON-RPC body: <ht\u{fffd}ml>: expected value"
    );
}

#[test]
fn json_body_must_answer_the_request_that_was_sent() {
    let mut http = transport();
    let sent = http.request("tools/list", None).id;
    assert_eq!(sent, 1);
    for body in [
        "{\"id\":2,\"result\":1}",
        "{\"id\":0,\"error\":{\"code\":1,\"message\":\"no\"}}",
        "{\"result\":1}",
        "{\"method\":\"notifications/message\"}",
    ] {
        let error = http
            .extract_response(sent, body.as_bytes(), parse_body)
            .expect_err("an answer to another request");
        assert!(matches!(error, McpError::OtherAnswer { id: 1, .. }));
        assert_eq!(
            error.message(),
            "MCP HTTP server 'fake-http' returned a response that does not answer request 1"
        );
    }
    let response = http
        .extract_response(sent, b"{\"id\":1,\"result\":1}", parse_body)
        .expect("the answer");
    assert_eq!(response.id, Some(sent));
}

#[test]
fn unreadable_body_is_reported_with_its_cause() {
    let error = transport()
        .extract_response(9, b"<html>", parse_body)
        .expect_err("no JSON");
    assert_eq!(
        error.message(),
        "MCP HTTP server 'fake-http' returned a non-JSON-RPC body: <html>: not JSON"
    );
}

#[test]
fn answer_is_found_behind_a_notification() {
    let mut exchange = SseExchange::new(3);
    let chunk = "event: message\ndata: {\"jsonrpc\":\"2.0\",\"method\":\"notifications/message\"}\n\n\
                 data: not json\n\n\
                 data: {\"id\":2,\"result\":\"other\"}\n\n\
                 data: {\"id\":3}\n\n\
                 data: {\"id\":3,\"result\":\"mine\"}\n\n\
                 data: {\"id\":3,\"result\":\"again\"}\n\n";
    let bytes = chunk.as_bytes();
    let answer = exchange.read_chunk(bytes, parse).expect("an answer");
    assert_eq!(answer.result, Some(Value::from("mine")));

    for cut in 0..bytes.len() {
        let mut exchange = SseExchange::new(3);
        let answer = match exchange.read_chunk(&bytes[..cut], parse) {
            Some(answer) => answer,
            None => exchange.read_chunk(&bytes[cut..], parse).expect("an answer"),
        };
        assert_eq!(answer.result, Some(Value::from("mine")), "cut at {cut}");
    }
}

#[test]
fn error_counts_as_an_answer() {
    let mut exchange = SseExchange::new(1);
    let answer = exchange
        .read_chunk(
            b"data: {\"id\":1,\"error\":{\"code\":-32000,\"message\":\"no\"}}\n\n",
            parse,
        )
        .expect("an answer");
    assert_eq!(answer.error.expect("an error").code, -32000);
    assert!(exchange.read_chunk(b"data: {\"id\":1,", parse).is_none());
}

#[test]
fn no_answer_is_selected_where_there_is_none() {
    assert!(select_answer(Vec::new(), 1).is_none());
    assert!(select_answer(vec![None, parse("{\"id\":2,\"result\":0}")], 1).is_none());
    let answer = select_answer(
        vec![None, parse("{\"id\":1,\"result\":0}"), parse("{\"id\":1,\"result\":1}")],
        1,
    );
    assert_eq!(answer.expect("an answer").result, Some(Value::from(0)));
}
