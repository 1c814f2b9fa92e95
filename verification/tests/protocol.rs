use mcp_client::protocol::{
    encode_initialize_params, encode_notification, encode_request, encode_tool_call_params,
    JsonRpcError, JsonRpcResponse, RequestIds,
};
use serde_json::Value;

fn parsed(text: &str) -> Value {
    serde_json::from_str(text).expect("valid JSON")
}

#[test]
fn request_is_written_as_json_rpc() {
    assert_eq!(
        encode_request(7, "tools/list", &None),
        "{\"jsonrpc\":\"2.0\",\"id\":7,\"method\":\"tools/list\"}"
    );
    assert_eq!(
        encode_request(18446744073709551615, "ping", &Some("[1,2]".to_string())),
        "{\"jsonrpc\":\"2.0\",\"id\":18446744073709551615,\"method\":\"ping\",\"params\":[1,2]}"
    );
}

#[test]
fn notification_has_no_id() {
    assert_eq!(
        encode_notification("notifications/initialized", &None),
        "{\"jsonrpc\":\"2.0\",\"method\":\"notifications/initialized\"}"
    );
    assert_eq!(
        encode_notification("n", &Some("{}".to_string())),
        "{\"jsonrpc\":\"2.0\",\"method\":\"n\",\"params\":{}}"
    );
}

#[test]
fn quoted_text_is_escaped() {
    let mut text = String::new();
    let mut escaped = String::new();
    for code in 0..0x20u32 {
        text.push(char::from_u32(code).expect("a character"));
        escaped.push_str(&match code {
            8 => "\\b".to_string(),
            9 => "\\t".to_string(),
            10 => "\\n".to_string(),
            12 => "\\f".to_string(),
            13 => "\\r".to_string(),
            _ => format!("\\u{code:04x}"),
        });
    }
    text.push_str("\"\\/\u{7f}\u{e9}\u{2028}\u{1f600}");
    escaped.push_str("\\\"\\\\/\u{7f}\u{e9}\u{2028}\u{1f600}");
    let message = encode_notification(&text, &None);
    assert_eq!(
        message,
        format!("{{\"jsonrpc\":\"2.0\",\"method\":\"{escaped}\"}}")
    );
    assert_eq!(parsed(&message)["method"].as_str(), Some(text.as_str()));
    assert!(!message.contains('\n'));
}

#[test]
fn null_arguments_become_an_empty_object() {
    assert_eq!(
        encode_tool_call_params("echo", &Value::Null),
        "{\"arguments\":{},\"name\":\"echo\"}"
    );
    assert_eq!(
        encode_tool_call_params("e\"o", &parsed("{ \"message\" : \"hi\" }")),
        "{\"arguments\":{\"message\":\"hi\"},\"name\":\"e\\\"o\"}"
    );
}

#[test]
fn other_arguments_are_kept() {
    for json in ["\"null\"", "[null]", "{}", "0", "false", "\"\"", "1.5"] {
        let params = parsed(&encode_tool_call_params("t", &parsed(json)));
        assert_eq!(params["arguments"], parsed(json), "{json}");
    }
    let lines = Value::from("a\nb");
    assert!(!encode_tool_call_params("t", &lines).contains('\n'));
}

#[test]
fn initialize_names_revision_and_client() {
    let text = encode_initialize_params("2025-03-26", "1.2.3");
    assert_eq!(
        text,
        "{\"capabilities\":{},\"clientInfo\":{\"name\":\"jcode\",\"version\":\"1.2.3\"},\
         \"protocolVersion\":\"2025-03-26\"}"
    );
    let params = parsed(&text);
    assert_eq!(params["protocolVersion"].as_str(), Some("2025-03-26"));
    assert_eq!(params["clientInfo"]["name"].as_str(), Some("jcode"));
    assert_eq!(params["clientInfo"]["version"].as_str(), Some("1.2.3"));
    assert!(params["capabilities"].is_object());
    assert_eq!(params.to_string(), text);
}

#[test]
fn ids_count_from_one_and_wrap() {
    let mut ids = RequestIds::new();
    assert_eq!(ids.take(), 1);
    assert_eq!(ids.take(), 2);
    let mut last = RequestIds { next: u64::MAX };
    assert_eq!(last.take(), u64::MAX);
    assert_eq!(last.take(), 0);
    assert_eq!(last.take(), 1);
}

#[test]
fn answer_needs_the_id_and_a_result_or_an_error() {
    let with_result = JsonRpcResponse {
        id: Some(3),
        result: Some(Value::Bool(true)),
        error: None,
    };
    let with_error = JsonRpcResponse {
        id: Some(3),
        result: None,
        error: Some(JsonRpcError {
            code: -32601,
            message: "no such method".to_string(),
        }),
    };
    let with_neither = JsonRpcResponse {
        id: Some(3),
        result: None,
        error: None,
    };
    let without_id = JsonRpcResponse {
        id: None,
        result: Some(Value::Null),
        error: None,
    };
    assert!(with_result.is_answer_to(3));
    assert!(!with_result.is_answer_to(4));
    assert!(with_error.is_answer_to(3));
    assert!(!with_neither.is_answer_to(3));
    assert!(!without_id.is_answer_to(3));
}
