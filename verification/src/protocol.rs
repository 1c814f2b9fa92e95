//! The messages of the protocol: JSON-RPC envelopes and what they carry.

use serde_json::Value;
use vstd::prelude::*;
use vstd::string::*;

use crate::string_map::StringMap;
use crate::text::decimal_text;

verus! {

/// A JSON value of `serde_json`. It is carried through and never looked into.
#[verifier::external_type_specification]
#[verifier::external_body]
pub struct ExValue(serde_json::Value);

/// Protocol revision requested over standard streams.
pub const STDIO_PROTOCOL_VERSION: &'static str = "2024-11-05";

/// Protocol revision that introduced streamable HTTP.
pub const HTTP_PROTOCOL_VERSION: &'static str = "2025-03-26";

/// The error of a JSON-RPC response.
#[derive(Debug)]
pub struct JsonRpcError {
    pub code: i64,
    pub message: String,
}

/// A JSON-RPC response, or any other message in which these fields are absent.
#[derive(Debug)]
pub struct JsonRpcResponse {
    pub id: Option<u64>,
    pub result: Option<Value>,
    pub error: Option<JsonRpcError>,
}

/// How a server introduces itself.
#[derive(Debug)]
pub struct ServerInfo {
    pub name: String,
    pub version: Option<String>,
}

/// What a server offers.
#[derive(Debug)]
pub struct ServerCapabilities {
    pub tools: Option<Value>,
    pub resources: Option<Value>,
    pub prompts: Option<Value>,
}

impl Default for ServerCapabilities {
    fn default() -> (capabilities: Self)
        ensures
            capabilities == (ServerCapabilities { tools: None, resources: None, prompts: None }),
    {
        ServerCapabilities { tools: None, resources: None, prompts: None }
    }
}

/// A tool that a server offers.
#[derive(Debug)]
pub struct McpToolDef {
    pub name: String,
    pub description: Option<String>,
    pub input_schema: Value,
}

/// The result of the `initialize` request.
#[derive(Debug)]
pub struct InitializeResult {
    pub protocol_version: String,
    pub capabilities: ServerCapabilities,
    pub server_info: Option<ServerInfo>,
}

/// The configuration of one server.
pub struct McpServerConfig {
    pub command: String,
    pub args: Vec<String>,
    pub env: StringMap,
    pub shared: bool,
    pub transport: Option<String>,
    pub url: Option<String>,
    pub headers: StringMap,
    pub enabled: Option<bool>,
    pub disabled: Option<bool>,
}

impl JsonRpcResponse {
    /// Whether this message answers the request `id`: it carries that id, and a
    /// result or an error.
    pub open spec fn answers(self, id: u64) -> bool {
        &&& self.id == Some(id)
        &&& self.result is Some || self.error is Some
    }

    /// Whether this message answers the request `id`.
    pub fn is_answer_to(&self, id: u64) -> (yes: bool)
        ensures
            yes == self.answers(id),
    {
        match self.id {
            Some(own) => own == id && (self.result.is_some() || self.error.is_some()),
            None => false,
        }
    }
}

/// Whether `message` can be what `parse` makes of the payload `payload`.
pub open spec fn parse_gives<F: Fn(&str) -> Option<JsonRpcResponse>>(
    parse: F,
    payload: Seq<char>,
    message: Option<JsonRpcResponse>,
) -> bool {
    exists|text: &str| text@ == payload && #[trigger] parse.ensures((text,), message)
}

/// The hexadecimal digit that stands for `n`.
pub open spec fn hex_digit(n: int) -> char {
    if n < 10 {
        (48 + n) as char
    } else {
        (87 + n) as char
    }
}

/// `c` as it stands in a JSON string.
pub open spec fn json_escaped(c: char) -> Seq<char> {
    if c == '"' || c == '\\' {
        seq!['\\', c]
    } else if c == '\u{8}' {
        seq!['\\', 'b']
    } else if c == '\t' {
        seq!['\\', 't']
    } else if c == '\n' {
        seq!['\\', 'n']
    } else if c == '\u{c}' {
        seq!['\\', 'f']
    } else if c == '\r' {
        seq!['\\', 'r']
    } else if (c as int) < 32 {
        seq!['\\', 'u', '0', '0', hex_digit(c as int / 16), hex_digit(c as int % 16)]
    } else {
        seq![c]
    }
}

/// `text` as it stands between the quotes of a JSON string.
pub open spec fn json_body(text: Seq<char>) -> Seq<char>
    decreases text.len(),
{
    if text.len() == 0 {
        Seq::empty()
    } else {
        json_body(text.drop_last()) + json_escaped(text.last())
    }
}

/// `text` as a JSON string.
pub open spec fn json_quoted(text: Seq<char>) -> Seq<char> {
    seq!['"'] + json_body(text) + seq!['"']
}

/// Calls `serde_json::to_string` on a text. Trusted: it never fails on one, and
/// gives the text in quotes, with the quote, the backslash and the control
/// characters below U+0020 escaped and every other character as it is.
#[verifier::external_body]
pub(crate) fn json_string(text: &str) -> (json: String)
    ensures
        json@ == json_quoted(text@),
{
    serde_json::to_string(text).unwrap_or_default()
}

/// The compact JSON text that `serde_json::to_string` writes of a value.
pub uninterp spec fn value_json(value: Value) -> Seq<char>;

/// Calls `serde_json::to_string` on a JSON value. Trusted: it never fails on
/// one, gives a text that depends on the value alone, and puts no line feed in
/// it.
#[verifier::external_body]
pub(crate) fn value_text(value: &Value) -> (json: String)
    ensures
        json@ == value_json(*value),
        !json@.contains('\n'),
{
    serde_json::to_string(value).unwrap_or_default()
}

/// Calls `serde_json::Value::is_null`. Trusted: it holds of the value whose JSON
/// text is `null`, and of no other.
#[verifier::external_body]
fn value_is_null(value: &Value) -> (null: bool)
    ensures
        null == (value_json(*value) == "null"@),
{
    value.is_null()
}

/// The JSON text of a value that may be absent.
pub open spec fn opt_json(value: Option<Value>) -> Option<Seq<char>> {
    match value {
        Some(v) => Some(value_json(v)),
        None => None,
    }
}

/// The JSON text of a value that may be absent.
pub(crate) fn opt_value_text(value: Option<Value>) -> (json: Option<String>)
    ensures
        crate::text::opt_text(json) == opt_json(value),
        json is Some ==> !json->0@.contains('\n'),
{
    match value {
        Some(v) => Some(value_text(&v)),
        None => None,
    }
}

/// The member `params` of an envelope, where there is one.
pub open spec fn params_member(params: Option<Seq<char>>) -> Seq<char> {
    match params {
        Some(json) => ",\"params\":"@ + json,
        None => ""@,
    }
}

/// The JSON-RPC request `id` of `method`; `params` is JSON.
pub open spec fn request_text(id: u64, method: Seq<char>, params: Option<Seq<char>>) -> Seq<char> {
    "{\"jsonrpc\":\"2.0\",\"id\":"@ + crate::text::decimal(id as nat) + ",\"method\":"@
        + json_quoted(method) + params_member(params) + "}"@
}

/// The JSON-RPC notification of `method`; `params` is JSON.
pub open spec fn notification_text(method: Seq<char>, params: Option<Seq<char>>) -> Seq<char> {
    "{\"jsonrpc\":\"2.0\",\"method\":"@ + json_quoted(method) + params_member(params) + "}"@
}

fn append_params(text: &mut String, params: &Option<String>)
    ensures
        final(text)@ == old(text)@ + params_member(crate::text::opt_text(*params)),
{
    match params {
        Some(json) => {
            text.append(",\"params\":");
            text.append(json.as_str());
        },
        None => {
            text.append("");
        },
    }
}

/// Writes the JSON-RPC request `id` of `method`; `params` is JSON.
pub fn encode_request(id: u64, method: &str, params: &Option<String>) -> (text: String)
    ensures
        text@ == request_text(id, method@, crate::text::opt_text(*params)),
{
    let mut text = "{\"jsonrpc\":\"2.0\",\"id\":".to_string();
    text.append(decimal_text(id).as_str());
    text.append(",\"method\":");
    text.append(json_string(method).as_str());
    append_params(&mut text, params);
    text.append("}");
    text
}

/// Writes the JSON-RPC notification of `method`; `params` is JSON.
pub fn encode_notification(method: &str, params: &Option<String>) -> (text: String)
    ensures
        text@ == notification_text(method@, crate::text::opt_text(*params)),
{
    let mut text = "{\"jsonrpc\":\"2.0\",\"method\":".to_string();
    text.append(json_string(method).as_str());
    append_params(&mut text, params);
    text.append("}");
    text
}

/// The parameters of `tools/call`; `arguments` is JSON, and `null` stands for
/// no arguments.
pub open spec fn tool_call_params(name: Seq<char>, arguments: Seq<char>) -> Seq<char> {
    "{\"arguments\":"@ + (if arguments == "null"@ {
        "{}"@
    } else {
        arguments
    }) + ",\"name\":"@ + json_quoted(name) + "}"@
}

/// Writes the parameters of `tools/call`; null stands for no arguments.
pub fn encode_tool_call_params(name: &str, arguments: &Value) -> (text: String)
    ensures
        text@ == tool_call_params(name@, value_json(*arguments)),
        !text@.contains('\n'),
{
    let mut text = "{\"arguments\":".to_string();
    let json = if value_is_null(arguments) {
        "{}".to_string()
    } else {
        value_text(arguments)
    };
    text.append(json.as_str());
    text.append(",\"name\":");
    text.append(json_string(name).as_str());
    text.append("}");
    proof {
        reveal_strlit("{\"arguments\":");
        reveal_strlit("{}");
        reveal_strlit(",\"name\":");
        reveal_strlit("}");
        law_quoted_text_is_one_line(name@);
        let start = "{\"arguments\":"@;
        let middle = ",\"name\":"@;
        lemma_concat_holds_no_newline(start, json@);
        lemma_concat_holds_no_newline(start + json@, middle);
        lemma_concat_holds_no_newline(start + json@ + middle, json_quoted(name@));
        lemma_concat_holds_no_newline(start + json@ + middle + json_quoted(name@), "}"@);
    }
    text
}

/// The parameters of `initialize`.
pub open spec fn initialize_params(
    protocol_version: Seq<char>,
    client_version: Seq<char>,
) -> Seq<char> {
    "{\"capabilities\":{},\"clientInfo\":{\"name\":\"jcode\",\"version\":"@ + json_quoted(
        client_version,
    ) + "},\"protocolVersion\":"@ + json_quoted(protocol_version) + "}"@
}

/// Writes the parameters of `initialize`.
pub fn encode_initialize_params(protocol_version: &str, client_version: &str) -> (text: String)
    ensures
        text@ == initialize_params(protocol_version@, client_version@),
        !text@.contains('\n'),
{
    let mut text =
        "{\"capabilities\":{},\"clientInfo\":{\"name\":\"jcode\",\"version\":".to_string();
    text.append(json_string(client_version).as_str());
    text.append("},\"protocolVersion\":");
    text.append(json_string(protocol_version).as_str());
    text.append("}");
    proof {
        reveal_strlit("{\"capabilities\":{},\"clientInfo\":{\"name\":\"jcode\",\"version\":");
        reveal_strlit("},\"protocolVersion\":");
        reveal_strlit("}");
        let start = "{\"capabilities\":{},\"clientInfo\":{\"name\":\"jcode\",\"version\":"@;
        let middle = "},\"protocolVersion\":"@;
        let client = json_quoted(client_version@);
        let revision = json_quoted(protocol_version@);
        law_quoted_text_is_one_line(client_version@);
        law_quoted_text_is_one_line(protocol_version@);
        lemma_concat_holds_no_newline(start, client);
        lemma_concat_holds_no_newline(start + client, middle);
        lemma_concat_holds_no_newline(start + client + middle, revision);
        lemma_concat_holds_no_newline(start + client + middle + revision, "}"@);
    }
    text
}

/// The id after `id`: one more, and 0 after the last.
pub open spec fn next_id(id: u64) -> u64 {
    if id == u64::MAX {
        0
    } else {
        (id + 1) as u64
    }
}

/// The id that comes `n` ids after `id`.
pub open spec fn id_after(id: u64, n: nat) -> u64
    decreases n,
{
    if n == 0 {
        id
    } else {
        next_id(id_after(id, (n - 1) as nat))
    }
}

/// Hands out request ids.
pub struct RequestIds {
    pub next: u64,
}

impl RequestIds {
    /// Ids from 1 on.
    pub fn new() -> (ids: Self)
        ensures
            ids.next == 1,
    {
        RequestIds { next: 1 }
    }

    /// Takes the next id.
    pub fn take(&mut self) -> (id: u64)
        ensures
            id == old(self).next,
            final(self).next == next_id(old(self).next),
    {
        let id: u64 = self.next;
        self.next = id.wrapping_add(1);
        id
    }
}

/// No id is handed out again before all the others were: of two ids fewer than
/// 2^64 apart, the second differs from the first.
pub proof fn law_ids_do_not_repeat(first: u64, i: nat, j: nat)
    requires
        i < j <= i + u64::MAX,
    ensures
        id_after(first, i) != id_after(first, j),
{
    lemma_id_after(first, i);
    lemma_id_after(first, j);
    let size: int = u64::MAX + 1;
    let a: int = (first + i) as int;
    let b: int = (first + j) as int;
    assert(a % size != b % size) by (nonlinear_arith)
        requires
            size > 0,
            a < b < a + size,
    {
        if a % size == b % size {
            vstd::arithmetic::div_mod::lemma_fundamental_div_mod(a, size);
            vstd::arithmetic::div_mod::lemma_fundamental_div_mod(b, size);
            assert(b - a == size * (b / size - a / size));
        }
    }
}

proof fn lemma_id_after(first: u64, n: nat)
    ensures
        id_after(first, n) == (first + n) % (u64::MAX + 1),
    decreases n,
{
    if n > 0 {
        lemma_id_after(first, (n - 1) as nat);
    }
}

/// An escaped character holds no line feed.
proof fn lemma_escaped_holds_no_newline(c: char)
    ensures
        !json_escaped(c).contains('\n'),
{
    if (c as int) < 32 {
        assert(hex_digit(c as int / 16) != '\n');
        assert(hex_digit(c as int % 16) != '\n');
    }
}

proof fn lemma_body_holds_no_newline(text: Seq<char>)
    ensures
        !json_body(text).contains('\n'),
    decreases text.len(),
{
    if text.len() > 0 {
        lemma_body_holds_no_newline(text.drop_last());
        lemma_escaped_holds_no_newline(text.last());
        lemma_concat_holds_no_newline(json_body(text.drop_last()), json_escaped(text.last()));
    }
}

proof fn lemma_concat_holds_no_newline(a: Seq<char>, b: Seq<char>)
    requires
        !a.contains('\n'),
        !b.contains('\n'),
    ensures
        !(a + b).contains('\n'),
{
    assert forall|i: int| 0 <= i < (a + b).len() implies (a + b)[i] != '\n' by {
        if i < a.len() {
            assert(a.contains(a[i]));
        } else {
            assert(b.contains(b[i - a.len()]));
        }
    }
}

/// A quoted text stays on one line, whatever it holds.
pub proof fn law_quoted_text_is_one_line(text: Seq<char>)
    ensures
        !json_quoted(text).contains('\n'),
{
    lemma_body_holds_no_newline(text);
    lemma_concat_holds_no_newline(seq!['"'], json_body(text));
    lemma_concat_holds_no_newline(seq!['"'] + json_body(text), seq!['"']);
}

proof fn lemma_decimal_digits(n: nat)
    ensures
        decimal_digits(crate::text::decimal(n)),
    decreases n,
{
    if n >= 10 {
        lemma_decimal_digits(n / 10);
    }
}

spec fn decimal_digits(text: Seq<char>) -> bool {
    forall|i: int| 0 <= i < text.len() ==> '0' <= #[trigger] text[i] <= '9'
}

/// A number in decimal is read back by one number only.
pub proof fn law_decimal_is_unambiguous(a: nat, b: nat)
    requires
        crate::text::decimal(a) == crate::text::decimal(b),
    ensures
        a == b,
    decreases a,
{
    let x = crate::text::decimal(a);
    let y = crate::text::decimal(b);
    lemma_decimal_len(a);
    lemma_decimal_len(b);
    if a >= 10 && b >= 10 {
        assert(x.last() == crate::text::digit(a % 10));
        assert(y.last() == crate::text::digit(b % 10));
        lemma_digit_is_unambiguous(a % 10, b % 10);
        assert(x.drop_last() =~= crate::text::decimal(a / 10));
        assert(y.drop_last() =~= crate::text::decimal(b / 10));
        law_decimal_is_unambiguous(a / 10, b / 10);
        assert(a == 10 * (a / 10) + a % 10);
        assert(b == 10 * (b / 10) + b % 10);
    } else if a < 10 && b < 10 {
        assert(x[0] == crate::text::digit(a));
        assert(y[0] == crate::text::digit(b));
        lemma_digit_is_unambiguous(a, b);
    } else {
        assert(x.len() == 1 || y.len() == 1);
    }
}

proof fn lemma_digit_is_unambiguous(a: nat, b: nat)
    requires
        a < 10,
        b < 10,
        crate::text::digit(a) == crate::text::digit(b),
    ensures
        a == b,
{
    assert(crate::text::digit(a) as int == 48 + a);
    assert(crate::text::digit(b) as int == 48 + b);
}

proof fn lemma_decimal_len(n: nat)
    ensures
        crate::text::decimal(n).len() >= 1,
        n >= 10 ==> crate::text::decimal(n).len() >= 2,
    decreases n,
{
    if n >= 10 {
        lemma_decimal_len(n / 10);
    }
}

/// A request or a notification is one line, so a line feed behind it ends it:
/// nothing in its method or parameters can end it earlier.
pub proof fn law_message_is_one_line(id: u64, method: Seq<char>, params: Option<Seq<char>>)
    requires
        params is Some ==> !params->0.contains('\n'),
    ensures
        !request_text(id, method, params).contains('\n'),
        !notification_text(method, params).contains('\n'),
{
    reveal_strlit("{\"jsonrpc\":\"2.0\",\"id\":");
    reveal_strlit("{\"jsonrpc\":\"2.0\",\"method\":");
    reveal_strlit(",\"method\":");
    reveal_strlit(",\"params\":");
    reveal_strlit("}");
    reveal_strlit("");
    let number = crate::text::decimal(id as nat);
    let quoted = json_quoted(method);
    let member = params_member(params);
    lemma_decimal_digits(id as nat);
    law_quoted_text_is_one_line(method);
    assert(!number.contains('\n'));
    let head = "{\"jsonrpc\":\"2.0\",\"id\":"@;
    let middle = ",\"method\":"@;
    let start = "{\"jsonrpc\":\"2.0\",\"method\":"@;
    assert(!head.contains('\n'));
    assert(!middle.contains('\n'));
    assert(!start.contains('\n'));
    assert(!"}"@.contains('\n'));
    if params is Some {
        assert(!",\"params\":"@.contains('\n'));
        lemma_concat_holds_no_newline(",\"params\":"@, params->0);
    }
    assert(!member.contains('\n'));
    lemma_concat_holds_no_newline(head, number);
    lemma_concat_holds_no_newline(head + number, middle);
    lemma_concat_holds_no_newline(head + number + middle, quoted);
    lemma_concat_holds_no_newline(head + number + middle + quoted, member);
    lemma_concat_holds_no_newline(head + number + middle + quoted + member, "}"@);
    lemma_concat_holds_no_newline(start, quoted);
    lemma_concat_holds_no_newline(start + quoted, member);
    lemma_concat_holds_no_newline(start + quoted + member, "}"@);
}

/// Two requests with different ids are different messages, whatever they ask.
pub proof fn law_request_carries_its_id(
    a: u64,
    b: u64,
    method_a: Seq<char>,
    method_b: Seq<char>,
    params_a: Option<Seq<char>>,
    params_b: Option<Seq<char>>,
)
    requires
        request_text(a, method_a, params_a) == request_text(b, method_b, params_b),
    ensures
        a == b,
{
    let head = "{\"jsonrpc\":\"2.0\",\"id\":"@;
    let x = crate::text::decimal(a as nat);
    let y = crate::text::decimal(b as nat);
    let whole_a = request_text(a, method_a, params_a);
    let whole_b = request_text(b, method_b, params_b);
    reveal_strlit(",\"method\":");
    lemma_decimal_digits(a as nat);
    lemma_decimal_digits(b as nat);
    let n = head.len() as int;
    assert forall|i: int| 0 <= i < x.len() implies whole_a[n + i] == #[trigger] x[i] by {}
    assert forall|i: int| 0 <= i < y.len() implies whole_b[n + i] == #[trigger] y[i] by {}
    assert(whole_a[n + x.len()] == ',');
    assert(whole_b[n + y.len()] == ',');
    if x.len() < y.len() {
        assert('0' <= y[x.len() as int]);
    } else if y.len() < x.len() {
        assert('0' <= x[y.len() as int]);
    } else {
        assert(x =~= y);
        law_decimal_is_unambiguous(a as nat, b as nat);
    }
}

/// Ids count up by one, and begin again at 0 behind the last.
pub proof fn law_ids_count_up(first: u64, n: nat)
    ensures
        next_id(first) == (first + 1) % (u64::MAX + 1),
        id_after(first, n) == (first + n) % (u64::MAX + 1),
{
    lemma_id_after(first, n);
}

/// A message answers the request whose id it carries, where it carries a result
/// or an error; a message without an id, or with neither, answers none.
pub proof fn law_answer_has_id_and_outcome(message: JsonRpcResponse, id: u64)
    ensures
        message.answers(id) <==> message.id is Some && message.id->0 == id && !(message.result is None
            && message.error is None),
{
}

/// A request says its id, its method and, where there are any, its parameters; a
/// notification says the same without an id.
pub proof fn law_message_says_what_is_asked(id: u64, method: Seq<char>, params: Seq<char>)
    ensures
        request_text(id, method, Some(params)) == "{\"jsonrpc\":\"2.0\",\"id\":"@
            + crate::text::decimal(id as nat) + ",\"method\":"@ + json_quoted(method)
            + ",\"params\":"@ + params + "}"@,
        request_text(id, method, None) == "{\"jsonrpc\":\"2.0\",\"id\":"@ + crate::text::decimal(
            id as nat,
        ) + ",\"method\":"@ + json_quoted(method) + "}"@,
        notification_text(method, Some(params)) == "{\"jsonrpc\":\"2.0\",\"method\":"@
            + json_quoted(method) + ",\"params\":"@ + params + "}"@,
        notification_text(method, None) == "{\"jsonrpc\":\"2.0\",\"method\":"@ + json_quoted(
            method,
        ) + "}"@,
{
    reveal_strlit("");
    assert(request_text(id, method, Some(params)) =~= "{\"jsonrpc\":\"2.0\",\"id\":"@
        + crate::text::decimal(id as nat) + ",\"method\":"@ + json_quoted(method)
        + ",\"params\":"@ + params + "}"@);
    assert(request_text(id, method, None) =~= "{\"jsonrpc\":\"2.0\",\"id\":"@
        + crate::text::decimal(id as nat) + ",\"method\":"@ + json_quoted(method) + "}"@);
    assert(notification_text(method, Some(params)) =~= "{\"jsonrpc\":\"2.0\",\"method\":"@
        + json_quoted(method) + ",\"params\":"@ + params + "}"@);
    assert(notification_text(method, None) =~= "{\"jsonrpc\":\"2.0\",\"method\":"@ + json_quoted(
        method,
    ) + "}"@);
}

/// Parameters are sent as the JSON of their value, and none where there are
/// none.
pub proof fn law_parameters_are_sent_as_json(params: Option<Value>)
    ensures
        params is Some ==> opt_json(params) == Some(value_json(params->0)),
        params is None ==> opt_json(params) is None,
{
}

/// A tool call names the tool and carries its arguments as they are; an empty
/// object stands in for null.
pub proof fn law_tool_call_carries_its_arguments(name: Seq<char>, arguments: Seq<char>)
    ensures
        arguments != "null"@ ==> tool_call_params(name, arguments) == "{\"arguments\":"@ + arguments
            + ",\"name\":"@ + json_quoted(name) + "}"@,
        tool_call_params(name, "null"@) == tool_call_params(name, "{}"@),
{
    reveal_strlit("null");
    reveal_strlit("{}");
    assert("{}"@.len() != "null"@.len());
}

/// The handshake asks for a revision and tells the version of the client, which
/// is `jcode` and claims no capabilities.
pub proof fn law_handshake_tells_revision_and_version(revision: Seq<char>, version: Seq<char>)
    ensures
        initialize_params(revision, version)
            == "{\"capabilities\":{},\"clientInfo\":{\"name\":\"jcode\",\"version\":"@ + json_quoted(
            version,
        ) + "},\"protocolVersion\":"@ + json_quoted(revision) + "}"@,
{
}

/// What a parser can make of a payload is what it can return for a text with the
/// characters of the payload.
pub proof fn law_message_is_parsed_from_its_payload<F: Fn(&str) -> Option<JsonRpcResponse>>(
    parse: F,
    payload: Seq<char>,
    message: Option<JsonRpcResponse>,
)
    ensures
        parse_gives(parse, payload, message) <==> exists|text: &str|
            text@ == payload && #[trigger] parse.ensures((text,), message),
{
}

} // verus!
