//! Streamable HTTP: every message to the server is a POST to one URL, whose
//! response is a JSON body or an event stream that carries the answer.

use serde_json::Value;
use vstd::prelude::*;
use vstd::string::*;

use crate::error::McpError;
use crate::protocol::{
    encode_notification, encode_request, opt_value_text, JsonRpcResponse, RequestIds,
};
use crate::sse::SseParser;
use crate::string_map::StringMap;
use crate::text::{lossy_text, lower_chars, starts_with, truncate_for_error};

verus! {

/// The header by which client and server name a session.
pub const SESSION_HEADER: &'static str = "mcp-session-id";

/// The header by which a client echoes the negotiated protocol revision.
pub const PROTOCOL_VERSION_HEADER: &'static str = "mcp-protocol-version";

/// How long a connection attempt may take, in seconds.
pub const CONNECT_TIMEOUT_SECS: u64 = 10;

/// How long closing a session may take, in seconds.
pub const CLOSE_TIMEOUT_SECS: u64 = 5;

/// The methods of the requests that a client sends.
#[derive(Debug, Clone, Copy, PartialEq, Eq, Structural)]
pub enum HttpMethod {
    Post,
    Delete,
}

/// A request to be sent as it stands.
#[derive(Debug)]
pub struct HttpRequest {
    pub method: HttpMethod,
    pub url: String,
    pub headers: Vec<(String, String)>,
    pub body: Option<String>,
}

/// The contents of a request.
#[verifier::ext_equal]
pub struct HttpRequestView {
    pub method: HttpMethod,
    pub url: Seq<char>,
    pub headers: Seq<(Seq<char>, Seq<char>)>,
    pub body: Option<Seq<char>>,
}

impl View for HttpRequest {
    type V = HttpRequestView;

    open spec fn view(&self) -> HttpRequestView {
        HttpRequestView {
            method: self.method,
            url: self.url@,
            headers: crate::string_map::pair_texts(self.headers@),
            body: crate::text::opt_text(self.body),
        }
    }
}

/// A request that was given an id, to which a response is expected.
#[derive(Debug)]
pub struct HttpCall {
    pub id: u64,
    pub request: HttpRequest,
}

/// What of the head of a response matters: its status, and two of its headers
/// as raw values.
#[derive(Debug)]
pub struct ResponseHead {
    pub status: u16,
    pub session_id: Option<Vec<u8>>,
    pub content_type: Option<Vec<u8>>,
}

/// What to do with the body of a response.
#[derive(Debug, Clone, Copy, PartialEq, Eq, Structural)]
pub enum ReplyKind {
    /// The request failed; the body says why.
    Rejected,
    /// The body is an event stream.
    EventStream,
    /// The body is one JSON-RPC response.
    Json,
}

/// What a transport remembers.
#[verifier::ext_equal]
pub struct HttpState {
    pub name: Seq<char>,
    pub url: Seq<char>,
    pub headers: Seq<(Seq<char>, Seq<char>)>,
    pub next_id: u64,
    pub session: Option<Seq<char>>,
    pub version: Option<Seq<char>>,
}

/// The header `name`, where it has a value.
pub open spec fn optional_header(name: Seq<char>, value: Option<Seq<char>>) -> Seq<
    (Seq<char>, Seq<char>),
> {
    match value {
        Some(text) => seq![(name, text)],
        None => Seq::empty(),
    }
}

impl HttpState {
    /// The headers of every POST: what is sent and accepted, the configured
    /// headers, the session, and the negotiated revision.
    pub open spec fn post_headers(self) -> Seq<(Seq<char>, Seq<char>)> {
        seq![
            ("content-type"@, "application/json"@),
            ("accept"@, "application/json, text/event-stream"@),
        ] + self.headers + optional_header(SESSION_HEADER@, self.session) + optional_header(
            PROTOCOL_VERSION_HEADER@,
            self.version,
        )
    }

    /// The POST that carries `body`.
    pub open spec fn post_of(self, body: Seq<char>) -> HttpRequestView {
        HttpRequestView {
            method: HttpMethod::Post,
            url: self.url,
            headers: self.post_headers(),
            body: Some(body),
        }
    }

    /// The DELETE that ends the session `session`.
    pub open spec fn delete_of(self, session: Seq<char>) -> HttpRequestView {
        HttpRequestView {
            method: HttpMethod::Delete,
            url: self.url,
            headers: seq![(SESSION_HEADER@, session)] + self.headers + optional_header(
                PROTOCOL_VERSION_HEADER@,
                self.version,
            ),
            body: None,
        }
    }

    /// How the status `status` with the body `body` is reported.
    pub open spec fn rejection(self, status: u16, body: Seq<char>) -> Seq<char> {
        "MCP HTTP server '"@ + self.name + "' returned "@ + status_text(status) + ": "@
            + crate::text::quoted_for_error(body)
    }

    /// Whether `response` is what the body `body` comes to as the answer to the
    /// request `id`, `parsed` being what parsing it gave.
    pub open spec fn extracted(
        self,
        id: u64,
        body: Seq<u8>,
        parsed: Result<JsonRpcResponse, String>,
        response: Result<JsonRpcResponse, McpError>,
    ) -> bool {
        match parsed {
            Ok(message) => if message.id == Some(id) {
                response == Ok::<JsonRpcResponse, McpError>(message)
            } else {
                &&& response is Err
                &&& response->Err_0 is OtherAnswer
                &&& response->Err_0.cause_text() is None
                &&& response->Err_0.text() == "MCP HTTP server '"@ + self.name
                    + "' returned a response that does not answer request "@
                    + crate::text::decimal(id as nat)
            },
            Err(cause) => {
                &&& response is Err
                &&& response->Err_0 is NotJsonRpc
                &&& response->Err_0.headline() == "MCP HTTP server '"@ + self.name
                    + "' returned a non-JSON-RPC body: "@ + crate::text::quoted_for_error(
                    crate::text::decoded(body),
                )
                &&& response->Err_0.cause_text() == Some(cause@)
                &&& response->Err_0.text() == crate::error::caused(
                    response->Err_0.headline(),
                    cause@,
                )
            },
        }
    }

    /// This state with one more id handed out.
    pub open spec fn with_id_taken(self) -> HttpState {
        HttpState { next_id: crate::protocol::next_id(self.next_id), ..self }
    }

    /// This state once the head `head` has come in: whatever session the
    /// response carries is the session from then on.
    pub open spec fn after_head(self, head: ResponseHead) -> HttpState {
        match head_text(head.session_id) {
            Some(session) => HttpState { session: Some(session), ..self },
            None => self,
        }
    }
}

/// Whether the status is one of success.
pub open spec fn success(status: u16) -> bool {
    200 <= status < 300
}

/// Whether every byte is a visible ASCII character, a space or a tab.
pub open spec fn is_header_text(value: Seq<u8>) -> bool {
    forall|i: int| 0 <= i < value.len() ==> 32 <= #[trigger] value[i] < 127 || value[i] == 9
}

/// The text of the ASCII bytes `value`.
pub open spec fn ascii_text(value: Seq<u8>) -> Seq<char> {
    value.map_values(|byte: u8| byte as char)
}

/// The text of a header, where it is present and is text.
pub open spec fn head_text(value: Option<Vec<u8>>) -> Option<Seq<char>> {
    match value {
        Some(bytes) => if is_header_text(bytes@) {
            Some(ascii_text(bytes@))
        } else {
            None
        },
        None => None,
    }
}

/// What to do with the body of the response with the head `head`.
pub open spec fn reply_kind(head: ResponseHead) -> ReplyKind {
    if !success(head.status) {
        ReplyKind::Rejected
    } else {
        match head_text(head.content_type) {
            Some(text) => if "text/event-stream"@.is_prefix_of(crate::text::lower(text)) {
                ReplyKind::EventStream
            } else {
                ReplyKind::Json
            },
            None => ReplyKind::Json,
        }
    }
}

/// The reason phrase that `reqwest::StatusCode` shows behind a code.
pub uninterp spec fn status_reason(status: u16) -> Seq<char>;

/// A status as it is shown: the code and a reason phrase.
pub open spec fn status_text(status: u16) -> Seq<char> {
    crate::text::decimal(status as nat) + " "@ + status_reason(status)
}

/// Shows a status code by the `Display` of `reqwest::StatusCode`. Trusted: it is
/// the code in decimal, a space, and a phrase that depends on the code alone.
#[verifier::external_body]
fn show_status(status: u16) -> (text: String)
    requires
        100 <= status < 1000,
    ensures
        text@ == crate::text::decimal(status as nat) + " "@ + status_reason(status),
{
    reqwest::StatusCode::from_u16(status).map(|code| code.to_string()).unwrap_or_default()
}

/// Calls `reqwest::header::HeaderValue::to_str` on the header value made of
/// `value`. Trusted: it gives text exactly where every byte is a visible ASCII
/// character, a space or a tab, and then that text.
#[verifier::external_body]
fn header_str(value: &[u8]) -> (text: Option<String>)
    ensures
        match text {
            Some(t) => is_header_text(value@) && t@ == ascii_text(value@),
            None => !is_header_text(value@),
        },
{
    let header = reqwest::header::HeaderValue::from_bytes(value).ok()?;
    header.to_str().ok().map(|text| text.to_string())
}

/// The text of a header, where it is present and is text.
fn read_header(value: &Option<Vec<u8>>) -> (text: Option<String>)
    ensures
        crate::text::opt_text(text) == head_text(*value),
{
    match value {
        Some(bytes) => header_str(bytes.as_slice()),
        None => None,
    }
}

/// The state of a connection to one streamable HTTP server. Each request is a
/// round trip of its own, tied to a session by a header.
pub struct HttpTransport {
    pub name: String,
    pub url: String,
    pub headers: StringMap,
    pub request_id: RequestIds,
    pub session_id: Option<String>,
    pub protocol_version: Option<String>,
}

impl View for HttpTransport {
    type V = HttpState;

    open spec fn view(&self) -> HttpState {
        HttpState {
            name: self.name@,
            url: self.url@,
            headers: self.headers.entries(),
            next_id: self.request_id.next,
            session: crate::text::opt_text(self.session_id),
            version: crate::text::opt_text(self.protocol_version),
        }
    }
}

impl HttpTransport {
    /// A transport that has sent nothing yet.
    pub fn new(name: String, url: String, headers: StringMap) -> (transport: Self)
        ensures
            transport@ == (HttpState {
                name: name@,
                url: url@,
                headers: headers.entries(),
                next_id: 1,
                session: None,
                version: None,
            }),
    {
        HttpTransport {
            name,
            url,
            headers,
            request_id: RequestIds::new(),
            session_id: None,
            protocol_version: None,
        }
    }

    /// Records the protocol revision negotiated by `initialize`, to be echoed
    /// on every request from then on.
    pub fn set_protocol_version(&mut self, version: &str)
        ensures
            final(self)@ == (HttpState { version: Some(version@), ..old(self)@ }),
    {
        self.protocol_version = Some(version.to_string());
    }

    /// The session that the server has assigned, if any.
    pub fn session_id(&self) -> (session: Option<String>)
        ensures
            crate::text::opt_text(session) == self@.session,
    {
        self.session_id.clone()
    }

    /// The POST that carries `body`.
    pub fn post(&self, body: String) -> (request: HttpRequest)
        ensures
            request@ == self@.post_of(body@),
    {
        let mut headers: Vec<(String, String)> = Vec::new();
        headers.push(("content-type".to_string(), "application/json".to_string()));
        headers.push(("accept".to_string(), "application/json, text/event-stream".to_string()));
        let mut configured = self.headers.pairs();
        headers.append(&mut configured);
        if let Some(session) = &self.session_id {
            headers.push((SESSION_HEADER.to_string(), session.clone()));
        }
        if let Some(version) = &self.protocol_version {
            headers.push((PROTOCOL_VERSION_HEADER.to_string(), version.clone()));
        }
        let request = HttpRequest {
            method: HttpMethod::Post,
            url: self.url.clone(),
            headers,
            body: Some(body),
        };
        assert(request@.headers =~= self@.post_headers());
        request
    }

    /// The request of `method`, under a new id.
    pub fn request(&mut self, method: &str, params: Option<Value>) -> (call: HttpCall)
        ensures
            call.id == old(self)@.next_id,
            call.request@ == old(self)@.post_of(
                crate::protocol::request_text(
                    old(self)@.next_id,
                    method@,
                    crate::protocol::opt_json(params),
                ),
            ),
            final(self)@ == old(self)@.with_id_taken(),
    {
        let json = opt_value_text(params);
        self.request_json(method, &json)
    }

    /// The request of `method`, under a new id; `params` is JSON.
    pub(crate) fn request_json(&mut self, method: &str, params: &Option<String>) -> (call: HttpCall)
        ensures
            call.id == old(self)@.next_id,
            call.request@ == old(self)@.post_of(
                crate::protocol::request_text(
                    old(self)@.next_id,
                    method@,
                    crate::text::opt_text(*params),
                ),
            ),
            final(self)@ == old(self)@.with_id_taken(),
    {
        let id: u64 = self.request_id.take();
        HttpCall { id, request: self.post(encode_request(id, method, params)) }
    }

    /// The notification of `method`.
    pub fn notify(&self, method: &str, params: Option<Value>) -> (request: HttpRequest)
        ensures
            request@ == self@.post_of(
                crate::protocol::notification_text(method@, crate::protocol::opt_json(params)),
            ),
    {
        let json = opt_value_text(params);
        self.post(encode_notification(method, &json))
    }

    /// The request that ends the session, if there is one to end.
    pub fn close(&self) -> (request: Option<HttpRequest>)
        ensures
            match request {
                Some(r) => self@.session is Some && r@ == self@.delete_of(self@.session->0),
                None => self@.session is None,
            },
    {
        let session = match self.session_id() {
            Some(session) => session,
            None => return None,
        };
        let mut headers: Vec<(String, String)> = Vec::new();
        headers.push((SESSION_HEADER.to_string(), session));
        let mut configured = self.headers.pairs();
        headers.append(&mut configured);
        if let Some(version) = &self.protocol_version {
            headers.push((PROTOCOL_VERSION_HEADER.to_string(), version.clone()));
        }
        let request = HttpRequest {
            method: HttpMethod::Delete,
            url: self.url.clone(),
            headers,
            body: None,
        };
        assert(request@.headers =~= self@.delete_of(self@.session->0).headers);
        Some(request)
    }

    /// Takes in the head of a response: keeps the session that it carries, and
    /// says what to do with the body.
    pub fn accept(&mut self, head: &ResponseHead) -> (kind: ReplyKind)
        ensures
            final(self)@ == old(self)@.after_head(*head),
            kind == reply_kind(*head),
    {
        if let Some(session) = read_header(&head.session_id) {
            self.session_id = Some(session);
        }
        if head.status < 200 || head.status >= 300 {
            return ReplyKind::Rejected;
        }
        match read_header(&head.content_type) {
            Some(content_type) => {
                let chars = lower_chars(content_type.as_str());
                if starts_with(&chars, "text/event-stream") {
                    ReplyKind::EventStream
                } else {
                    ReplyKind::Json
                }
            },
            None => ReplyKind::Json,
        }
    }

    /// The error of a request that got no response.
    pub fn send_failed(&self, cause: String) -> (error: McpError)
        ensures
            error is Unreached,
            error.headline() == "Failed to reach MCP HTTP server '"@ + self@.name + "' at "@
                + self@.url,
            error.cause_text() == Some(cause@),
            error.text() == crate::error::caused(error.headline(), cause@),
    {
        McpError::Unreached { server: self.name.clone(), url: self.url.clone(), cause }
    }

    /// The error of a response whose status is no success.
    pub fn rejected(&self, status: u16, body: &str) -> (error: McpError)
        requires
            100 <= status < 1000,
        ensures
            error is Status,
            error.cause_text() is None,
            error.text() == self@.rejection(status, body@),
    {
        McpError::Status {
            server: self.name.clone(),
            status: show_status(status),
            body: truncate_for_error(body),
        }
    }

    /// The error of a response whose body could not be read.
    pub fn body_failed(&self, cause: String) -> (error: McpError)
        ensures
            error is ReadBody,
            error.headline() == "Failed to read response body from MCP server '"@ + self@.name
                + "'"@,
            error.cause_text() == Some(cause@),
            error.text() == crate::error::caused(error.headline(), cause@),
    {
        McpError::ReadBody { server: self.name.clone(), cause }
    }

    /// The response to the request `id` in the JSON body `body`; `parse` makes a
    /// message of it.
    pub fn extract_response<F: Fn(&[u8]) -> Result<JsonRpcResponse, String>>(
        &self,
        id: u64,
        body: &[u8],
        parse: F,
    ) -> (response: Result<JsonRpcResponse, McpError>)
        requires
            parse.requires((body,)),
        ensures
            exists|parsed: Result<JsonRpcResponse, String>| #[trigger]
                parse.ensures((body,), parsed) && self@.extracted(id, body@, parsed, response),
            response is Ok ==> response->Ok_0.id == Some(id),
    {
        let parsed = parse(body);
        assert(parse.ensures((body,), parsed));
        self.parsed_response(id, body, parsed)
    }

    /// The response to the request `id` in the JSON body `body`, of which
    /// `parsed` is what parsing it gave. A response to another request, or to
    /// none, is an error.
    pub fn parsed_response(
        &self,
        id: u64,
        body: &[u8],
        parsed: Result<JsonRpcResponse, String>,
    ) -> (response: Result<JsonRpcResponse, McpError>)
        ensures
            self@.extracted(id, body@, parsed, response),
    {
        match parsed {
            Ok(message) => {
                let matching = match message.id {
                    Some(own) => own == id,
                    None => false,
                };
                if matching {
                    Ok(message)
                } else {
                    Err(McpError::OtherAnswer { server: self.name.clone(), id })
                }
            },
            Err(cause) => Err(
                McpError::NotJsonRpc {
                    server: self.name.clone(),
                    body: truncate_for_error(lossy_text(body).as_str()),
                    cause,
                },
            ),
        }
    }

    /// The error of an event stream that could not be read on.
    pub fn stream_failed(&self, cause: String) -> (error: McpError)
        ensures
            error is ReadStream,
            error.headline() == "Failed to read SSE stream from MCP server '"@ + self@.name + "'"@,
            error.cause_text() == Some(cause@),
            error.text() == crate::error::caused(error.headline(), cause@),
    {
        McpError::ReadStream { server: self.name.clone(), cause }
    }

    /// The error of an event stream that ended without the answer to `id`.
    pub fn stream_ended(&self, id: u64) -> (error: McpError)
        ensures
            error is StreamEnded,
            error.cause_text() is None,
            error.text() == "MCP HTTP server '"@ + self@.name
                + "' closed the SSE stream without answering request "@ + crate::text::decimal(
                id as nat,
            ),
    {
        McpError::StreamEnded { server: self.name.clone(), id }
    }
}

/// The first of `messages` that answers the request `id`; what could not be
/// parsed is `None`.
pub open spec fn first_answer(messages: Seq<Option<JsonRpcResponse>>, id: u64) -> Option<
    JsonRpcResponse,
>
    decreases messages.len(),
{
    if messages.len() == 0 {
        None
    } else {
        match messages[0] {
            Some(message) if message.answers(id) => Some(message),
            _ => first_answer(messages.drop_first(), id),
        }
    }
}

/// The first of `messages` that answers the request `id`. Notifications, the
/// server's own requests and what could not be parsed are skipped.
pub fn select_answer(messages: Vec<Option<JsonRpcResponse>>, id: u64) -> (answer: Option<
    JsonRpcResponse,
>)
    ensures
        answer == first_answer(messages@, id),
{
    let ghost all = messages@;
    let mut rest = messages;
    let n: usize = rest.len();
    let mut i: usize = 0;
    assert(all.skip(0) =~= all);
    while i < n
        invariant
            i <= n == rest.len(),
            rest@ == all,
            all == messages@,
            first_answer(all, id) == first_answer(all.skip(i as int), id),
        decreases n - i,
    {
        assert(all.skip(i as int).drop_first() =~= all.skip(i + 1));
        assert(all.skip(i as int)[0] == all[i as int]);
        let found = match &rest[i] {
            Some(message) => message.is_answer_to(id),
            None => false,
        };
        if found {
            assert(all[i as int] is Some && all[i as int]->0.answers(id));
            return rest.swap_remove(i);
        }
        i = i + 1;
    }
    None
}

/// Whether `messages` can be what `parse` makes of `payloads`, one by one.
pub open spec fn parsed_by<F: Fn(&str) -> Option<JsonRpcResponse>>(
    parse: F,
    payloads: Seq<Seq<char>>,
    messages: Seq<Option<JsonRpcResponse>>,
) -> bool {
    &&& payloads.len() == messages.len()
    &&& forall|i: int|
        0 <= i < messages.len() ==> #[trigger] crate::protocol::parse_gives(
            parse,
            payloads[i],
            messages[i],
        )
}

/// The wait for the answer to one request on an event stream.
pub struct SseExchange {
    pub parser: SseParser,
    pub id: u64,
}

impl SseExchange {
    /// The wait for the answer to the request `id`.
    pub fn new(id: u64) -> (exchange: Self)
        ensures
            exchange.id == id,
            exchange.parser@ == crate::sse::SseState::fresh(),
    {
        SseExchange { parser: SseParser::default(), id }
    }

    /// Reads a chunk of the stream and returns the answer, if an event that the
    /// chunk completes is the answer. `parse` makes a message of a payload.
    pub fn read_chunk<F: Fn(&str) -> Option<JsonRpcResponse>>(
        &mut self,
        chunk: &[u8],
        parse: F,
    ) -> (answer: Option<JsonRpcResponse>)
        requires
            forall|text: &str| #[trigger] parse.requires((text,)),
        ensures
            final(self).id == old(self).id,
            final(self).parser@ == old(self).parser@.read(chunk@).state,
            exists|messages: Seq<Option<JsonRpcResponse>>| #[trigger]
                parsed_by(parse, old(self).parser@.read(chunk@).events, messages) && answer
                    == first_answer(messages, old(self).id),
    {
        let payloads = self.parser.push(chunk);
        let mut messages: Vec<Option<JsonRpcResponse>> = Vec::new();
        let ghost events = crate::text::texts(payloads@);
        for i in 0..payloads.len()
            invariant
                events == crate::text::texts(payloads@),
                messages.len() == i,
                forall|text: &str| #[trigger] parse.requires((text,)),
                forall|j: int|
                    0 <= j < i ==> #[trigger] crate::protocol::parse_gives(
                        parse,
                        events[j],
                        messages@[j],
                    ),
        {
            let text = payloads[i].as_str();
            let message = parse(text);
            assert(text@ == events[i as int]);
            assert(crate::protocol::parse_gives(parse, events[i as int], message));
            messages.push(message);
        }
        assert(events == old(self).parser@.read(chunk@).events);
        assert(parsed_by(parse, old(self).parser@.read(chunk@).events, messages@));
        select_answer(messages, self.id)
    }
}

/// An answer is an answer to the request that was asked about.
pub proof fn law_answer_is_to_the_request(messages: Seq<Option<JsonRpcResponse>>, id: u64)
    ensures
        match first_answer(messages, id) {
            Some(message) => messages.contains(Some(message)) && message.answers(id),
            None => forall|i: int|
                0 <= i < messages.len() && (#[trigger] messages[i]) is Some
                    ==> !messages[i]->0.answers(id),
        },
    decreases messages.len(),
{
    if messages.len() > 0 {
        let rest = messages.drop_first();
        law_answer_is_to_the_request(rest, id);
        match first_answer(messages, id) {
            Some(message) => {
                if messages[0] != Some(message) {
                    let i = choose|i: int| 0 <= i < rest.len() && rest[i] == Some(message);
                    assert(messages[i + 1] == Some(message));
                }
            },
            None => {
                assert forall|i: int|
                    0 <= i < messages.len() && (#[trigger] messages[i]) is Some implies
                    !messages[i]->0.answers(id) by {
                    if i > 0 {
                        assert(rest[i - 1] == messages[i]);
                    }
                }
            },
        }
    }
}

/// On either way that a server may answer, with a JSON body or on an event
/// stream, what is returned carries the id of the request.
pub proof fn law_response_matches_the_request(
    state: HttpState,
    id: u64,
    body: Seq<u8>,
    parsed: Result<JsonRpcResponse, String>,
    response: Result<JsonRpcResponse, McpError>,
    messages: Seq<Option<JsonRpcResponse>>,
)
    requires
        state.extracted(id, body, parsed, response),
    ensures
        response is Ok ==> response->Ok_0.id == Some(id),
        first_answer(messages, id) is Some ==> first_answer(messages, id)->0.id == Some(id),
{
    law_answer_is_to_the_request(messages, id);
}

/// The answer does not depend on how the stream was cut: looking through `a`,
/// and through `b` only where `a` holds no answer, is looking through both.
pub proof fn law_answer_does_not_depend_on_chunks(
    a: Seq<Option<JsonRpcResponse>>,
    b: Seq<Option<JsonRpcResponse>>,
    id: u64,
)
    ensures
        first_answer(a + b, id) == match first_answer(a, id) {
            Some(message) => Some(message),
            None => first_answer(b, id),
        },
    decreases a.len(),
{
    if a.len() == 0 {
        assert(a + b =~= b);
    } else {
        law_answer_does_not_depend_on_chunks(a.drop_first(), b, id);
        assert((a + b).drop_first() =~= a.drop_first() + b);
        assert((a + b)[0] == a[0]);
    }
}

/// Nor does it on the raw stream: the messages on `a` and those on `b`, read
/// behind it, are together the messages on the whole, and the answer on `b`
/// counts only where `a` holds none.
pub proof fn law_stream_may_be_cut_anywhere<F: Fn(&str) -> Option<JsonRpcResponse>>(
    parse: F,
    state: crate::sse::SseState,
    a: Seq<u8>,
    b: Seq<u8>,
    on_a: Seq<Option<JsonRpcResponse>>,
    on_b: Seq<Option<JsonRpcResponse>>,
    id: u64,
)
    requires
        parsed_by(parse, state.read(a).events, on_a),
        parsed_by(parse, state.read(a).state.read(b).events, on_b),
    ensures
        parsed_by(parse, state.read(a + b).events, on_a + on_b),
        first_answer(on_a + on_b, id) == match first_answer(on_a, id) {
            Some(message) => Some(message),
            None => first_answer(on_b, id),
        },
{
    crate::sse::law_chunks_may_be_cut_anywhere(state, a, b);
    law_answer_does_not_depend_on_chunks(on_a, on_b, id);
    let payloads = state.read(a + b).events;
    let messages = on_a + on_b;
    assert forall|i: int| 0 <= i < messages.len() implies #[trigger] crate::protocol::parse_gives(
        parse,
        payloads[i],
        messages[i],
    ) by {
        if i < on_a.len() {
            assert(crate::protocol::parse_gives(parse, state.read(a).events[i], on_a[i]));
        } else {
            let j = i - on_a.len();
            assert(
                crate::protocol::parse_gives(
                    parse,
                    state.read(a).state.read(b).events[j],
                    on_b[j],
                )
            );
        }
    }
}

/// The answer is found, whatever notifications, requests of the server and
/// unreadable events come before it.
pub proof fn law_answer_is_found(
    before: Seq<Option<JsonRpcResponse>>,
    answer: JsonRpcResponse,
    after: Seq<Option<JsonRpcResponse>>,
    id: u64,
)
    requires
        answer.answers(id),
        forall|i: int|
            0 <= i < before.len() && (#[trigger] before[i]) is Some ==> !before[i]->0.answers(id),
    ensures
        first_answer(before + seq![Some(answer)] + after, id) == Some(answer),
{
    let one = seq![Some(answer)];
    law_answer_does_not_depend_on_chunks(before + one, after, id);
    law_answer_does_not_depend_on_chunks(before, one, id);
    law_answer_is_to_the_request(before, id);
    if first_answer(before, id) is Some {
        let i = choose|i: int| 0 <= i < before.len() && before[i] == first_answer(before, id);
        assert(before[i] is Some);
    }
}

/// A message that does not answer the request is skipped, wherever it stands.
pub proof fn law_other_messages_are_skipped(
    a: Seq<Option<JsonRpcResponse>>,
    other: Option<JsonRpcResponse>,
    b: Seq<Option<JsonRpcResponse>>,
    id: u64,
)
    requires
        other is Some ==> !other->0.answers(id),
    ensures
        first_answer(a + seq![other] + b, id) == first_answer(a + b, id),
{
    let one = seq![other];
    law_answer_does_not_depend_on_chunks(a, b, id);
    law_answer_does_not_depend_on_chunks(a + one, b, id);
    law_answer_does_not_depend_on_chunks(a, one, id);
    assert(one.drop_first() =~= Seq::empty());
    reveal_with_fuel(first_answer, 2);
}

/// The configured headers go with every request, the one that ends the session
/// included.
pub proof fn law_configured_headers_are_sent(state: HttpState, i: int, session: Seq<char>)
    requires
        0 <= i < state.headers.len(),
    ensures
        state.post_headers().contains(state.headers[i]),
        state.delete_of(session).headers.contains(state.headers[i]),
{
    assert(state.post_headers()[2 + i] == state.headers[i]);
    assert(state.delete_of(session).headers[1 + i] == state.headers[i]);
}

/// A session that the server has assigned is echoed on every later request,
/// whatever the status of the response that assigned it.
pub proof fn law_session_is_echoed(state: HttpState, head: ResponseHead)
    requires
        head_text(head.session_id) is Some,
    ensures
        state.after_head(head).post_headers().contains(
            (SESSION_HEADER@, head_text(head.session_id)->0),
        ),
        state.after_head(head).with_id_taken().post_headers() == state.after_head(
            head,
        ).post_headers(),
{
    let later = state.after_head(head);
    let n = 2 + later.headers.len();
    assert(later.post_headers()[n as int] == (SESSION_HEADER@, later.session->0));
    assert(later.with_id_taken().post_headers() =~= later.post_headers());
}

/// A response that carries no session leaves the session as it was.
pub proof fn law_session_is_kept(state: HttpState, head: ResponseHead)
    requires
        head_text(head.session_id) is None,
    ensures
        state.after_head(head) == state,
{
}

/// A negotiated revision is echoed on every later request, new sessions and
/// new ids notwithstanding, and on the one that ends the session.
pub proof fn law_version_is_echoed(
    state: HttpState,
    version: Seq<char>,
    head: ResponseHead,
    session: Seq<char>,
)
    requires
        state.version == Some(version),
    ensures
        state.post_headers().last() == (PROTOCOL_VERSION_HEADER@, version),
        state.delete_of(session).headers.last() == (PROTOCOL_VERSION_HEADER@, version),
        state.after_head(head).with_id_taken().version == Some(version),
{
    let headers = state.post_headers();
    assert(headers.last() == (PROTOCOL_VERSION_HEADER@, version));
}

/// One step of a transport: it makes a request, or takes in the head of a
/// response.
pub enum HttpStep {
    Request,
    Head(ResponseHead),
}

impl HttpState {
    /// This state once `steps` were made.
    pub open spec fn after_steps(self, steps: Seq<HttpStep>) -> HttpState
        decreases steps.len(),
    {
        if steps.len() == 0 {
            self
        } else {
            let before = self.after_steps(steps.drop_last());
            match steps.last() {
                HttpStep::Request => before.with_id_taken(),
                HttpStep::Head(head) => before.after_head(head),
            }
        }
    }
}

/// The session that the last response to carry one has assigned; `session` if
/// none of `steps` carries one.
pub open spec fn latest_session(session: Option<Seq<char>>, steps: Seq<HttpStep>) -> Option<
    Seq<char>,
>
    decreases steps.len(),
{
    if steps.len() == 0 {
        session
    } else {
        match steps.last() {
            HttpStep::Head(head) if head_text(head.session_id) is Some => head_text(
                head.session_id,
            ),
            _ => latest_session(session, steps.drop_last()),
        }
    }
}

/// However many requests and responses follow the handshake, every request, the
/// one that ends the session included, goes to the same URL and carries the
/// configured headers, the latest session and the negotiated revision. A POST
/// says besides what it sends and accepts.
pub proof fn law_every_later_request_carries_session_and_revision(
    state: HttpState,
    steps: Seq<HttpStep>,
)
    ensures
        state.after_steps(steps).url == state.url,
        state.after_steps(steps).post_headers() == seq![
            ("content-type"@, "application/json"@),
            ("accept"@, "application/json, text/event-stream"@),
        ] + state.headers + optional_header(SESSION_HEADER@, latest_session(state.session, steps))
            + optional_header(PROTOCOL_VERSION_HEADER@, state.version),
        latest_session(state.session, steps) is Some ==> ({
            let session = latest_session(state.session, steps)->0;
            let later = state.after_steps(steps);
            &&& later.session == Some(session)
            &&& later.delete_of(session) == (HttpRequestView {
                method: HttpMethod::Delete,
                url: state.url,
                headers: seq![(SESSION_HEADER@, session)] + state.headers + optional_header(
                    PROTOCOL_VERSION_HEADER@,
                    state.version,
                ),
                body: None,
            })
        }),
{
    lemma_after_steps(state, steps);
}

proof fn lemma_after_steps(state: HttpState, steps: Seq<HttpStep>)
    ensures
        state.after_steps(steps).url == state.url,
        state.after_steps(steps).headers == state.headers,
        state.after_steps(steps).version == state.version,
        state.after_steps(steps).session == latest_session(state.session, steps),
    decreases steps.len(),
{
    if steps.len() > 0 {
        lemma_after_steps(state, steps.drop_last());
    }
}

/// Before a server has assigned a session and a revision was negotiated, a
/// request carries neither.
pub proof fn law_fresh_transport_sends_no_session(state: HttpState)
    requires
        state.session is None,
        state.version is None,
    ensures
        state.post_headers() == seq![
            ("content-type"@, "application/json"@),
            ("accept"@, "application/json, text/event-stream"@),
        ] + state.headers,
{
    assert(state.post_headers() =~= seq![
        ("content-type"@, "application/json"@),
        ("accept"@, "application/json, text/event-stream"@),
    ] + state.headers);
}

/// The report of a failing status names the server and the status code.
pub proof fn law_rejection_names_server_and_status(state: HttpState, status: u16, body: Seq<char>)
    ensures
        ("MCP HTTP server '"@ + state.name + "' returned "@ + crate::text::decimal(
            status as nat,
        )).is_prefix_of(state.rejection(status, body)),
{
    let start = "MCP HTTP server '"@ + state.name + "' returned "@ + crate::text::decimal(
        status as nat,
    );
    let whole = state.rejection(status, body);
    assert(start =~= whole.subrange(0, start.len() as int));
}

/// The status and the content type decide how a response is read. A status that
/// is not from 200 to 299 is a rejection. Of the others, a response is an event
/// stream exactly if its content type is text that begins with
/// `text/event-stream`, in any case of the letters.
pub proof fn law_content_type_tells_an_event_stream(head: ResponseHead)
    ensures
        reply_kind(head) is Rejected <==> head.status < 200 || head.status >= 300,
        200 <= head.status < 300 ==> (reply_kind(head) is EventStream <==> {
            &&& head.content_type matches Some(bytes)
            &&& forall|i: int|
                0 <= i < bytes@.len() ==> 32 <= #[trigger] bytes@[i] <= 126 || bytes@[i] == 9
            &&& bytes@.len() >= 17
            &&& crate::text::alike(
                Seq::new(17, |i: int| bytes@[i] as char),
                "text/event-stream"@,
            )
        }),
{
    reveal_strlit("text/event-stream");
    let wanted = "text/event-stream"@;
    if head.content_type is Some && is_header_text(head.content_type->0@) {
        let bytes = head.content_type->0@;
        let text = ascii_text(bytes);
        let folded = crate::text::lower(text);
        if bytes.len() >= 17 {
            let start = Seq::new(17, |i: int| bytes[i] as char);
            assert(folded.subrange(0, 17) =~= crate::text::lower(start));
            crate::text::law_lower_case_is_shared_by_texts_alike(start, wanted);
        }
    }
}

/// A successful response whose content type begins with `application/json` is
/// read as one JSON-RPC response, whatever parameters follow; so is one without
/// a content type.
pub proof fn law_json_is_no_event_stream(head: ResponseHead)
    requires
        200 <= head.status < 300,
        head.content_type matches Some(bytes) ==> bytes@.len() >= 16 && (forall|i: int|
            0 <= i < 16 ==> #[trigger] bytes@[i] as char == "application/json"@[i]),
    ensures
        reply_kind(head) is Json,
{
    reveal_strlit("application/json");
    reveal_strlit("text/event-stream");
    law_content_type_tells_an_event_stream(head);
    if head.content_type is Some {
        let bytes = head.content_type->0@;
        assert(bytes[0] as char == 'a');
        if bytes.len() >= 17 {
            let start = Seq::new(17, |i: int| bytes[i] as char);
            assert(start[0] == 'a');
            assert("text/event-stream"@[0] == 't');
            assert(!crate::text::alike(start, "text/event-stream"@));
        }
    }
}

/// A session that a response carries as text is taken character by character,
/// whatever the status; any other response, and everything else in the state, is
/// left alone.
pub proof fn law_session_is_taken_as_it_came(state: HttpState, head: ResponseHead)
    ensures
        match head.session_id {
            Some(bytes) => if forall|i: int|
                0 <= i < bytes@.len() ==> 32 <= #[trigger] bytes@[i] <= 126 || bytes@[i] == 9 {
                &&& state.after_head(head).session matches Some(session)
                &&& session.len() == bytes@.len()
                &&& forall|i: int|
                    0 <= i < session.len() ==> #[trigger] session[i] as int == bytes@[i] as int
            } else {
                state.after_head(head).session == state.session
            },
            None => state.after_head(head).session == state.session,
        },
        state.after_head(head).name == state.name,
        state.after_head(head).url == state.url,
        state.after_head(head).headers == state.headers,
        state.after_head(head).next_id == state.next_id,
        state.after_head(head).version == state.version,
{
}

/// A message is sent by a POST to the server's URL, with the message as its body
/// and with nothing but the headers that say what is sent and accepted, the
/// configured ones, and the session and the revision where they are known.
pub proof fn law_post_carries_message_and_headers(
    state: HttpState,
    body: Seq<char>,
    session: Seq<char>,
    version: Seq<char>,
)
    ensures
        ({
            let post = state.post_of(body);
            let fixed = seq![
                ("content-type"@, "application/json"@),
                ("accept"@, "application/json, text/event-stream"@),
            ];
            &&& post.method == HttpMethod::Post
            &&& post.url == state.url
            &&& post.body == Some(body)
            &&& state.session is None && state.version is None ==> post.headers == fixed
                + state.headers
            &&& state.session == Some(session) && state.version is None ==> post.headers == (fixed
                + state.headers).push(("mcp-session-id"@, session))
            &&& state.session is None && state.version == Some(version) ==> post.headers == (fixed
                + state.headers).push(("mcp-protocol-version"@, version))
            &&& state.session == Some(session) && state.version == Some(version) ==> post.headers
                == (fixed + state.headers).push(("mcp-session-id"@, session)).push(
                ("mcp-protocol-version"@, version),
            )
        }),
{
    let fixed = seq![
        ("content-type"@, "application/json"@),
        ("accept"@, "application/json, text/event-stream"@),
    ];
    let headers = state.post_headers();
    if state.session is None && state.version is None {
        assert(headers =~= fixed + state.headers);
    }
    if state.session == Some(session) && state.version is None {
        assert(headers =~= (fixed + state.headers).push(("mcp-session-id"@, session)));
    }
    if state.session is None && state.version == Some(version) {
        assert(headers =~= (fixed + state.headers).push(("mcp-protocol-version"@, version)));
    }
    if state.session == Some(session) && state.version == Some(version) {
        assert(headers =~= (fixed + state.headers).push(("mcp-session-id"@, session)).push(
            ("mcp-protocol-version"@, version),
        ));
    }
}

/// A session is ended by a DELETE to the server's URL, without a body, that names
/// the session and carries the configured headers and the revision, if known.
pub proof fn law_delete_names_the_session(
    state: HttpState,
    session: Seq<char>,
    version: Seq<char>,
)
    ensures
        ({
            let delete = state.delete_of(session);
            let named = seq![("mcp-session-id"@, session)] + state.headers;
            &&& delete.method == HttpMethod::Delete
            &&& delete.url == state.url
            &&& delete.body is None
            &&& state.version is None ==> delete.headers == named
            &&& state.version == Some(version) ==> delete.headers == named.push(
                ("mcp-protocol-version"@, version),
            )
        }),
{
    let named = seq![("mcp-session-id"@, session)] + state.headers;
    let headers = state.delete_of(session).headers;
    if state.version is None {
        assert(headers =~= named);
    }
    if state.version == Some(version) {
        assert(headers =~= named.push(("mcp-protocol-version"@, version)));
    }
}

/// A rejection is told by the server's name, the status and the body: the body
/// whole up to 300 characters, and else its first 300 and an ellipsis.
pub proof fn law_rejection_quotes_the_body(state: HttpState, status: u16, body: Seq<char>)
    ensures
        body.len() <= 300 ==> state.rejection(status, body) == "MCP HTTP server '"@ + state.name
            + "' returned "@ + crate::text::decimal(status as nat) + " "@ + status_reason(status)
            + ": "@ + body,
        body.len() > 300 ==> state.rejection(status, body) == "MCP HTTP server '"@ + state.name
            + "' returned "@ + crate::text::decimal(status as nat) + " "@ + status_reason(status)
            + ": "@ + body.take(300).push('\u{2026}'),
{
    let shown = if body.len() <= 300 {
        body
    } else {
        body.take(300).push('\u{2026}')
    };
    assert(state.rejection(status, body) =~= "MCP HTTP server '"@ + state.name + "' returned "@
        + crate::text::decimal(status as nat) + " "@ + status_reason(status) + ": "@ + shown);
}

/// Of a JSON body exactly the response that carries the id of the request is
/// accepted, and it is returned as it was parsed. A body that could not be parsed
/// is an error whose cause is that of the parser.
pub proof fn law_json_body_is_accepted_for_its_id(
    state: HttpState,
    id: u64,
    body: Seq<u8>,
    parsed: Result<JsonRpcResponse, String>,
    response: Result<JsonRpcResponse, McpError>,
)
    requires
        state.extracted(id, body, parsed, response),
    ensures
        response is Ok <==> parsed is Ok && parsed->Ok_0.id == Some(id),
        response is Ok ==> response->Ok_0 == parsed->Ok_0,
        parsed is Ok && response is Err ==> response->Err_0 is OtherAnswer,
        parsed is Err ==> response->Err_0 is NotJsonRpc && response->Err_0.cause_text() == Some(
            parsed->Err_0@,
        ),
{
}

/// The answer is the first message that carries the id of the request and a
/// result or an error.
pub proof fn law_first_answer_counts(
    messages: Seq<Option<JsonRpcResponse>>,
    id: u64,
    at: int,
)
    requires
        0 <= at < messages.len(),
        messages[at] is Some,
        messages[at]->0.id == Some(id),
        messages[at]->0.result is Some || messages[at]->0.error is Some,
        forall|i: int|
            0 <= i < at && (#[trigger] messages[i]) is Some ==> messages[i]->0.id != Some(id) || (
            messages[i]->0.result is None && messages[i]->0.error is None),
    ensures
        first_answer(messages, id) == messages[at],
{
    let before = messages.take(at);
    let after = messages.skip(at + 1);
    assert forall|i: int| 0 <= i < before.len() && (#[trigger] before[i]) is Some implies
        !before[i]->0.answers(id) by {
        assert(before[i] == messages[i]);
    }
    law_answer_is_found(before, messages[at]->0, after, id);
    assert(before + seq![Some(messages[at]->0)] + after =~= messages);
}

/// Without a message that carries the id of the request and a result or an
/// error there is no answer.
pub proof fn law_nothing_else_is_an_answer(messages: Seq<Option<JsonRpcResponse>>, id: u64)
    requires
        forall|i: int|
            0 <= i < messages.len() && (#[trigger] messages[i]) is Some ==> messages[i]->0.id != Some(
                id,
            ) || (messages[i]->0.result is None && messages[i]->0.error is None),
    ensures
        first_answer(messages, id) is None,
{
    law_answer_is_to_the_request(messages, id);
    if first_answer(messages, id) is Some {
        let message = first_answer(messages, id)->0;
        let i = choose|i: int| 0 <= i < messages.len() && messages[i] == Some(message);
        assert(messages[i] is Some);
    }
}

/// Every event is parsed, each by itself and in order.
pub proof fn law_every_event_is_parsed<F: Fn(&str) -> Option<JsonRpcResponse>>(
    parse: F,
    payloads: Seq<Seq<char>>,
    messages: Seq<Option<JsonRpcResponse>>,
    i: int,
)
    requires
        parsed_by(parse, payloads, messages),
        0 <= i < payloads.len(),
    ensures
        messages.len() == payloads.len(),
        exists|text: &str| text@ == payloads[i] && #[trigger] parse.ensures((text,), messages[i]),
{
    assert(crate::protocol::parse_gives(parse, payloads[i], messages[i]));
}

/// A request and a transport are seen by their own fields.
pub proof fn law_transport_is_seen_as_it_is(request: HttpRequest, transport: HttpTransport)
    ensures
        request@.method == request.method,
        request@.url == request.url@,
        request@.headers.len() == request.headers@.len(),
        forall|i: int|
            0 <= i < request.headers@.len() ==> #[trigger] request@.headers[i] == (
                request.headers@[i].0@,
                request.headers@[i].1@,
            ),
        request.body is None ==> request@.body is None,
        request.body matches Some(body) ==> request@.body == Some(body@),
        transport@.name == transport.name@,
        transport@.url == transport.url@,
        transport@.headers == transport.headers.entries(),
        transport@.next_id == transport.request_id.next,
        transport.session_id is None ==> transport@.session is None,
        transport.session_id matches Some(session) ==> transport@.session == Some(session@),
        transport.protocol_version is None ==> transport@.version is None,
        transport.protocol_version matches Some(version) ==> transport@.version == Some(version@),
{
}

} // verus!
