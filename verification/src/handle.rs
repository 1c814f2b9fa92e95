//! The communication half of a connection: requests, notifications and what
//! the server has told, whichever transport carries them.

use serde_json::Value;
use vstd::prelude::*;
use vstd::string::*;

use crate::error::McpError;
use crate::http::{HttpCall, HttpRequest, HttpTransport};
use crate::protocol::{
    encode_initialize_params, encode_notification, encode_request, encode_tool_call_params,
    opt_value_text, InitializeResult, JsonRpcResponse, McpToolDef, RequestIds, ServerCapabilities,
    ServerInfo, HTTP_PROTOCOL_VERSION, STDIO_PROTOCOL_VERSION,
};

verus! {

/// How long an answer may take, in seconds.
pub const REQUEST_TIMEOUT_SECS: u64 = 30;

/// A message to be sent: a line to the child process, or a request over HTTP.
#[derive(Debug)]
pub enum Outgoing {
    Line(String),
    Post(HttpRequest),
}

/// The contents of a message to be sent.
#[verifier::ext_equal]
pub enum OutgoingView {
    Line(Seq<char>),
    Post(crate::http::HttpRequestView),
}

impl OutgoingView {
    /// Whether this message, where it is sent as a line, is one line: it ends
    /// with its only line feed.
    pub open spec fn one_line(self) -> bool {
        match self {
            OutgoingView::Line(line) => {
                &&& line.len() > 0
                &&& line.last() == '\n'
                &&& !line.drop_last().contains('\n')
            },
            OutgoingView::Post(_) => true,
        }
    }
}

impl View for Outgoing {
    type V = OutgoingView;

    open spec fn view(&self) -> OutgoingView {
        match self {
            Outgoing::Line(line) => OutgoingView::Line(line@),
            Outgoing::Post(request) => OutgoingView::Post(request@),
        }
    }
}

/// A request to be sent, and the id by which its answer is known.
#[derive(Debug)]
pub struct Call {
    pub id: u64,
    pub outgoing: Outgoing,
}

/// The contents of a request to be sent.
#[verifier::ext_equal]
pub struct CallView {
    pub id: u64,
    pub outgoing: OutgoingView,
}

impl View for Call {
    type V = CallView;

    open spec fn view(&self) -> CallView {
        CallView { id: self.id, outgoing: self.outgoing@ }
    }
}

/// The transport-specific half of a connection.
pub enum HandleTransport {
    Stdio(RequestIds),
    Http(HttpTransport),
}

/// What a transport remembers.
#[verifier::ext_equal]
pub enum TransportState {
    Stdio { next_id: u64 },
    Http(crate::http::HttpState),
}

impl View for HandleTransport {
    type V = TransportState;

    open spec fn view(&self) -> TransportState {
        match self {
            HandleTransport::Stdio(ids) => TransportState::Stdio { next_id: ids.next },
            HandleTransport::Http(http) => TransportState::Http(http@),
        }
    }
}

impl TransportState {
    /// The id of the next request.
    pub open spec fn next_id(self) -> u64 {
        match self {
            TransportState::Stdio { next_id } => next_id,
            TransportState::Http(http) => http.next_id,
        }
    }

    /// This state with one more id handed out.
    pub open spec fn with_id_taken(self) -> TransportState {
        match self {
            TransportState::Stdio { next_id } => TransportState::Stdio {
                next_id: crate::protocol::next_id(next_id),
            },
            TransportState::Http(http) => TransportState::Http(http.with_id_taken()),
        }
    }

    /// This state once the revision `version` was negotiated: over HTTP it is
    /// remembered.
    pub open spec fn with_version(self, version: Seq<char>) -> TransportState {
        match self {
            TransportState::Stdio { next_id } => self,
            TransportState::Http(http) => TransportState::Http(
                crate::http::HttpState { version: Some(version), ..http },
            ),
        }
    }

    /// How the transport carries the message `text`.
    pub open spec fn carrying(self, text: Seq<char>) -> OutgoingView {
        match self {
            TransportState::Stdio { next_id } => OutgoingView::Line(text + "\n"@),
            TransportState::Http(http) => OutgoingView::Post(http.post_of(text)),
        }
    }

    /// The protocol revision that a client asks for over this transport.
    pub open spec fn requested_version(self) -> Seq<char> {
        match self {
            TransportState::Stdio { next_id } => STDIO_PROTOCOL_VERSION@,
            TransportState::Http(http) => HTTP_PROTOCOL_VERSION@,
        }
    }
}

/// What a connection knows.
#[verifier::ext_equal]
pub struct HandleState {
    pub name: Seq<char>,
    pub transport: TransportState,
    pub server_info: Option<ServerInfo>,
    pub capabilities: ServerCapabilities,
    pub tools: Seq<McpToolDef>,
    /// Whether a request has failed.
    pub failed: bool,
}

impl HandleState {
    /// A connection over which nothing was said yet.
    pub open spec fn fresh(name: Seq<char>, transport: TransportState) -> HandleState {
        HandleState {
            name,
            transport,
            server_info: None,
            capabilities: ServerCapabilities { tools: None, resources: None, prompts: None },
            tools: Seq::empty(),
            failed: false,
        }
    }

    /// The request of `method`; `params` is JSON.
    pub open spec fn call_of(self, method: Seq<char>, params: Option<Seq<char>>) -> CallView {
        CallView {
            id: self.transport.next_id(),
            outgoing: self.transport.carrying(
                crate::protocol::request_text(self.transport.next_id(), method, params),
            ),
        }
    }

    /// This state once a request was made.
    pub open spec fn after_call(self) -> HandleState {
        HandleState { transport: self.transport.with_id_taken(), ..self }
    }

    /// This state once `initialize` was answered with `result`.
    pub open spec fn after_initialize(self, result: Option<InitializeResult>) -> HandleState {
        match result {
            Some(r) => HandleState {
                transport: self.transport.with_version(r.protocol_version@),
                server_info: r.server_info,
                capabilities: r.capabilities,
                ..self
            },
            None => self,
        }
    }

    /// This state once `tools/list` was answered with `tools`.
    pub open spec fn after_listing(self, tools: Option<Vec<McpToolDef>>) -> HandleState {
        match tools {
            Some(list) => HandleState { tools: list@, ..self },
            None => self,
        }
    }
}

/// What became of a request that was made.
#[derive(Debug)]
pub enum Outcome {
    /// The response with the id of the request came in.
    Answered(JsonRpcResponse),
    /// The request could not be handed to the child process.
    NotSent { cause: String },
    /// No response came in time.
    TimedOut { cause: String },
    /// The connection ended before a response came.
    Dropped { cause: String },
    /// The HTTP exchange failed.
    Failed(McpError),
}

/// Whether `read` is what a response with the result `value` comes to: nothing
/// without one, and else what `parse` makes of it.
pub open spec fn result_read<T, F: Fn(Value) -> Result<T, String>>(
    parse: F,
    value: Option<Value>,
    read: Result<Option<T>, McpError>,
) -> bool {
    match value {
        None => read == Ok::<Option<T>, McpError>(None),
        Some(v) => exists|parsed: Result<T, String>| #[trigger]
            parse.ensures((v,), parsed) && match parsed {
                Ok(result) => read == Ok::<Option<T>, McpError>(Some(result)),
                Err(cause) => read == Err::<Option<T>, McpError>(McpError::Other { cause }),
            },
    }
}

/// Reads the result of a response, if it has one. `parse` makes a `T` of a
/// result.
pub fn read_result<T, F: Fn(Value) -> Result<T, String>>(
    response: JsonRpcResponse,
    parse: F,
) -> (read: Result<Option<T>, McpError>)
    requires
        forall|value: Value| #[trigger] parse.requires((value,)),
    ensures
        result_read(parse, response.result, read),
{
    match response.result {
        Some(value) => {
            let parsed = parse(value);
            assert(parse.ensures((value,), parsed));
            match parsed {
                Ok(result) => Ok(Some(result)),
                Err(cause) => Err(McpError::Other { cause }),
            }
        },
        None => Ok(None),
    }
}

/// The communication half of a connection.
pub struct McpHandle {
    pub name: String,
    pub transport: HandleTransport,
    pub server_info: Option<ServerInfo>,
    pub capabilities: ServerCapabilities,
    pub tools: Vec<McpToolDef>,
    /// Whether a request has failed.
    pub failed: bool,
}

impl View for McpHandle {
    type V = HandleState;

    open spec fn view(&self) -> HandleState {
        HandleState {
            name: self.name@,
            transport: self.transport@,
            server_info: self.server_info,
            capabilities: self.capabilities,
            tools: self.tools@,
            failed: self.failed,
        }
    }
}

impl McpHandle {
    /// A connection over which nothing was said yet.
    pub fn new(name: String, transport: HandleTransport) -> (handle: Self)
        ensures
            handle@ == HandleState::fresh(name@, transport@),
    {
        McpHandle {
            name,
            transport,
            server_info: None,
            capabilities: ServerCapabilities::default(),
            tools: Vec::new(),
            failed: false,
        }
    }

    /// Makes the request of `method`.
    pub fn request(&mut self, method: &str, params: Option<Value>) -> (call: Call)
        ensures
            call@ == old(self)@.call_of(method@, crate::protocol::opt_json(params)),
            call@.outgoing.one_line(),
            final(self)@ == old(self)@.after_call(),
    {
        let json = opt_value_text(params);
        self.request_json(method, &json)
    }

    /// Makes the request of `method`; `params` is JSON, on one line.
    fn request_json(&mut self, method: &str, params: &Option<String>) -> (call: Call)
        requires
            params is Some ==> !params->0@.contains('\n'),
        ensures
            call@ == old(self)@.call_of(method@, crate::text::opt_text(*params)),
            call@.outgoing.one_line(),
            final(self)@ == old(self)@.after_call(),
    {
        match &mut self.transport {
            HandleTransport::Stdio(ids) => {
                let id: u64 = ids.take();
                let line = encode_request(id, method, params).concat("\n");
                proof {
                    law_line_ends_the_message(0, id, method@, crate::text::opt_text(*params));
                }
                Call { id, outgoing: Outgoing::Line(line) }
            },
            HandleTransport::Http(http) => {
                let call: HttpCall = http.request_json(method, params);
                Call { id: call.id, outgoing: Outgoing::Post(call.request) }
            },
        }
    }

    /// The notification of `method`.
    pub fn notify(&self, method: &str, params: Option<Value>) -> (outgoing: Outgoing)
        ensures
            outgoing@ == self@.transport.carrying(
                crate::protocol::notification_text(method@, crate::protocol::opt_json(params)),
            ),
            outgoing@.one_line(),
    {
        match &self.transport {
            HandleTransport::Stdio(_) => {
                let json = opt_value_text(params);
                proof {
                    law_line_ends_the_message(0, 0, method@, crate::text::opt_text(json));
                }
                Outgoing::Line(encode_notification(method, &json).concat("\n"))
            },
            HandleTransport::Http(http) => Outgoing::Post(http.notify(method, params)),
        }
    }

    /// What a request comes to: the response, unless none came or the server
    /// answered with an error. A request that failed is remembered.
    pub fn settle(&mut self, outcome: Outcome) -> (settled: Result<JsonRpcResponse, McpError>)
        ensures
            final(self)@ == (HandleState {
                failed: old(self)@.failed || settled is Err,
                ..old(self)@
            }),
            match outcome {
                Outcome::Answered(response) => match response.error {
                    Some(error) => settled matches Err(McpError::Server { code, message }) && code
                        == error.code && message@ == error.message@,
                    None => settled == Ok::<JsonRpcResponse, McpError>(response),
                },
                Outcome::NotSent { cause } => settled == Err::<JsonRpcResponse, McpError>(
                    McpError::SendRequest { cause },
                ),
                Outcome::TimedOut { cause } => settled == Err::<JsonRpcResponse, McpError>(
                    McpError::Timeout { cause },
                ),
                Outcome::Dropped { cause } => settled == Err::<JsonRpcResponse, McpError>(
                    McpError::ChannelClosed { cause },
                ),
                Outcome::Failed(error) => settled == Err::<JsonRpcResponse, McpError>(error),
            },
    {
        let settled = match outcome {
            Outcome::Answered(response) => match &response.error {
                Some(error) => Err(
                    McpError::Server { code: error.code, message: error.message.clone() },
                ),
                None => Ok(response),
            },
            Outcome::NotSent { cause } => Err(McpError::SendRequest { cause }),
            Outcome::TimedOut { cause } => Err(McpError::Timeout { cause }),
            Outcome::Dropped { cause } => Err(McpError::ChannelClosed { cause }),
            Outcome::Failed(error) => Err(error),
        };
        if settled.is_err() {
            self.failed = true;
        }
        settled
    }

    /// Calls the tool `name`; null stands for no arguments.
    pub fn call_tool(&mut self, name: &str, arguments: Value) -> (call: Call)
        ensures
            call@ == old(self)@.call_of(
                "tools/call"@,
                Some(
                    crate::protocol::tool_call_params(
                        name@,
                        crate::protocol::value_json(arguments),
                    ),
                ),
            ),
            call@.outgoing.one_line(),
            final(self)@ == old(self)@.after_call(),
    {
        let params = encode_tool_call_params(name, &arguments);
        self.request_json("tools/call", &Some(params))
    }

    /// The result of a tool call, out of the response to it.
    pub fn tool_result(response: JsonRpcResponse) -> (result: Result<Value, McpError>)
        ensures
            match response.result {
                Some(value) => result == Ok::<Value, McpError>(value),
                None => result == Err::<Value, McpError>(McpError::NoToolResult),
            },
    {
        match response.result {
            Some(value) => Ok(value),
            None => Err(McpError::NoToolResult),
        }
    }

    /// The name of the server.
    pub fn name(&self) -> (name: &str)
        ensures
            name@ == self@.name,
    {
        self.name.as_str()
    }

    /// How the server has introduced itself, if it has.
    pub fn server_info(&self) -> (info: Option<&ServerInfo>)
        ensures
            match info {
                Some(i) => self@.server_info == Some(*i),
                None => self@.server_info is None,
            },
    {
        self.server_info.as_ref()
    }

    /// The tools that the server offers, as last listed.
    pub fn tools(&self) -> (tools: &Vec<McpToolDef>)
        ensures
            tools@ == self@.tools,
    {
        &self.tools
    }

    /// Asks for the tools that the server offers.
    pub fn refresh_tools(&mut self) -> (call: Call)
        ensures
            call@ == old(self)@.call_of("tools/list"@, None),
            call@.outgoing.one_line(),
            final(self)@ == old(self)@.after_call(),
    {
        self.request("tools/list", None)
    }

    /// Takes in the tools that the server has listed; a response without a
    /// result changes nothing.
    pub fn tools_listed(&mut self, tools: Option<Vec<McpToolDef>>)
        ensures
            final(self)@ == old(self)@.after_listing(tools),
    {
        if let Some(list) = tools {
            self.tools = list;
        }
    }

    /// Asks the server to initialize, by the revision that goes with the
    /// transport.
    pub fn initialize(&mut self, client_version: &str) -> (call: Call)
        ensures
            call@ == old(self)@.call_of(
                "initialize"@,
                Some(
                    crate::protocol::initialize_params(
                        old(self)@.transport.requested_version(),
                        client_version@,
                    ),
                ),
            ),
            call@.outgoing.one_line(),
            final(self)@ == old(self)@.after_call(),
    {
        let requested = match &self.transport {
            HandleTransport::Stdio(_) => STDIO_PROTOCOL_VERSION,
            HandleTransport::Http(_) => HTTP_PROTOCOL_VERSION,
        };
        let params = encode_initialize_params(requested, client_version);
        self.request_json("initialize", &Some(params))
    }

    /// Takes in the result of `initialize`; a response without a result changes
    /// nothing.
    pub fn initialized(&mut self, result: Option<InitializeResult>)
        ensures
            final(self)@ == old(self)@.after_initialize(result),
    {
        if let Some(r) = result {
            match &mut self.transport {
                HandleTransport::Stdio(_) => {},
                HandleTransport::Http(http) => {
                    http.set_protocol_version(r.protocol_version.as_str());
                },
            }
            self.server_info = r.server_info;
            self.capabilities = r.capabilities;
        }
    }
}

/// Over standard streams a message is one line: it ends with its only line
/// feed.
pub proof fn law_line_ends_the_message(
    next_id: u64,
    id: u64,
    method: Seq<char>,
    params: Option<Seq<char>>,
)
    requires
        params is Some ==> !params->0.contains('\n'),
    ensures
        (TransportState::Stdio { next_id }).carrying(
            crate::protocol::request_text(id, method, params),
        ).one_line(),
        (TransportState::Stdio { next_id }).carrying(
            crate::protocol::notification_text(method, params),
        ).one_line(),
{
    crate::protocol::law_message_is_one_line(id, method, params);
    reveal_strlit("\n");
    let request = crate::protocol::request_text(id, method, params);
    let notification = crate::protocol::notification_text(method, params);
    assert((request + "\n"@).drop_last() =~= request);
    assert((notification + "\n"@).drop_last() =~= notification);
}

impl HandleState {
    /// This state once `n` requests were made.
    pub open spec fn after_calls(self, n: nat) -> HandleState
        decreases n,
    {
        if n == 0 {
            self
        } else {
            self.after_calls((n - 1) as nat).after_call()
        }
    }
}

/// Requests of one connection are told apart by their ids: of any two, fewer
/// than 2^64 requests apart, the ids differ.
pub proof fn law_requests_have_different_ids(
    state: HandleState,
    i: nat,
    j: nat,
    method_i: Seq<char>,
    method_j: Seq<char>,
    params_i: Option<Seq<char>>,
    params_j: Option<Seq<char>>,
)
    requires
        i < j <= i + u64::MAX,
    ensures
        state.after_calls(i).call_of(method_i, params_i).id != state.after_calls(j).call_of(
            method_j,
            params_j,
        ).id,
{
    lemma_id_after_calls(state, i);
    lemma_id_after_calls(state, j);
    crate::protocol::law_ids_do_not_repeat(state.transport.next_id(), i, j);
}

proof fn lemma_id_after_calls(state: HandleState, n: nat)
    ensures
        state.after_calls(n).transport.next_id() == crate::protocol::id_after(
            state.transport.next_id(),
            n,
        ),
    decreases n,
{
    if n > 0 {
        lemma_id_after_calls(state, (n - 1) as nat);
    }
}

/// One step of a connection: it makes a request, a request comes to an end, the
/// server tells something, or the transport takes in a response.
pub enum HandleStep {
    Request,
    Settled { ok: bool },
    Initialized(Option<InitializeResult>),
    Listed(Option<Vec<McpToolDef>>),
    Received(TransportState),
}

impl HandleState {
    /// This state once `steps` were made.
    pub open spec fn after_steps(self, steps: Seq<HandleStep>) -> HandleState
        decreases steps.len(),
    {
        if steps.len() == 0 {
            self
        } else {
            let before = self.after_steps(steps.drop_last());
            match steps.last() {
                HandleStep::Request => before.after_call(),
                HandleStep::Settled { ok } => HandleState {
                    failed: before.failed || !ok,
                    ..before
                },
                HandleStep::Initialized(result) => before.after_initialize(result),
                HandleStep::Listed(tools) => before.after_listing(tools),
                HandleStep::Received(transport) => HandleState { transport, ..before },
            }
        }
    }
}

/// A connection counts as failed from the first request that failed on, and not
/// before.
pub proof fn law_failed_means_that_a_request_failed(
    name: Seq<char>,
    transport: TransportState,
    steps: Seq<HandleStep>,
)
    ensures
        HandleState::fresh(name, transport).after_steps(steps).failed <==> steps.contains(
            (HandleStep::Settled { ok: false }),
        ),
    decreases steps.len(),
{
    if steps.len() > 0 {
        let failure = HandleStep::Settled { ok: false };
        let before = steps.drop_last();
        law_failed_means_that_a_request_failed(name, transport, before);
        if before.contains(failure) {
            let i = choose|i: int| 0 <= i < before.len() && before[i] == failure;
            assert(steps[i] == failure);
        }
        if steps.contains(failure) && steps.last() != failure {
            let i = choose|i: int| 0 <= i < steps.len() && steps[i] == failure;
            assert(before[i] == failure);
        }
        assert(steps[steps.len() - 1] == steps.last());
    }
}

/// Neither making requests nor what the server tells changes the name of a
/// connection, moves it to another transport or undoes a failure.
pub proof fn law_connection_stays_itself(
    state: HandleState,
    result: Option<InitializeResult>,
    tools: Option<Vec<McpToolDef>>,
)
    ensures
        state.after_call().name == state.name,
        state.after_initialize(result).name == state.name,
        state.after_listing(tools).name == state.name,
        state.after_call().transport is Http == state.transport is Http,
        state.after_initialize(result).transport is Http == state.transport is Http,
        state.after_listing(tools).transport == state.transport,
        state.after_initialize(result).tools == state.tools,
        state.after_call().failed == state.failed,
        state.after_initialize(result).failed == state.failed,
        state.after_listing(tools).failed == state.failed,
{
}

/// The tools are those of the last list: it replaces what was listed before,
/// whatever that was, and touches nothing else. An answer without a list changes
/// nothing.
pub proof fn law_tools_are_as_last_listed(
    state: HandleState,
    earlier: Option<Vec<McpToolDef>>,
    list: Vec<McpToolDef>,
)
    ensures
        state.after_listing(Some(list)).tools == list@,
        state.after_listing(earlier).after_listing(Some(list)) == state.after_listing(Some(list)),
        state.after_listing(None) == state,
        state.after_listing(Some(list)).server_info == state.server_info,
        state.after_listing(Some(list)).capabilities == state.capabilities,
{
}

/// What the server says of itself when it initializes replaces what was known
/// of it; over HTTP the revision is kept besides. An answer without a result
/// changes nothing.
pub proof fn law_server_is_known_as_last_initialized(
    state: HandleState,
    earlier: Option<InitializeResult>,
    result: InitializeResult,
)
    ensures
        state.after_initialize(Some(result)).server_info == result.server_info,
        state.after_initialize(Some(result)).capabilities == result.capabilities,
        state.after_initialize(earlier).after_initialize(Some(result)) == state.after_initialize(
            Some(result),
        ),
        state.after_initialize(None) == state,
        state.transport is Stdio ==> state.after_initialize(Some(result)).transport
            == state.transport,
        state.transport matches TransportState::Http(http) ==> {
            &&& state.after_initialize(Some(result)).transport matches TransportState::Http(later)
            &&& later.version == Some(result.protocol_version@)
            &&& later.session == http.session
            &&& later.next_id == http.next_id
            &&& later.name == http.name
            &&& later.url == http.url
            &&& later.headers == http.headers
        },
{
}

/// A request uses up one id and changes nothing else: the next request has the
/// number after it, and 0 comes after the last.
pub proof fn law_request_uses_up_one_id(state: HandleState)
    ensures
        state.after_call().transport.next_id() == (state.transport.next_id() + 1) % (u64::MAX + 1),
        state.after_call().server_info == state.server_info,
        state.after_call().capabilities == state.capabilities,
        state.after_call().tools == state.tools,
        state.transport matches TransportState::Http(http) ==> {
            &&& state.after_call().transport matches TransportState::Http(later)
            &&& later.version == http.version
            &&& later.session == http.session
            &&& later.name == http.name
            &&& later.url == http.url
            &&& later.headers == http.headers
        },
{
}

/// A request is sent under the next id of its transport. A child process gets it
/// as a line, an HTTP server as the body of a POST to its URL; either way the
/// message is the JSON-RPC request of the method.
pub proof fn law_transport_carries_the_request(
    state: HandleState,
    method: Seq<char>,
    params: Option<Seq<char>>,
)
    ensures
        state.transport matches TransportState::Stdio { next_id } ==> {
            let call = state.call_of(method, params);
            &&& call.id == next_id
            &&& call.outgoing == OutgoingView::Line(
                crate::protocol::request_text(next_id, method, params).push('\n'),
            )
        },
        state.transport matches TransportState::Http(http) ==> {
            let call = state.call_of(method, params);
            &&& call.id == http.next_id
            &&& call.outgoing matches OutgoingView::Post(request)
            &&& request.method == crate::http::HttpMethod::Post
            &&& request.url == http.url
            &&& request.body == Some(
                crate::protocol::request_text(http.next_id, method, params),
            )
        },
{
    reveal_strlit("\n");
    if state.transport is Stdio {
        let text = crate::protocol::request_text(state.transport.next_id(), method, params);
        assert(text + "\n"@ =~= text.push('\n'));
    }
}

/// A notification is carried like a request, without an id.
pub proof fn law_transport_carries_the_notification(transport: TransportState, text: Seq<char>)
    ensures
        transport is Stdio ==> transport.carrying(text) == OutgoingView::Line(text.push('\n')),
        transport matches TransportState::Http(http) ==> {
            &&& transport.carrying(text) matches OutgoingView::Post(request)
            &&& request.method == crate::http::HttpMethod::Post
            &&& request.url == http.url
            &&& request.body == Some(text)
        },
{
    reveal_strlit("\n");
    assert(text + "\n"@ =~= text.push('\n'));
}

/// A line that is sent ends with a line feed and holds no other; a POST may hold
/// anything.
pub proof fn law_one_line_has_one_line_feed(outgoing: OutgoingView)
    requires
        outgoing.one_line(),
        outgoing is Line,
    ensures
        ({
            let line = outgoing->Line_0;
            &&& line.len() > 0
            &&& forall|i: int|
                0 <= i < line.len() ==> (#[trigger] line[i] == '\n' <==> i == line.len() - 1)
        }),
{
    let line = outgoing->Line_0;
    assert forall|i: int| 0 <= i < line.len() - 1 implies #[trigger] line[i] != '\n' by {
        assert(line.drop_last().contains(line.drop_last()[i]));
    }
}

/// A new connection knows nothing of its server, and nothing has failed on it.
pub proof fn law_new_connection_knows_nothing(name: Seq<char>, transport: TransportState)
    ensures
        ({
            let state = HandleState::fresh(name, transport);
            &&& state.name == name
            &&& state.transport == transport
            &&& state.server_info is None
            &&& state.capabilities.tools is None
            &&& state.capabilities.resources is None
            &&& state.capabilities.prompts is None
            &&& state.tools.len() == 0
            &&& !state.failed
        }),
{
}

/// A response without a result reads as nothing; any other as what parsing its
/// result gave, and a failure to parse it as an error with that cause.
pub proof fn law_result_is_read_as_parsed<T, F: Fn(Value) -> Result<T, String>>(
    parse: F,
    value: Option<Value>,
    read: Result<Option<T>, McpError>,
)
    requires
        result_read(parse, value, read),
    ensures
        match read {
            Ok(None) => value is None,
            Ok(Some(result)) => value is Some && parse.ensures(
                (value->0,),
                Ok::<T, String>(result),
            ),
            Err(error) => value is Some && (error matches McpError::Other { cause } && parse.ensures(
                (value->0,),
                Err::<T, String>(cause),
            )),
        },
{
}

/// A connection is seen by its own fields.
pub proof fn law_connection_is_seen_as_it_is(handle: McpHandle, call: Call)
    ensures
        handle@.name == handle.name@,
        handle@.server_info == handle.server_info,
        handle@.capabilities == handle.capabilities,
        handle@.tools == handle.tools@,
        handle@.failed == handle.failed,
        match handle.transport {
            HandleTransport::Stdio(ids) => handle@.transport == (TransportState::Stdio {
                next_id: ids.next,
            }),
            HandleTransport::Http(http) => handle@.transport == TransportState::Http(http@),
        },
        call@.id == call.id,
        match call.outgoing {
            Outgoing::Line(line) => call@.outgoing == OutgoingView::Line(line@),
            Outgoing::Post(request) => call@.outgoing == OutgoingView::Post(request@),
        },
{
}

} // verus!
