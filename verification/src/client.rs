//! A connection to one server, from its configuration to its end.

use serde_json::Value;
use vstd::prelude::*;
use vstd::string::*;

use crate::env::mcp_child_env;
use crate::error::McpError;
use crate::handle::{Call, HandleTransport, McpHandle, Outgoing};
use crate::http::{HttpRequest, HttpTransport};
use crate::protocol::{InitializeResult, McpServerConfig, McpToolDef, RequestIds, ServerInfo};
use crate::string_map::StringMap;
use crate::text::trim;

verus! {

/// How long a child process is given to end by itself, in milliseconds.
pub const SHUTDOWN_GRACE_MILLIS: u64 = 100;

/// The line that asks a child process to end.
pub const SHUTDOWN_LINE: &'static str = "{\"jsonrpc\":\"2.0\",\"method\":\"shutdown\"}\n";

/// The transport that a configuration selects.
#[derive(Debug, Clone, Copy, PartialEq, Eq, Structural)]
pub enum TransportKind {
    Stdio,
    Http,
}

/// A child process to be started. `P` is how the caller writes a path.
pub struct SpawnPlan<P> {
    pub command: String,
    pub args: Vec<String>,
    pub env: StringMap,
    /// The directory to run in; without one, that of the client.
    pub cwd: Option<P>,
}

/// How to connect: by starting a child process, or at once over HTTP.
pub enum ConnectPlan<P> {
    Spawn(SpawnPlan<P>),
    Http(McpClient),
}

/// What is known of a child process.
#[derive(Debug, Clone, Copy, PartialEq, Eq, Structural)]
pub enum ChildStatus {
    Running,
    Exited,
    Unknown,
}

/// How to end a connection.
pub enum ShutdownPlan {
    /// Send the line, wait for the grace period, then end the child process if
    /// there is one.
    Child { line: String, kill: bool },
    /// Send the request, if there is one.
    Http { close: Option<HttpRequest> },
}

/// The URL that a configuration names: trimmed, and not empty.
pub open spec fn configured_url(url: Option<String>) -> Option<Seq<char>> {
    match url {
        Some(text) => if crate::text::trimmed(text@).len() > 0 {
            Some(crate::text::trimmed(text@))
        } else {
            None
        },
        None => None,
    }
}

/// The working directory, where it exists.
pub open spec fn existing_dir<P>(working_dir: Option<(P, bool)>) -> Option<P> {
    match working_dir {
        Some((path, true)) => Some(path),
        _ => None,
    }
}

/// What a client knows: its connection, and whether it owns a child process.
#[verifier::ext_equal]
pub struct ClientState {
    pub handle: crate::handle::HandleState,
    pub child: bool,
}

impl ClientState {
    /// A client of the HTTP server `name` at `url`, before its handshake.
    pub open spec fn fresh_http(
        name: Seq<char>,
        url: Seq<char>,
        headers: Seq<(Seq<char>, Seq<char>)>,
    ) -> ClientState {
        ClientState {
            handle: crate::handle::HandleState::fresh(
                name,
                crate::handle::TransportState::Http(
                    crate::http::HttpState {
                        name,
                        url,
                        headers,
                        next_id: 1,
                        session: None,
                        version: None,
                    },
                ),
            ),
            child: false,
        }
    }

    /// A client of the child process `name`, before its handshake.
    pub open spec fn fresh_stdio(name: Seq<char>) -> ClientState {
        ClientState {
            handle: crate::handle::HandleState::fresh(
                name,
                crate::handle::TransportState::Stdio { next_id: 1 },
            ),
            child: true,
        }
    }

    /// The request that begins the handshake.
    pub open spec fn initialize_call(self, client_version: Seq<char>) -> crate::handle::CallView {
        self.handle.call_of(
            "initialize"@,
            Some(
                crate::protocol::initialize_params(
                    self.handle.transport.requested_version(),
                    client_version,
                ),
            ),
        )
    }

    /// The notification that confirms the result of `initialize`.
    pub open spec fn confirmation(self) -> crate::handle::OutgoingView {
        self.handle.transport.carrying(
            crate::protocol::notification_text("notifications/initialized"@, None),
        )
    }

    /// The request for the tools.
    pub open spec fn listing_call(self) -> crate::handle::CallView {
        self.handle.call_of("tools/list"@, None)
    }

    /// This state once a request was made.
    pub open spec fn after_call(self) -> ClientState {
        ClientState { handle: self.handle.after_call(), ..self }
    }

    /// This state once `initialize` was answered with `result`.
    pub open spec fn after_initialize(self, result: Option<InitializeResult>) -> ClientState {
        ClientState { handle: self.handle.after_initialize(result), ..self }
    }

    /// This state once `tools/list` was answered with `tools`.
    pub open spec fn after_listing(self, tools: Option<Vec<McpToolDef>>) -> ClientState {
        ClientState { handle: self.handle.after_listing(tools), ..self }
    }
}

/// The owner of a connection: of the child process, or of the HTTP session.
pub struct McpClient {
    pub handle: McpHandle,
    /// Whether there is a child process to be ended.
    pub child: bool,
}

impl View for McpClient {
    type V = ClientState;

    open spec fn view(&self) -> ClientState {
        ClientState { handle: self.handle@, child: self.child }
    }
}

impl McpClient {
    /// How to connect to the server `name`, in the directory of the client.
    /// `inherited` is the environment of the client.
    pub fn connect<P>(
        name: String,
        config: &McpServerConfig,
        kind: TransportKind,
        inherited: StringMap,
    ) -> (plan: Result<ConnectPlan<P>, McpError>)
        ensures
            planned(name@, *config, kind, None, inherited@, plan),
    {
        Self::connect_in_dir(name, config, kind, None, inherited)
    }

    /// How to connect to the server `name`. `working_dir` is the directory that
    /// a child process should run in, and whether it exists: where it does not,
    /// the child runs in that of the client. HTTP servers ignore it.
    pub fn connect_in_dir<P>(
        name: String,
        config: &McpServerConfig,
        kind: TransportKind,
        working_dir: Option<(P, bool)>,
        inherited: StringMap,
    ) -> (plan: Result<ConnectPlan<P>, McpError>)
        ensures
            planned(name@, *config, kind, working_dir, inherited@, plan),
    {
        match kind {
            TransportKind::Http => match Self::connect_http(name, config) {
                Ok(client) => Ok(ConnectPlan::Http(client)),
                Err(error) => Err(error),
            },
            TransportKind::Stdio => {
                let cwd = match working_dir {
                    Some((path, exists)) => if exists {
                        Some(path)
                    } else {
                        None
                    },
                    None => None,
                };
                let args = config.args.clone();
                assert(crate::text::texts(args@) =~= crate::text::texts(config.args@));
                Ok(
                    ConnectPlan::Spawn(
                        SpawnPlan {
                            command: config.command.clone(),
                            args,
                            env: mcp_child_env(inherited, &config.env),
                            cwd,
                        },
                    ),
                )
            },
        }
    }

    /// A client of the HTTP server `name`, before its handshake.
    pub fn connect_http(name: String, config: &McpServerConfig) -> (client: Result<Self, McpError>)
        ensures
            match configured_url(config.url) {
                Some(url) => client is Ok && client->Ok_0@ == ClientState::fresh_http(
                    name@,
                    url,
                    config.headers.entries(),
                ),
                None => client matches Err(McpError::MissingUrl { server }) && server@ == name@,
            },
    {
        let url = match &config.url {
            Some(text) => trim(text.as_str()).to_string(),
            None => return Err(McpError::MissingUrl { server: name }),
        };
        if url.as_str().is_empty() {
            return Err(McpError::MissingUrl { server: name });
        }
        let transport = HttpTransport::new(name.clone(), url, config.headers.clone());
        let handle = McpHandle::new(name, HandleTransport::Http(transport));
        Ok(McpClient { handle, child: false })
    }

    /// A client of the child process `name`, before its handshake.
    pub fn spawned(name: String) -> (client: Self)
        ensures
            client@ == ClientState::fresh_stdio(name@),
    {
        let handle = McpHandle::new(name, HandleTransport::Stdio(RequestIds::new()));
        McpClient { handle, child: true }
    }

    /// Begins the handshake: asks the server to initialize.
    pub fn initialize(&mut self, client_version: &str) -> (call: Call)
        ensures
            call@ == old(self)@.initialize_call(client_version@),
            call@.outgoing.one_line(),
            final(self)@ == old(self)@.after_call(),
    {
        self.handle.initialize(client_version)
    }

    /// Goes on with the handshake once `initialize` was answered: takes in the
    /// result, and confirms it by a notification.
    pub fn on_initialize(
        &mut self,
        answer: Result<Option<InitializeResult>, McpError>,
    ) -> (next: Result<Outgoing, McpError>)
        ensures
            match answer {
                Ok(result) => {
                    &&& final(self)@ == old(self)@.after_initialize(result)
                    &&& next is Ok && next->Ok_0@ == final(self)@.confirmation()
                    &&& next->Ok_0@.one_line()
                },
                Err(error) => {
                    &&& final(self)@ == old(self)@
                    &&& next is Err && initialize_failed(next->Err_0, old(self)@, error)
                },
            },
    {
        match answer {
            Ok(result) => {
                self.handle.initialized(result);
                Ok(self.handle.notify("notifications/initialized", None))
            },
            Err(error) => Err(self.initialize_error(error)),
        }
    }

    /// Goes on with the handshake once the confirmation was sent: asks for the
    /// tools.
    pub fn on_confirmed(&mut self, sent: Result<(), McpError>) -> (next: Result<Call, McpError>)
        ensures
            match sent {
                Ok(_) => {
                    &&& final(self)@ == old(self)@.after_call()
                    &&& next is Ok && next->Ok_0@ == old(self)@.listing_call()
                    &&& next->Ok_0@.outgoing.one_line()
                },
                Err(error) => {
                    &&& final(self)@ == old(self)@
                    &&& next is Err && initialize_failed(next->Err_0, old(self)@, error)
                },
            },
    {
        match sent {
            Ok(_) => Ok(self.handle.refresh_tools()),
            Err(error) => Err(self.initialize_error(error)),
        }
    }

    /// Ends the handshake once `tools/list` was answered.
    pub fn finish_connect(
        &mut self,
        answer: Result<Option<Vec<McpToolDef>>, McpError>,
    ) -> (connected: Result<(), McpError>)
        ensures
            match answer {
                Ok(tools) => {
                    &&& final(self)@ == old(self)@.after_listing(tools)
                    &&& connected is Ok
                },
                Err(error) => {
                    &&& final(self)@ == old(self)@
                    &&& connected matches Err(McpError::ListTools { server, source })
                    &&& server@ == old(self)@.handle.name
                    &&& *source == error
                },
            },
    {
        match answer {
            Ok(tools) => {
                self.handle.tools_listed(tools);
                Ok(())
            },
            Err(error) => Err(
                McpError::ListTools { server: self.handle.name.clone(), source: Box::new(error) },
            ),
        }
    }

    fn initialize_error(&self, error: McpError) -> (failure: McpError)
        ensures
            initialize_failed(failure, self@, error),
    {
        McpError::Initialize { server: self.handle.name.clone(), source: Box::new(error) }
    }

    /// The communication half of this connection.
    pub fn handle(&self) -> (handle: &McpHandle)
        ensures
            handle@ == self@.handle,
    {
        &self.handle
    }

    /// Whether the server still runs, `status` being what is known of the child
    /// process. An HTTP server has none, and counts as running until a request
    /// fails.
    pub fn is_running(&self, status: ChildStatus) -> (running: bool)
        ensures
            running == (if self@.child {
                status == ChildStatus::Running
            } else {
                !self@.handle.failed
            }),
    {
        if self.child {
            status == ChildStatus::Running
        } else {
            !self.handle.failed
        }
    }

    /// How to end the connection.
    pub fn shutdown(&self) -> (plan: ShutdownPlan)
        ensures
            match self@.handle.transport {
                crate::handle::TransportState::Stdio { next_id } => {
                    &&& plan matches ShutdownPlan::Child { line, kill }
                    &&& line@ == SHUTDOWN_LINE@
                    &&& kill == self@.child
                },
                crate::handle::TransportState::Http(http) => {
                    &&& plan matches ShutdownPlan::Http { close }
                    &&& match close {
                        Some(request) => http.session is Some && request@ == http.delete_of(
                            http.session->0,
                        ),
                        None => http.session is None,
                    }
                },
            },
    {
        match &self.handle.transport {
            HandleTransport::Stdio(_) => ShutdownPlan::Child {
                line: SHUTDOWN_LINE.to_string(),
                kill: self.child,
            },
            HandleTransport::Http(http) => ShutdownPlan::Http { close: http.close() },
        }
    }

    /// The name of the server.
    pub fn name(&self) -> (name: &str)
        ensures
            name@ == self@.handle.name,
    {
        self.handle.name()
    }

    /// How the server has introduced itself, if it has.
    pub fn server_info(&self) -> (info: Option<&ServerInfo>)
        ensures
            match info {
                Some(i) => self@.handle.server_info == Some(*i),
                None => self@.handle.server_info is None,
            },
    {
        self.handle.server_info()
    }

    /// The tools that the server offers, as last listed.
    pub fn tools(&self) -> (tools: &Vec<McpToolDef>)
        ensures
            tools@ == self@.handle.tools,
    {
        self.handle.tools()
    }

    /// Calls the tool `name`; null stands for no arguments.
    pub fn call_tool(&mut self, name: &str, arguments: Value) -> (call: Call)
        ensures
            call@ == old(self)@.handle.call_of(
                "tools/call"@,
                Some(
                    crate::protocol::tool_call_params(
                        name@,
                        crate::protocol::value_json(arguments),
                    ),
                ),
            ),
            call@.outgoing.one_line(),
            final(self)@ == old(self)@.after_call(),
    {
        self.handle.call_tool(name, arguments)
    }

    /// Asks for the tools that the server offers.
    pub fn refresh_tools(&mut self) -> (call: Call)
        ensures
            call@ == old(self)@.listing_call(),
            call@.outgoing.one_line(),
            final(self)@ == old(self)@.after_call(),
    {
        self.handle.refresh_tools()
    }
}

/// Whether `failure` reports that the handshake of `client` failed by `error`.
pub open spec fn initialize_failed(
    failure: McpError,
    client: ClientState,
    error: McpError,
) -> bool {
    &&& failure matches McpError::Initialize { server, source }
    &&& server@ == client.handle.name
    &&& *source == error
}

/// Whether `plan` is how to connect to the server `name` as configured.
pub open spec fn planned<P>(
    name: Seq<char>,
    config: McpServerConfig,
    kind: TransportKind,
    working_dir: Option<(P, bool)>,
    inherited: Map<Seq<char>, Seq<char>>,
    plan: Result<ConnectPlan<P>, McpError>,
) -> bool {
    match kind {
        TransportKind::Http => match configured_url(config.url) {
            Some(url) => plan matches Ok(ConnectPlan::Http(client)) && client@
                == ClientState::fresh_http(name, url, config.headers.entries()),
            None => plan matches Err(McpError::MissingUrl { server }) && server@ == name,
        },
        TransportKind::Stdio => {
            &&& plan matches Ok(ConnectPlan::Spawn(spawn))
            &&& spawn.command@ == config.command@
            &&& crate::text::texts(spawn.args@) == crate::text::texts(config.args@)
            &&& spawn.env@ == crate::env::child_env(inherited, config.env@)
            &&& spawn.cwd == existing_dir(working_dir)
        },
    }
}

/// The handshake of a new client numbers its requests: `initialize` is the
/// first, and `tools/list` the second, whatever `initialize` is answered.
pub proof fn law_handshake_numbers_its_requests(
    name: Seq<char>,
    url: Seq<char>,
    headers: Seq<(Seq<char>, Seq<char>)>,
    client_version: Seq<char>,
    result: Option<InitializeResult>,
)
    ensures
        ClientState::fresh_stdio(name).initialize_call(client_version).id == 1,
        ClientState::fresh_stdio(name).after_call().after_initialize(result).listing_call().id == 2,
        ClientState::fresh_http(name, url, headers).initialize_call(client_version).id == 1,
        ClientState::fresh_http(name, url, headers).after_call().after_initialize(
            result,
        ).listing_call().id == 2,
{
}

/// Over HTTP, once the handshake has assigned a session and a revision, every
/// request carries both, and the configured headers with them.
pub proof fn law_requests_after_handshake_carry_its_outcome(
    handle: crate::handle::HandleState,
    http: crate::http::HttpState,
    head: crate::http::ResponseHead,
    result: InitializeResult,
    method: Seq<char>,
    params: Option<Seq<char>>,
)
    requires
        handle.transport == crate::handle::TransportState::Http(http.after_head(head)),
        crate::http::head_text(head.session_id) is Some,
    ensures
        ({
            let later = handle.after_initialize(Some(result));
            let session = crate::http::head_text(head.session_id)->0;
            &&& later.call_of(method, params).outgoing matches crate::handle::OutgoingView::Post(
                request,
            )
            &&& request.url == http.url
            &&& request.headers.contains((crate::http::SESSION_HEADER@, session))
            &&& request.headers.contains(
                (crate::http::PROTOCOL_VERSION_HEADER@, result.protocol_version@),
            )
            &&& forall|i: int|
                0 <= i < http.headers.len() ==> request.headers.contains(
                    #[trigger] http.headers[i],
                )
        }),
{
    let later = handle.after_initialize(Some(result));
    let state = later.transport->Http_0;
    let headers = state.post_headers();
    let n: int = 2 + http.headers.len() as int;
    assert forall|i: int| 0 <= i < http.headers.len() implies headers.contains(
        #[trigger] http.headers[i],
    ) by {
        assert(headers[2 + i] == http.headers[i]);
    }
    assert(headers[n] == (crate::http::SESSION_HEADER@, state.session->0));
    assert(headers[n + 1] == (crate::http::PROTOCOL_VERSION_HEADER@, result.protocol_version@));
}

/// A failed handshake is reported by the name of the server, and by what went
/// wrong.
pub proof fn law_failed_handshake_is_explained(
    failure: McpError,
    client: ClientState,
    error: McpError,
)
    requires
        initialize_failed(failure, client, error),
    ensures
        failure is Initialize,
        *failure->Initialize_source == error,
        failure.text() == "MCP server '"@ + client.handle.name + "' failed to initialize"@ + ": "@
            + error.text(),
{
}

/// The URL of a configuration is what it says without the white space around it;
/// nothing, or white space alone, is no URL.
pub proof fn law_url_is_configured_without_white_space(url: Option<String>)
    ensures
        url is None ==> configured_url(url) is None,
        url matches Some(text) ==> (configured_url(url) is None <==> forall|i: int|
            0 <= i < text@.len() ==> crate::text::white_space(#[trigger] text@[i])),
        configured_url(url) matches Some(inner) ==> {
            &&& inner.len() > 0
            &&& !crate::text::white_space(inner[0])
            &&& !crate::text::white_space(inner.last())
            &&& exists|i: int, j: int|
                0 <= i <= j <= url->0@.len() && #[trigger] url->0@.subrange(i, j) == inner && (
                forall|k: int| 0 <= k < i ==> crate::text::white_space(#[trigger] url->0@[k])) && (
                forall|k: int|
                    j <= k < url->0@.len() ==> crate::text::white_space(#[trigger] url->0@[k]))
        },
{
    if url is Some {
        let text = url->0@;
        crate::text::law_trimming_removes_white_space_only(text);
        let (i, j) = choose|i: int, j: int|
            0 <= i <= j <= text.len() && #[trigger] text.subrange(i, j) == crate::text::trimmed(text)
                && (forall|k: int| 0 <= k < i ==> crate::text::white_space(#[trigger] text[k])) && (
            forall|k: int| j <= k < text.len() ==> crate::text::white_space(#[trigger] text[k]));
        if crate::text::trimmed(text).len() > 0 {
            assert(text[i] == crate::text::trimmed(text)[0]);
        } else {
            assert(text.subrange(i, j).len() == 0);
        }
    }
}

/// A child process is started as configured: with the command and every argument
/// in order, in the environment that is its due, and in the working directory
/// exactly if there is one that exists.
pub proof fn law_child_is_started_as_configured<P>(
    name: Seq<char>,
    config: McpServerConfig,
    working_dir: Option<(P, bool)>,
    inherited: Map<Seq<char>, Seq<char>>,
    plan: Result<ConnectPlan<P>, McpError>,
)
    requires
        planned(name, config, TransportKind::Stdio, working_dir, inherited, plan),
    ensures
        plan is Ok,
        plan->Ok_0 is Spawn,
        ({
            let spawn = plan->Ok_0->Spawn_0;
            &&& spawn.command@ == config.command@
            &&& spawn.args@.len() == config.args@.len()
            &&& forall|i: int|
                0 <= i < config.args@.len() ==> (#[trigger] spawn.args@[i])@ == config.args@[i]@
            &&& spawn.env@ == crate::env::child_env(inherited, config.env@)
            &&& match working_dir {
                Some((path, there)) => spawn.cwd == (if there {
                    Some(path)
                } else {
                    None
                }),
                None => spawn.cwd is None,
            }
        }),
{
    let spawn = plan->Ok_0->Spawn_0;
    crate::text::law_texts_are_the_strings(spawn.args@, None);
    crate::text::law_texts_are_the_strings(config.args@, None);
    assert forall|i: int| 0 <= i < config.args@.len() implies (#[trigger] spawn.args@[i])@
        == config.args@[i]@ by {
        assert(crate::text::texts(spawn.args@)[i] == crate::text::texts(config.args@)[i]);
    }
}

/// An HTTP server is connected to without a child process, whatever the working
/// directory and the environment: at its URL, with the configured headers, and
/// with nothing said yet. Without a URL the connection fails, and the error names
/// the server.
pub proof fn law_http_server_is_connected_to_at_its_url<P>(
    name: Seq<char>,
    config: McpServerConfig,
    working_dir: Option<(P, bool)>,
    inherited: Map<Seq<char>, Seq<char>>,
    plan: Result<ConnectPlan<P>, McpError>,
)
    requires
        planned(name, config, TransportKind::Http, working_dir, inherited, plan),
    ensures
        match configured_url(config.url) {
            None => plan matches Err(McpError::MissingUrl { server }) && server@ == name,
            Some(url) => {
                &&& plan is Ok
                &&& plan->Ok_0 is Http
                &&& plan->Ok_0->Http_0@ == ClientState::fresh_http(
                    name,
                    url,
                    config.headers.entries(),
                )
            },
        },
{
}

/// A new client knows its server by name and nothing of it; its first request
/// has the id 1. A client of a child process owns it, one over HTTP owns none and
/// has neither session nor revision.
pub proof fn law_new_client_has_said_nothing(
    name: Seq<char>,
    url: Seq<char>,
    headers: Seq<(Seq<char>, Seq<char>)>,
)
    ensures
        ({
            let client = ClientState::fresh_stdio(name);
            &&& client.child
            &&& client.handle == crate::handle::HandleState::fresh(
                name,
                crate::handle::TransportState::Stdio { next_id: 1 },
            )
        }),
        ({
            let client = ClientState::fresh_http(name, url, headers);
            &&& !client.child
            &&& client.handle.transport matches crate::handle::TransportState::Http(http)
            &&& client.handle == crate::handle::HandleState::fresh(
                name,
                client.handle.transport,
            )
            &&& http.name == name
            &&& http.url == url
            &&& http.headers == headers
            &&& http.next_id == 1
            &&& http.session is None
            &&& http.version is None
        }),
{
}

/// The handshake asks to initialize by the revision that goes with the
/// transport, confirms by a notification, and asks for the tools. What comes back
/// reaches the connection, and whether there is a child process does not change.
pub proof fn law_handshake_says_its_three_messages(
    client: ClientState,
    version: Seq<char>,
    result: Option<InitializeResult>,
    tools: Option<Vec<McpToolDef>>,
)
    ensures
        client.handle.transport is Stdio ==> client.initialize_call(version)
            == client.handle.call_of(
            "initialize"@,
            Some(crate::protocol::initialize_params("2024-11-05"@, version)),
        ),
        client.handle.transport is Http ==> client.initialize_call(version)
            == client.handle.call_of(
            "initialize"@,
            Some(crate::protocol::initialize_params("2025-03-26"@, version)),
        ),
        client.confirmation() == client.handle.transport.carrying(
            crate::protocol::notification_text("notifications/initialized"@, None),
        ),
        client.listing_call() == client.handle.call_of("tools/list"@, None),
        client.after_call().handle == client.handle.after_call(),
        client.after_initialize(result).handle == client.handle.after_initialize(result),
        client.after_listing(tools).handle == client.handle.after_listing(tools),
        client.after_call().child == client.child,
        client.after_initialize(result).child == client.child,
        client.after_listing(tools).child == client.child,
{
}

/// A client is seen by its own fields.
pub proof fn law_client_is_seen_as_it_is(client: McpClient)
    ensures
        client@.handle == client.handle@,
        client@.child == client.child,
{
}

} // verus!
