//! What can go wrong with a connection, and how it is told.

use vstd::prelude::*;
use vstd::string::*;

use crate::text::{decimal_text, signed_decimal_text};

verus! {

/// A failed connection, request or notification. Where an error came from
/// outside, `cause` is its own text.
#[derive(Debug)]
pub enum McpError {
    /// The configuration of an HTTP server names no URL.
    MissingUrl { server: String },
    /// The child process could not be started.
    Spawn { command: String, cause: String },
    /// The child process has no standard stream of that name.
    MissingStream { stream: String },
    /// The HTTP client could not be set up.
    HttpClient { cause: String },
    /// The request could not be handed to the child process.
    SendRequest { cause: String },
    /// No answer came in time.
    Timeout { cause: String },
    /// The connection was given up before an answer came.
    ChannelClosed { cause: String },
    /// The server answered with an error.
    Server { code: i64, message: String },
    /// The server answered a tool call without a result.
    NoToolResult,
    /// The HTTP server could not be reached.
    Unreached { server: String, url: String, cause: String },
    /// The HTTP server answered with a status that is no success.
    Status { server: String, status: String, body: String },
    /// The body of an HTTP response could not be read.
    ReadBody { server: String, cause: String },
    /// The body of an HTTP response is no JSON-RPC response.
    NotJsonRpc { server: String, body: String, cause: String },
    /// The body of an HTTP response answers another request, or none.
    OtherAnswer { server: String, id: u64 },
    /// An event stream could not be read on.
    ReadStream { server: String, cause: String },
    /// An event stream ended without the answer to the request.
    StreamEnded { server: String, id: u64 },
    /// The handshake failed.
    Initialize { server: String, source: Box<McpError> },
    /// The tools could not be listed.
    ListTools { server: String, source: Box<McpError> },
    /// Any other failure outside.
    Other { cause: String },
}

/// `text` and, behind a colon, what caused it.
pub open spec fn caused(text: Seq<char>, cause: Seq<char>) -> Seq<char> {
    text + ": "@ + cause
}

impl McpError {
    /// The error in words, without its causes.
    pub open spec fn headline(self) -> Seq<char> {
        match self {
            McpError::MissingUrl { server } => "MCP HTTP server '"@ + server@
                + "' has no 'url' configured"@,
            McpError::Spawn { command, cause } => "Failed to spawn MCP server: "@ + command@,
            McpError::MissingStream { stream } => "No "@ + stream@,
            McpError::HttpClient { cause } => "Failed to build HTTP client for MCP transport"@,
            McpError::SendRequest { cause } => "Failed to send request"@,
            McpError::Timeout { cause } => "Request timeout"@,
            McpError::ChannelClosed { cause } => "Channel closed"@,
            McpError::Server { code, message } => "MCP error "@ + crate::text::signed_decimal(
                code as int,
            ) + ": "@ + message@,
            McpError::NoToolResult => "No result from tool call"@,
            McpError::Unreached { server, url, cause } => "Failed to reach MCP HTTP server '"@
                + server@ + "' at "@ + url@,
            McpError::Status { server, status, body } => "MCP HTTP server '"@ + server@
                + "' returned "@ + status@ + ": "@ + body@,
            McpError::ReadBody { server, cause } =>
                "Failed to read response body from MCP server '"@ + server@ + "'"@,
            McpError::NotJsonRpc { server, body, cause } => "MCP HTTP server '"@ + server@
                + "' returned a non-JSON-RPC body: "@ + body@,
            McpError::OtherAnswer { server, id } => "MCP HTTP server '"@ + server@
                + "' returned a response that does not answer request "@ + crate::text::decimal(
                id as nat,
            ),
            McpError::ReadStream { server, cause } => "Failed to read SSE stream from MCP server '"@
                + server@ + "'"@,
            McpError::StreamEnded { server, id } => "MCP HTTP server '"@ + server@
                + "' closed the SSE stream without answering request "@ + crate::text::decimal(
                id as nat,
            ),
            McpError::Initialize { server, source } => "MCP server '"@ + server@
                + "' failed to initialize"@,
            McpError::ListTools { server, source } => "MCP server '"@ + server@
                + "' failed to list tools"@,
            McpError::Other { cause } => cause@,
        }
    }

    /// The error in words, its causes behind it.
    pub open spec fn text(self) -> Seq<char>
        decreases self,
    {
        match self {
            McpError::Spawn { cause, .. }
            | McpError::HttpClient { cause }
            | McpError::SendRequest { cause }
            | McpError::Timeout { cause }
            | McpError::ChannelClosed { cause }
            | McpError::Unreached { cause, .. }
            | McpError::ReadBody { cause, .. }
            | McpError::NotJsonRpc { cause, .. }
            | McpError::ReadStream { cause, .. } => caused(self.headline(), cause@),
            McpError::Initialize { source, .. } | McpError::ListTools { source, .. } => caused(
                self.headline(),
                source.text(),
            ),
            _ => self.headline(),
        }
    }

    /// What caused the error, in words, if anything did.
    pub open spec fn cause_text(self) -> Option<Seq<char>> {
        match self {
            McpError::Spawn { cause, .. }
            | McpError::HttpClient { cause }
            | McpError::SendRequest { cause }
            | McpError::Timeout { cause }
            | McpError::ChannelClosed { cause }
            | McpError::Unreached { cause, .. }
            | McpError::ReadBody { cause, .. }
            | McpError::NotJsonRpc { cause, .. }
            | McpError::ReadStream { cause, .. } => Some(cause@),
            McpError::Initialize { source, .. } | McpError::ListTools { source, .. } => Some(
                source.text(),
            ),
            _ => None,
        }
    }

    /// The error in words, without its causes.
    pub fn outermost(&self) -> (message: String)
        ensures
            message@ == self.headline(),
            match self.cause_text() {
                Some(cause) => self.text() == caused(message@, cause),
                None => self.text() == message@,
            },
    {
        match self {
            McpError::MissingUrl { server } => {
                let mut text = "MCP HTTP server '".to_string();
                text.append(server.as_str());
                text.append("' has no 'url' configured");
                text
            },
            McpError::Spawn { command, cause: _ } => {
                let mut text = "Failed to spawn MCP server: ".to_string();
                text.append(command.as_str());
                text
            },
            McpError::MissingStream { stream } => {
                let mut text = "No ".to_string();
                text.append(stream.as_str());
                text
            },
            McpError::HttpClient { cause: _ } =>
                "Failed to build HTTP client for MCP transport".to_string(),
            McpError::SendRequest { cause: _ } => "Failed to send request".to_string(),
            McpError::Timeout { cause: _ } => "Request timeout".to_string(),
            McpError::ChannelClosed { cause: _ } => "Channel closed".to_string(),
            McpError::Server { code, message } => {
                let mut text = "MCP error ".to_string();
                text.append(signed_decimal_text(*code).as_str());
                text.append(": ");
                text.append(message.as_str());
                text
            },
            McpError::NoToolResult => "No result from tool call".to_string(),
            McpError::Unreached { server, url, cause: _ } => {
                let mut text = "Failed to reach MCP HTTP server '".to_string();
                text.append(server.as_str());
                text.append("' at ");
                text.append(url.as_str());
                text
            },
            McpError::Status { server, status, body } => {
                let mut text = "MCP HTTP server '".to_string();
                text.append(server.as_str());
                text.append("' returned ");
                text.append(status.as_str());
                text.append(": ");
                text.append(body.as_str());
                text
            },
            McpError::ReadBody { server, cause: _ } => {
                let mut text = "Failed to read response body from MCP server '".to_string();
                text.append(server.as_str());
                text.append("'");
                text
            },
            McpError::NotJsonRpc { server, body, cause: _ } => {
                let mut text = "MCP HTTP server '".to_string();
                text.append(server.as_str());
                text.append("' returned a non-JSON-RPC body: ");
                text.append(body.as_str());
                text
            },
            McpError::OtherAnswer { server, id } => {
                let mut text = "MCP HTTP server '".to_string();
                text.append(server.as_str());
                text.append("' returned a response that does not answer request ");
                text.append(decimal_text(*id).as_str());
                text
            },
            McpError::ReadStream { server, cause: _ } => {
                let mut text = "Failed to read SSE stream from MCP server '".to_string();
                text.append(server.as_str());
                text.append("'");
                text
            },
            McpError::StreamEnded { server, id } => {
                let mut text = "MCP HTTP server '".to_string();
                text.append(server.as_str());
                text.append("' closed the SSE stream without answering request ");
                text.append(decimal_text(*id).as_str());
                text
            },
            McpError::Initialize { server, source: _ } => {
                let mut text = "MCP server '".to_string();
                text.append(server.as_str());
                text.append("' failed to initialize");
                text
            },
            McpError::ListTools { server, source: _ } => {
                let mut text = "MCP server '".to_string();
                text.append(server.as_str());
                text.append("' failed to list tools");
                text
            },
            McpError::Other { cause } => cause.clone(),
        }
    }

    /// What caused the error, in words, if anything did.
    pub fn cause(&self) -> (cause: Option<String>)
        ensures
            crate::text::opt_text(cause) == self.cause_text(),
        decreases self, 0nat,
    {
        match self {
            McpError::Spawn { command: _, cause } => Some(cause.clone()),
            McpError::HttpClient { cause } => Some(cause.clone()),
            McpError::SendRequest { cause } => Some(cause.clone()),
            McpError::Timeout { cause } => Some(cause.clone()),
            McpError::ChannelClosed { cause } => Some(cause.clone()),
            McpError::Unreached { server: _, url: _, cause } => Some(cause.clone()),
            McpError::ReadBody { server: _, cause } => Some(cause.clone()),
            McpError::NotJsonRpc { server: _, body: _, cause } => Some(cause.clone()),
            McpError::ReadStream { server: _, cause } => Some(cause.clone()),
            McpError::Initialize { server: _, source } => Some(source.message()),
            McpError::ListTools { server: _, source } => Some(source.message()),
            _ => None,
        }
    }

    /// The error in words, its causes behind it.
    pub fn message(&self) -> (message: String)
        ensures
            message@ == self.text(),
        decreases self, 1nat,
    {
        let headline = self.outermost();
        match self.cause() {
            Some(cause) => headline.concat(": ").concat(cause.as_str()),
            None => headline,
        }
    }
}

/// Every error is told in the same words whatever the names in it: the names
/// stand in it as they are, and a cause stands behind a colon.
pub proof fn law_failures_are_told_in_these_words(
    server: String,
    url: String,
    command: String,
    stream: String,
    status: String,
    body: String,
    cause: String,
    code: i64,
    id: u64,
)
    ensures
        (McpError::MissingUrl { server }).text() == "MCP HTTP server '"@ + server@
            + "' has no 'url' configured"@,
        (McpError::Spawn { command, cause }).text() == "Failed to spawn MCP server: "@ + command@
            + ": "@ + cause@,
        (McpError::MissingStream { stream }).text() == "No "@ + stream@,
        (McpError::HttpClient { cause }).text() == "Failed to build HTTP client for MCP transport"@
            + ": "@ + cause@,
        (McpError::SendRequest { cause }).text() == "Failed to send request"@ + ": "@ + cause@,
        (McpError::Timeout { cause }).text() == "Request timeout"@ + ": "@ + cause@,
        (McpError::ChannelClosed { cause }).text() == "Channel closed"@ + ": "@ + cause@,
        (McpError::Server { code, message: body }).text() == "MCP error "@
            + crate::text::signed_decimal(code as int) + ": "@ + body@,
        McpError::NoToolResult.text() == "No result from tool call"@,
        (McpError::Unreached { server, url, cause }).text() == "Failed to reach MCP HTTP server '"@
            + server@ + "' at "@ + url@ + ": "@ + cause@,
        (McpError::Status { server, status, body }).text() == "MCP HTTP server '"@ + server@
            + "' returned "@ + status@ + ": "@ + body@,
        (McpError::ReadBody { server, cause }).text()
            == "Failed to read response body from MCP server '"@ + server@ + "'"@ + ": "@ + cause@,
        (McpError::NotJsonRpc { server, body, cause }).text() == "MCP HTTP server '"@ + server@
            + "' returned a non-JSON-RPC body: "@ + body@ + ": "@ + cause@,
        (McpError::OtherAnswer { server, id }).text() == "MCP HTTP server '"@ + server@
            + "' returned a response that does not answer request "@ + crate::text::decimal(
            id as nat,
        ),
        (McpError::ReadStream { server, cause }).text()
            == "Failed to read SSE stream from MCP server '"@ + server@ + "'"@ + ": "@ + cause@,
        (McpError::StreamEnded { server, id }).text() == "MCP HTTP server '"@ + server@
            + "' closed the SSE stream without answering request "@ + crate::text::decimal(
            id as nat,
        ),
        (McpError::Other { cause }).text() == cause@,
{
}

/// An error of the handshake is told by the server's name and then by the error
/// that it came from, which is told as it would be by itself.
pub proof fn law_handshake_errors_tell_their_source(server: String, source: Box<McpError>)
    ensures
        (McpError::Initialize { server, source }).text() == "MCP server '"@ + server@
            + "' failed to initialize"@ + ": "@ + source.text(),
        (McpError::ListTools { server, source }).text() == "MCP server '"@ + server@
            + "' failed to list tools"@ + ": "@ + source.text(),
{
}

/// An error is told by its headline alone where it has no cause, and else by its
/// headline, a colon and the cause. The variants that hold a cause are those
/// that have one, but for the one that is nothing else.
pub proof fn law_headline_and_cause_make_the_text(error: McpError)
    ensures
        error.cause_text() is None ==> error.text() == error.headline(),
        error.cause_text() is Some ==> error.text() == error.headline() + ": "@
            + error.cause_text()->0,
        match error {
            McpError::Spawn { cause, .. }
            | McpError::HttpClient { cause }
            | McpError::SendRequest { cause }
            | McpError::Timeout { cause }
            | McpError::ChannelClosed { cause }
            | McpError::Unreached { cause, .. }
            | McpError::ReadBody { cause, .. }
            | McpError::NotJsonRpc { cause, .. }
            | McpError::ReadStream { cause, .. } => error.cause_text() == Some(cause@),
            McpError::Initialize { source, .. } | McpError::ListTools { source, .. } =>
                error.cause_text() == Some(source.text()),
            _ => error.cause_text() is None,
        },
{
}

} // verus!
