//! Client side of the Model Context Protocol: the decisions of a connection to
//! one MCP server, over a child process's standard streams or over streamable
//! HTTP.

pub mod client;
pub mod env;
pub mod error;
pub mod handle;
pub mod http;
pub mod pending;
pub mod protocol;
pub mod sse;
pub mod string_map;
pub mod text;
