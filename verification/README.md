# mcp_client

The client side of the Model Context Protocol, verified with Verus.

`src/` holds the decisions of a connection to one MCP server: what is sent, what
an incoming line, chunk or response means, and what is remembered in between. It
does no I/O. `app/` is the asynchronous client around it: it starts child
processes, sends requests, keeps the time and turns JSON into values.

- `client`: connecting, the handshake, ending a connection
- `handle`: requests and notifications over either transport
- `http`: streamable HTTP, with sessions and event streams
- `pending`: which answer belongs to which request, over standard streams
- `protocol`: JSON-RPC messages and request ids
- `sse`: incremental reading of Server-Sent Events
- `env`: the environment of a child process
- `error`: what can go wrong, in words
- `string_map`, `text`: what the others are written with

What is believed rather than proved stands in functions marked
`#[verifier::external_body]`, each with a comment that says what is claimed of
the function it calls: `serde_json::to_string`, `Value::is_null`, the `Display`
of `reqwest::StatusCode`, `HeaderValue::to_str` and `String::from_utf8_lossy`.
The laws of the library are the public proof functions whose names begin with
`law_`.
