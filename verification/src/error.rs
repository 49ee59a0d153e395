//! The error taxonomy of the tool-calling session. Every failure is carried
//! to the caller as one of these; none is retried or swallowed.

use vstd::prelude::*;

use crate::text::{dec_int, i64_to_dec};

verus! {

/// What can go wrong between the caller and the external tool process.
#[derive(Debug)]
pub enum McpError {
    /// The child process could not be started; holds the spawn error text.
    SpawnFailure(String),
    /// The initialize handshake did not finish within the connect timeout.
    HandshakeTimeout,
    /// A request got no well-formed reply within the request timeout.
    RequestTimeout,
    /// The far end answered with an error envelope; holds its message.
    Protocol(String),
    /// A line or payload was malformed or of an unexpected shape; holds the
    /// offending text.
    Parse(String),
    /// A well-formed reply envelope carried neither an error nor a result.
    EmptyResult,
    /// An operation was attempted with no live session.
    NotConnected,
    /// The wrapped API reported a non-success status inside an otherwise
    /// successful reply; holds the status and its message.
    UpstreamStatus(i64, String),
    /// Neither a title nor any block text could be extracted; holds the
    /// diagnostic listing of what was seen.
    NoContent(String),
}

impl McpError {
    /// The human-readable message shown to the end user.
    pub fn message(&self) -> (r: String)
        ensures
            match self {
                McpError::SpawnFailure(m) => r@ == "Failed to start MCP server: "@ + m@,
                McpError::HandshakeTimeout => r@
                    == "MCP connection timed out (15 seconds). Please check if Notion token is valid."@,
                McpError::RequestTimeout => r@
                    == "MCP request timed out (30 seconds). Please check if Notion token is valid and MCP server is running."@,
                McpError::Protocol(m) => r@ == "MCP error: "@ + m@,
                McpError::Parse(raw) => r@ == "Parse error: "@ + raw@,
                McpError::NotConnected => r@ == "MCP client not connected"@,
                McpError::EmptyResult => r@ == "Empty result"@,
                McpError::UpstreamStatus(code, m) => r@ == "Notion API error ("@ + dec_int(
                    *code as int,
                ) + "): "@ + m@,
                McpError::NoContent(d) => r@ == "No content found in page. "@ + d@,
            },
    {
        match self {
            McpError::SpawnFailure(m) => String::from_str("Failed to start MCP server: ").concat(
                m.as_str(),
            ),
            McpError::HandshakeTimeout => String::from_str(
                "MCP connection timed out (15 seconds). Please check if Notion token is valid.",
            ),
            McpError::RequestTimeout => String::from_str(
                "MCP request timed out (30 seconds). Please check if Notion token is valid and MCP server is running.",
            ),
            McpError::Protocol(m) => String::from_str("MCP error: ").concat(m.as_str()),
            McpError::Parse(raw) => String::from_str("Parse error: ").concat(raw.as_str()),
            McpError::NotConnected => String::from_str("MCP client not connected"),
            McpError::EmptyResult => String::from_str("Empty result"),
            McpError::UpstreamStatus(code, m) => String::from_str("Notion API error (").concat(
                i64_to_dec(*code).as_str(),
            ).concat("): ").concat(m.as_str()),
            McpError::NoContent(d) => String::from_str("No content found in page. ").concat(
                d.as_str(),
            ),
        }
    }
}

} // verus!
