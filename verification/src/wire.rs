//! Reading the inbound side of the line-framed JSON-RPC stream.
//!
//! The protocol is strictly single-flight: after one request is written, the
//! reader takes lines until one parses as a well-formed reply envelope.
//! Blank lines are keep-alive noise and are skipped; the reply's `id` is not
//! compared to the request's — a deliberate simplification that is sound
//! only under the single-flight rule. A request that runs out its timeout
//! leaves the stream where it was, unsynchronized: the clean way back is to
//! disconnect and connect again.

use vstd::prelude::*;

use crate::error::McpError;
use crate::json::{json_get, parse_json, parsed_json, JsonValue, JsonView};
use crate::text::{is_blank, spec_blank};

verus! {

/// Seconds allowed for the initialize handshake.
pub const CONNECT_TIMEOUT_SECS: u64 = 15;

/// Seconds allowed for every other request.
pub const REQUEST_TIMEOUT_SECS: u64 = 30;

/// An error member of an envelope must carry an integer code and a string
/// message.
pub open spec fn error_shape_ok(e: JsonView) -> bool {
    &&& json_get(e, "code"@) matches Some(JsonView::Int(_))
    &&& json_get(e, "message"@) matches Some(JsonView::Str(_))
}

/// A well-formed reply envelope: an object with a string `jsonrpc` member,
/// an `id` that is absent, null or a non-negative integer, and an `error`
/// that is absent, null or well shaped.
pub open spec fn envelope_ok(w: JsonView) -> bool {
    &&& w is Obj
    &&& json_get(w, "jsonrpc"@) matches Some(JsonView::Str(_))
    &&& match json_get(w, "id"@) {
        Option::None => true,
        Option::Some(JsonView::Null) => true,
        Option::Some(JsonView::Int(i)) => i >= 0,
        Option::Some(_) => false,
    }
    &&& match json_get(w, "error"@) {
        Option::None => true,
        Option::Some(JsonView::Null) => true,
        Option::Some(e) => error_shape_ok(e),
    }
}

/// The far end's error message, when the envelope carries an error member.
pub open spec fn envelope_error(w: JsonView) -> Option<Seq<char>> {
    match json_get(w, "error"@) {
        Option::Some(JsonView::Null) => Option::None,
        Option::Some(e) => match json_get(e, "message"@) {
            Option::Some(JsonView::Str(m)) => Option::Some(m),
            _ => Option::None,
        },
        Option::None => Option::None,
    }
}

/// The envelope's result member, when present and not null.
pub open spec fn envelope_result(w: JsonView) -> Option<JsonView> {
    match json_get(w, "result"@) {
        Option::None => Option::None,
        Option::Some(JsonView::Null) => Option::None,
        Option::Some(v) => Option::Some(v),
    }
}

/// What one inbound line means to the correlator.
pub enum ReplyScan {
    /// A blank keep-alive line; keep reading.
    Skip,
    /// The reply ends the request with this failure.
    Failed(McpError),
    /// The reply's result.
    Answer(JsonValue),
}

/// Classify one inbound line: skip it when blank, else the first parse
/// decides — a malformed line or envelope is a parse failure carrying the
/// raw line, an error envelope is the far end's failure, a result answers
/// the request, and a well-formed envelope with neither is the
/// empty-result failure.
pub fn scan_reply(line: &str) -> (r: ReplyScan)
    ensures
        spec_blank(line@) ==> r is Skip,
        !spec_blank(line@) ==> match parsed_json(line@) {
            Option::None => r matches ReplyScan::Failed(McpError::Parse(raw)) && raw@ == line@,
            Option::Some(w) => {
                if !envelope_ok(w) {
                    r matches ReplyScan::Failed(McpError::Parse(raw)) && raw@ == line@
                } else if envelope_error(w) is Some {
                    r matches ReplyScan::Failed(McpError::Protocol(m)) && Option::Some(m@)
                        == envelope_error(w)
                } else if envelope_result(w) is Some {
                    r matches ReplyScan::Answer(v) && Option::Some(v@) == envelope_result(w)
                } else {
                    r matches ReplyScan::Failed(McpError::EmptyResult)
                }
            },
        },
{
    if is_blank(line) {
        return ReplyScan::Skip;
    }
    let v = match parse_json(line) {
        Some(v) => v,
        None => {
            return ReplyScan::Failed(McpError::Parse(line.to_owned()));
        },
    };
    let jsonrpc_ok = match v.get("jsonrpc") {
        Some(x) => matches!(x, JsonValue::Str(_)),
        None => false,
    };
    if !jsonrpc_ok {
        return ReplyScan::Failed(McpError::Parse(line.to_owned()));
    }
    let id_ok = match v.get("id") {
        None => true,
        Some(JsonValue::Null) => true,
        Some(JsonValue::Int(i)) => *i >= 0,
        Some(_) => false,
    };
    if !id_ok {
        return ReplyScan::Failed(McpError::Parse(line.to_owned()));
    }
    match v.get("error") {
        None => (),
        Some(JsonValue::Null) => (),
        Some(e) => {
            let code_ok = match e.get("code") {
                Some(JsonValue::Int(_)) => true,
                _ => false,
            };
            if !code_ok {
                return ReplyScan::Failed(McpError::Parse(line.to_owned()));
            }
            match e.get("message") {
                Some(JsonValue::Str(m)) => {
                    return ReplyScan::Failed(McpError::Protocol(m.clone()));
                },
                _ => {
                    return ReplyScan::Failed(McpError::Parse(line.to_owned()));
                },
            }
        },
    }
    match v.get("result") {
        None => ReplyScan::Failed(McpError::EmptyResult),
        Some(JsonValue::Null) => ReplyScan::Failed(McpError::EmptyResult),
        Some(res) => ReplyScan::Answer(res.deep_copy()),
    }
}

} // verus!
