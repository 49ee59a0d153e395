//! The tool invocation layer: unwrapping a tool reply's nested payload and
//! the wrapped API's status convention.

use vstd::prelude::*;

use crate::error::McpError;
use crate::json::{json_get, parse_json, parsed_json, JsonValue, JsonView};

verus! {

/// The text of the first content block, when the reply wraps its output in
/// a content-block array whose first block carries string text.
pub open spec fn content_text(result: JsonView) -> Option<Seq<char>> {
    match json_get(result, "content"@) {
        Option::Some(JsonView::Arr(blocks)) => if blocks.len() > 0 {
            match json_get(blocks[0], "text"@) {
                Option::Some(JsonView::Str(t)) => Option::Some(t),
                _ => Option::None,
            }
        } else {
            Option::None
        },
        _ => Option::None,
    }
}

/// Unwrap a tool reply: when the reply carries a content block with text,
/// that text must parse as JSON — a caller of a tool always expects
/// structured output, so text that does not parse is a parse failure, not
/// a fallback value. A reply with no such block is handed back as it came.
pub fn decode_tool_reply(result: &JsonValue) -> (r: Result<JsonValue, McpError>)
    ensures
        match content_text(result@) {
            Option::Some(t) => match parsed_json(t) {
                Option::Some(w) => r matches Ok(v) && v@ == w,
                Option::None => r matches Err(McpError::Parse(raw)) && raw@ == t,
            },
            Option::None => r matches Ok(v) && v@ == result@,
        },
{
    if let Some(content) = result.get("content") {
        if let JsonValue::Arr(blocks) = content {
            if blocks.len() > 0 {
                proof {
                    crate::json::lemma_arr_reps(*blocks);
                }
                if let Some(JsonValue::Str(t)) = blocks[0].get("text") {
                    return match parse_json(t.as_str()) {
                        Some(v) => Ok(v),
                        None => Err(McpError::Parse(t.clone())),
                    };
                }
            }
        }
    }
    Ok(result.deep_copy())
}

/// The non-success status a wrapped reply carries, with its message (or
/// the unknown-error text when the message is missing).
pub open spec fn upstream_failure(result: JsonView) -> Option<(i64, Seq<char>)> {
    match json_get(result, "status"@) {
        Option::Some(JsonView::Int(code)) => if code != 200 {
            Option::Some((code, upstream_message(result)))
        } else {
            Option::None
        },
        _ => Option::None,
    }
}

/// The message member of a failed reply, or the unknown-error text.
pub open spec fn upstream_message(result: JsonView) -> Seq<char> {
    match json_get(result, "message"@) {
        Option::Some(JsonView::Str(m)) => m,
        _ => "Unknown error"@,
    }
}

/// Check the wrapped API's status: a reply with an integer `status` other
/// than 200 fails with that status and its message.
pub fn check_status(result: &JsonValue) -> (r: Result<(), McpError>)
    ensures
        match upstream_failure(result@) {
            Option::Some((code, m)) => r matches Err(McpError::UpstreamStatus(c, msg)) && c == code
                && msg@ == m,
            Option::None => r is Ok,
        },
{
    let code: i64 = match result.get("status") {
        Some(JsonValue::Int(c)) => *c,
        _ => {
            return Ok(());
        },
    };
    if code == 200 {
        return Ok(());
    }
    let msg = match result.get("message") {
        Some(JsonValue::Str(m)) => m.clone(),
        _ => String::from_str("Unknown error"),
    };
    Err(McpError::UpstreamStatus(code, msg))
}

} // verus!
