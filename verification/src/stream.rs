//! The normalized streaming vocabulary: whatever provider a stream comes
//! from, its decoder emits text fragments, completed tool invocations and
//! one terminal completion event.  Provider-specific shapes never escape
//! the decoders.

use vstd::prelude::*;
use vstd::string::StrSliceExecFns;

use crate::strutil::{spec_starts_with, str_eq, str_starts_with};

verus! {

/// A structured tool invocation reconstructed from a stream.  The input
/// arrives as accumulated raw JSON text; parsing it into a tree is left to
/// the consumer (malformed input degrades to an empty object there).
pub struct ToolUse {
    pub id: String,
    pub name: String,
    pub input_json: String,
}

/// The correlated outcome of one tool invocation.
pub struct ToolResult {
    pub tool_use_id: String,
    pub content: String,
    pub is_error: bool,
}

/// The normalized output of any provider stream.
pub enum StreamEvent {
    /// A text fragment, forwarded in arrival order.
    Chunk(String),
    /// A completed structured tool invocation.
    ToolUse(ToolUse),
    /// Stream completion, carrying the latched usage figures.
    Done { input_tokens: u64, output_tokens: u64 },
}

/// Mathematical model of a tool outcome.
#[verifier::ext_equal]
pub ghost struct ToolResultModel {
    pub tool_use_id: Seq<char>,
    pub content: Seq<char>,
    pub is_error: bool,
}

impl View for ToolResult {
    type V = ToolResultModel;

    open spec fn view(&self) -> ToolResultModel {
        ToolResultModel {
            tool_use_id: self.tool_use_id@,
            content: self.content@,
            is_error: self.is_error,
        }
    }
}

impl DeepView for ToolResult {
    type V = ToolResultModel;

    open spec fn deep_view(&self) -> ToolResultModel {
        self.view()
    }
}

/// Mathematical model of a tool invocation.
#[verifier::ext_equal]
pub ghost struct ToolUseModel {
    pub id: Seq<char>,
    pub name: Seq<char>,
    pub input_json: Seq<char>,
}

/// Mathematical model of a normalized stream event.
#[verifier::ext_equal]
pub ghost enum EventModel {
    Chunk(Seq<char>),
    ToolUse(ToolUseModel),
    Done { input_tokens: u64, output_tokens: u64 },
}

impl View for ToolUse {
    type V = ToolUseModel;

    open spec fn view(&self) -> ToolUseModel {
        ToolUseModel { id: self.id@, name: self.name@, input_json: self.input_json@ }
    }
}

impl DeepView for ToolUse {
    type V = ToolUseModel;

    open spec fn deep_view(&self) -> ToolUseModel {
        self.view()
    }
}

impl View for StreamEvent {
    type V = EventModel;

    open spec fn view(&self) -> EventModel {
        match self {
            StreamEvent::Chunk(s) => EventModel::Chunk(s@),
            StreamEvent::ToolUse(t) => EventModel::ToolUse(t@),
            StreamEvent::Done { input_tokens, output_tokens } => EventModel::Done {
                input_tokens: *input_tokens,
                output_tokens: *output_tokens,
            },
        }
    }
}

impl DeepView for StreamEvent {
    type V = EventModel;

    open spec fn deep_view(&self) -> EventModel {
        self.view()
    }
}

/// The payload of a server-sent-event line: what follows `"data: "`, or
/// nothing for any other line.
pub open spec fn spec_sse_payload(line: Seq<char>) -> Option<Seq<char>> {
    if spec_starts_with(line, "data: "@) {
        Some(line.subrange("data: "@.len() as int, line.len() as int))
    } else {
        None
    }
}

/// The sentinel payload that ends a stream.
pub open spec fn spec_done_sentinel() -> Seq<char> {
    "[DONE]"@
}

/// Extract the payload of a `"data: "` line.
pub fn sse_payload<'a>(line: &'a str) -> (r: Option<&'a str>)
    ensures
        r.deep_view() == spec_sse_payload(line@),
{
    proof {
        reveal_strlit("data: ");
    }
    if str_starts_with(line, "data: ") {
        let n = line.unicode_len();
        Some(line.substring_char(6, n))
    } else {
        None
    }
}

/// Is this payload the `[DONE]` sentinel?
pub fn is_done_sentinel(payload: &str) -> (r: bool)
    ensures
        r == (payload@ == spec_done_sentinel()),
{
    str_eq(payload, "[DONE]")
}

} // verus!
