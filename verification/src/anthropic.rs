//! Decoder for the block-structured provider dialect: server-sent
//! `data:` lines whose JSON events carry `content_block_start`,
//! `content_block_delta`, `content_block_stop`, `message_delta` and
//! `message_stop`.  At most one tool-call accumulator is open at a time; a
//! new start replaces any previous one, and a stop closes it into one
//! `ToolUse` event.  Usage figures are latched as they arrive and attached
//! to the terminal `Done` event.

use vstd::prelude::*;
use vstd::string::StrSliceExecFns;
use vstd::string::StringExecFns;

use crate::jsonio::{
    args_or_empty, json_tree_of, node_get, parse_json_tree, spec_args_or_empty, spec_node_get,
    spec_str_or_empty, spec_str_under, spec_u64_under, str_under, u64_under, JsonNode,
    JsonNodeModel,
};
use crate::stream::{
    is_done_sentinel, spec_done_sentinel, spec_sse_payload, sse_payload, EventModel, StreamEvent,
    ToolUse, ToolUseModel,
};
use crate::strutil::str_eq;

verus! {

broadcast use vstd::string::group_string_axioms;

/// OAuth-restricted operation supports only the legacy model line; alias
/// names are remapped to the nearest supported model id before sending.
pub fn map_model_for_oauth(model: &str) -> (r: &str)
    ensures
        (model@ == "opus-4-5"@ || model@ == "opus-4-5-latest"@ || model@
            == "sonnet-4-5"@ || model@ == "sonnet-4-5-latest"@) ==> r@
            == "sonnet-3-5-20241022"@,
        (model@ == "haiku-4-5"@ || model@ == "haiku-4-5-latest"@) ==> r@
            == "haiku-3-5-20241022"@,
        !(model@ == "opus-4-5"@ || model@ == "opus-4-5-latest"@ || model@
            == "sonnet-4-5"@ || model@ == "sonnet-4-5-latest"@ || model@
            == "haiku-4-5"@ || model@ == "haiku-4-5-latest"@) ==> r@ == model@,
{
    proof {
        reveal_strlit("opus-4-5");
        reveal_strlit("opus-4-5-latest");
        reveal_strlit("sonnet-4-5");
        reveal_strlit("sonnet-4-5-latest");
        reveal_strlit("haiku-4-5");
        reveal_strlit("haiku-4-5-latest");
        assert("opus-4-5"@.len() == 8);
        assert("opus-4-5-latest"@.len() == 15);
        assert("sonnet-4-5"@.len() == 10);
        assert("sonnet-4-5-latest"@.len() == 17);
        assert("haiku-4-5"@.len() == 9);
        assert("haiku-4-5-latest"@.len() == 16);
    }
    if str_eq(model, "opus-4-5") || str_eq(model, "opus-4-5-latest") || str_eq(
        model,
        "sonnet-4-5",
    ) || str_eq(model, "sonnet-4-5-latest") {
        "sonnet-3-5-20241022"
    } else if str_eq(model, "haiku-4-5") || str_eq(model, "haiku-4-5-latest") {
        "haiku-3-5-20241022"
    } else {
        model
    }
}

/// An OAuth access token is usable only until its expiry instant.
pub fn oauth_token_usable(expires_at_ms: u64, now_ms: u64) -> (r: bool)
    ensures
        r == (now_ms <= expires_at_ms),
{
    now_ms <= expires_at_ms
}

/// The OAuth-authenticated client: it holds the access token that the
/// caller read from the credential store, or nothing when no usable token
/// was found.
pub struct AnthropicClient {
    pub access_token: Option<String>,
}

impl AnthropicClient {
    /// Build a client around an already-loaded access token.
    pub fn new(access_token: Option<String>) -> (r: AnthropicClient)
        ensures
            r.access_token == access_token,
    {
        AnthropicClient { access_token }
    }
}

/// One decoded event frame of the dialect, reduced to what the state
/// machine reads.
pub enum AnthropicFrame {
    /// A `content_block_start` whose block is a tool use.
    BlockStartToolUse { id: String, name: String },
    /// A `text_delta`: forwarded at once as a `Chunk`.
    TextDelta(String),
    /// An `input_json_delta`: appended to the open accumulator.
    InputJsonDelta(String),
    /// A `content_block_stop`: closes the open accumulator.
    BlockStop,
    /// A `message_delta` with usage figures on the side.
    MessageDelta { input_tokens: Option<u64>, output_tokens: Option<u64> },
    /// A `message_stop`: the stream is over.
    MessageStop,
    /// Any other well-formed event: ignored.
    Other,
}

/// Mathematical model of a frame.
#[verifier::ext_equal]
pub ghost enum AnthropicFrameModel {
    BlockStartToolUse { id: Seq<char>, name: Seq<char> },
    TextDelta(Seq<char>),
    InputJsonDelta(Seq<char>),
    BlockStop,
    MessageDelta { input_tokens: Option<u64>, output_tokens: Option<u64> },
    MessageStop,
    Other,
}

impl View for AnthropicFrame {
    type V = AnthropicFrameModel;

    open spec fn view(&self) -> AnthropicFrameModel {
        match self {
            AnthropicFrame::BlockStartToolUse { id, name } => AnthropicFrameModel::BlockStartToolUse {
                id: id@,
                name: name@,
            },
            AnthropicFrame::TextDelta(t) => AnthropicFrameModel::TextDelta(t@),
            AnthropicFrame::InputJsonDelta(j) => AnthropicFrameModel::InputJsonDelta(j@),
            AnthropicFrame::BlockStop => AnthropicFrameModel::BlockStop,
            AnthropicFrame::MessageDelta { input_tokens, output_tokens } => {
                AnthropicFrameModel::MessageDelta {
                    input_tokens: *input_tokens,
                    output_tokens: *output_tokens,
                }
            },
            AnthropicFrame::MessageStop => AnthropicFrameModel::MessageStop,
            AnthropicFrame::Other => AnthropicFrameModel::Other,
        }
    }
}

impl DeepView for AnthropicFrame {
    type V = AnthropicFrameModel;

    open spec fn deep_view(&self) -> AnthropicFrameModel {
        self.view()
    }
}

/// The open tool-call accumulator: id, name, and the argument JSON built
/// up so far.
pub struct ToolAccum {
    pub id: String,
    pub name: String,
    pub args: String,
}

/// Mathematical model of an accumulator.
#[verifier::ext_equal]
pub ghost struct ToolAccumModel {
    pub id: Seq<char>,
    pub name: Seq<char>,
    pub args: Seq<char>,
}

impl View for ToolAccum {
    type V = ToolAccumModel;

    open spec fn view(&self) -> ToolAccumModel {
        ToolAccumModel { id: self.id@, name: self.name@, args: self.args@ }
    }
}

/// Decoder state: at most one open accumulator, the latched usage
/// figures, and whether a terminal line has been seen.
pub struct AnthropicAccum {
    pub current: Option<ToolAccum>,
    pub input_tokens: u64,
    pub output_tokens: u64,
    pub finished: bool,
}

/// Mathematical model of the decoder state.
#[verifier::ext_equal]
pub ghost struct AnthropicAccumModel {
    pub current: Option<ToolAccumModel>,
    pub input_tokens: u64,
    pub output_tokens: u64,
    pub finished: bool,
}

impl View for AnthropicAccum {
    type V = AnthropicAccumModel;

    open spec fn view(&self) -> AnthropicAccumModel {
        AnthropicAccumModel {
            current: match self.current {
                Some(t) => Some(t@),
                None => None,
            },
            input_tokens: self.input_tokens,
            output_tokens: self.output_tokens,
            finished: self.finished,
        }
    }
}

/// What one frame does to the decoder state, and the events it emits.
pub open spec fn anthropic_step_spec(st: AnthropicAccumModel, f: AnthropicFrameModel) -> (
    AnthropicAccumModel,
    Seq<EventModel>,
) {
    match f {
        AnthropicFrameModel::BlockStartToolUse { id, name } => (
            AnthropicAccumModel {
                current: Some(ToolAccumModel { id, name, args: Seq::empty() }),
                ..st
            },
            Seq::empty(),
        ),
        AnthropicFrameModel::TextDelta(t) => (st, seq![EventModel::Chunk(t)]),
        AnthropicFrameModel::InputJsonDelta(j) => match st.current {
            Some(acc) => (
                AnthropicAccumModel {
                    current: Some(ToolAccumModel { args: acc.args + j, ..acc }),
                    ..st
                },
                Seq::empty(),
            ),
            None => (st, Seq::empty()),
        },
        AnthropicFrameModel::BlockStop => match st.current {
            Some(acc) => (
                AnthropicAccumModel { current: None, ..st },
                seq![
                    EventModel::ToolUse(
                        ToolUseModel {
                            id: acc.id,
                            name: acc.name,
                            input_json: spec_args_or_empty(acc.args),
                        },
                    ),
                ],
            ),
            None => (st, Seq::empty()),
        },
        AnthropicFrameModel::MessageDelta { input_tokens, output_tokens } => (
            AnthropicAccumModel {
                input_tokens: match input_tokens {
                    Some(v) => v,
                    None => st.input_tokens,
                },
                output_tokens: match output_tokens {
                    Some(v) => v,
                    None => st.output_tokens,
                },
                ..st
            },
            Seq::empty(),
        ),
        AnthropicFrameModel::MessageStop => (AnthropicAccumModel { finished: true, ..st }, Seq::empty()),
        AnthropicFrameModel::Other => (st, Seq::empty()),
    }
}

/// The state and events after a whole sequence of frames.
pub open spec fn anthropic_run_spec(st: AnthropicAccumModel, fs: Seq<AnthropicFrameModel>) -> (
    AnthropicAccumModel,
    Seq<EventModel>,
)
    decreases fs.len(),
{
    if fs.len() == 0 {
        (st, Seq::empty())
    } else {
        let first = anthropic_step_spec(st, fs[0]);
        let rest = anthropic_run_spec(first.0, fs.drop_first());
        (rest.0, first.1 + rest.1)
    }
}

impl AnthropicAccum {
    /// A decoder ready for the first line of a stream.
    pub fn new() -> (r: AnthropicAccum)
        ensures
            r@ == (AnthropicAccumModel {
                current: None,
                input_tokens: 0,
                output_tokens: 0,
                finished: false,
            }),
    {
        AnthropicAccum { current: None, input_tokens: 0, output_tokens: 0, finished: false }
    }

    /// Apply one frame to the decoder state; the returned events are in
    /// emission order.
    pub fn step(&mut self, frame: AnthropicFrame) -> (r: Vec<StreamEvent>)
        ensures
            final(self)@ == anthropic_step_spec(old(self)@, frame@).0,
            r.deep_view() == anthropic_step_spec(old(self)@, frame@).1,
    {
        match frame {
            AnthropicFrame::BlockStartToolUse { id, name } => {
                self.current = Some(ToolAccum { id, name, args: String::new() });
                Vec::new()
            },
            AnthropicFrame::TextDelta(t) => {
                let mut evs: Vec<StreamEvent> = Vec::new();
                evs.push(StreamEvent::Chunk(t));
                proof {
                    assert(evs.deep_view() =~= anthropic_step_spec(old(self)@, frame@).1);
                }
                evs
            },
            AnthropicFrame::InputJsonDelta(j) => {
                let cur = self.current.take();
                match cur {
                    Some(mut acc) => {
                        acc.args.append(j.as_str());
                        self.current = Some(acc);
                    },
                    None => {},
                }
                Vec::new()
            },
            AnthropicFrame::BlockStop => {
                let cur = self.current.take();
                match cur {
                    Some(acc) => {
                        let input_json = args_or_empty(acc.args);
                        let mut evs: Vec<StreamEvent> = Vec::new();
                        evs.push(
                            StreamEvent::ToolUse(ToolUse { id: acc.id, name: acc.name, input_json }),
                        );
                        proof {
                            assert(evs.deep_view() =~= anthropic_step_spec(old(self)@, frame@).1);
                        }
                        evs
                    },
                    None => Vec::new(),
                }
            },
            AnthropicFrame::MessageDelta { input_tokens, output_tokens } => {
                if let Some(v) = input_tokens {
                    self.input_tokens = v;
                }
                if let Some(v) = output_tokens {
                    self.output_tokens = v;
                }
                Vec::new()
            },
            AnthropicFrame::MessageStop => {
                self.finished = true;
                Vec::new()
            },
            AnthropicFrame::Other => Vec::new(),
        }
    }

    /// The terminal event of a stream, carrying the latched usage figures.
    pub fn finish(&self) -> (r: StreamEvent)
        ensures
            r@ == (EventModel::Done {
                input_tokens: self.input_tokens,
                output_tokens: self.output_tokens,
            }),
    {
        StreamEvent::Done { input_tokens: self.input_tokens, output_tokens: self.output_tokens }
    }

    /// Decode one line of the stream.  Lines without a `data: ` prefix are
    /// skipped; the `[DONE]` sentinel ends the stream; any other payload
    /// is parsed as JSON and, when well formed, applied as one frame.
    pub fn decode_line(&mut self, line: &str) -> (r: Vec<StreamEvent>)
        ensures
            anthropic_decode_line_post(old(self)@, line@, final(self)@, r.deep_view()),
    {
        let ghost pre = self@;
        if self.finished {
            return Vec::new();
        }
        let payload = match sse_payload(line) {
            Some(p) => p,
            None => {
                return Vec::new();
            },
        };
        if is_done_sentinel(payload) {
            self.finished = true;
            return Vec::new();
        }
        match parse_anthropic_frame(payload) {
            Some(f) => self.step(f),
            None => Vec::new(),
        }
    }
}

/// What decoding one line does: a finished decoder and a non-data line
/// are no-ops, the sentinel marks the stream finished, a payload that is
/// not valid JSON is skipped, and any other payload is applied as
/// exactly the frame it determines.
pub open spec fn anthropic_decode_line_post(
    pre: AnthropicAccumModel,
    line: Seq<char>,
    post: AnthropicAccumModel,
    evs: Seq<EventModel>,
) -> bool {
    if pre.finished {
        post == pre && evs.len() == 0
    } else {
        match spec_sse_payload(line) {
            None => post == pre && evs.len() == 0,
            Some(p) => {
                if p == spec_done_sentinel() {
                    post == (AnthropicAccumModel { finished: true, ..pre }) && evs.len() == 0
                } else {
                    match spec_anthropic_payload_frame(p) {
                        None => post == pre && evs.len() == 0,
                        Some(f) => post == anthropic_step_spec(pre, f).0 && evs
                            == anthropic_step_spec(pre, f).1,
                    }
                }
            },
        }
    }
}

/// The frame a parsed payload tree reduces to: the event-type text
/// chooses the frame, and events the state machine does not read become
/// `Other`.  A tree without a text under `type` is no frame at all.
pub open spec fn spec_anthropic_frame(t: JsonNodeModel) -> Option<AnthropicFrameModel> {
    match spec_str_under(t, "type"@) {
        None => None,
        Some(ty) => Some(
            if ty == "content_block_start"@ {
                match spec_node_get(t, "content_block"@) {
                    Some(block) => {
                        if spec_str_under(block, "type"@) == Some("tool_use"@) {
                            AnthropicFrameModel::BlockStartToolUse {
                                id: spec_str_or_empty(block, "id"@),
                                name: spec_str_or_empty(block, "name"@),
                            }
                        } else {
                            AnthropicFrameModel::Other
                        }
                    },
                    None => AnthropicFrameModel::Other,
                }
            } else if ty == "content_block_delta"@ {
                match spec_node_get(t, "delta"@) {
                    Some(delta) => match spec_str_under(delta, "type"@) {
                        Some(dt) => if dt == "text_delta"@ {
                            match spec_str_under(delta, "text"@) {
                                Some(tx) => AnthropicFrameModel::TextDelta(tx),
                                None => AnthropicFrameModel::Other,
                            }
                        } else if dt == "input_json_delta"@ {
                            match spec_str_under(delta, "partial_json"@) {
                                Some(j) => AnthropicFrameModel::InputJsonDelta(j),
                                None => AnthropicFrameModel::Other,
                            }
                        } else {
                            AnthropicFrameModel::Other
                        },
                        None => AnthropicFrameModel::Other,
                    },
                    None => AnthropicFrameModel::Other,
                }
            } else if ty == "content_block_stop"@ {
                AnthropicFrameModel::BlockStop
            } else if ty == "message_delta"@ {
                match spec_node_get(t, "usage"@) {
                    Some(u) => AnthropicFrameModel::MessageDelta {
                        input_tokens: spec_u64_under(u, "input_tokens"@),
                        output_tokens: spec_u64_under(u, "output_tokens"@),
                    },
                    None => AnthropicFrameModel::MessageDelta {
                        input_tokens: None,
                        output_tokens: None,
                    },
                }
            } else if ty == "message_stop"@ {
                AnthropicFrameModel::MessageStop
            } else {
                AnthropicFrameModel::Other
            },
        ),
    }
}

/// The frame a raw payload determines: nothing for invalid JSON, else
/// what its tree reduces to.
pub open spec fn spec_anthropic_payload_frame(s: Seq<char>) -> Option<AnthropicFrameModel> {
    match json_tree_of(s) {
        None => None,
        Some(t) => spec_anthropic_frame(t),
    }
}

/// Reduce one payload of the dialect to its frame: exactly the frame
/// its parsed tree determines, and no frame for invalid JSON.
fn parse_anthropic_frame(payload: &str) -> (r: Option<AnthropicFrame>)
    ensures
        r.deep_view() == spec_anthropic_payload_frame(payload@),
{
    let t = match parse_json_tree(payload) {
        Some(t) => t,
        None => {
            return None;
        },
    };
    let event_type = match str_under(&t, "type") {
        Some(s) => s,
        None => {
            return None;
        },
    };
    if str_eq(event_type, "content_block_start") {
        let frame = match node_get(&t, "content_block") {
            Some(block) => {
                let is_tool = match str_under(block, "type") {
                    Some(s) => str_eq(s, "tool_use"),
                    None => false,
                };
                if is_tool {
                    let id = match str_under(block, "id") {
                        Some(s) => s.to_owned(),
                        None => String::new(),
                    };
                    let name = match str_under(block, "name") {
                        Some(s) => s.to_owned(),
                        None => String::new(),
                    };
                    AnthropicFrame::BlockStartToolUse { id, name }
                } else {
                    AnthropicFrame::Other
                }
            },
            None => AnthropicFrame::Other,
        };
        Some(frame)
    } else if str_eq(event_type, "content_block_delta") {
        let frame = match node_get(&t, "delta") {
            Some(delta) => match str_under(delta, "type") {
                Some(delta_type) => {
                    if str_eq(delta_type, "text_delta") {
                        match str_under(delta, "text") {
                            Some(tx) => AnthropicFrame::TextDelta(tx.to_owned()),
                            None => AnthropicFrame::Other,
                        }
                    } else if str_eq(delta_type, "input_json_delta") {
                        match str_under(delta, "partial_json") {
                            Some(j) => AnthropicFrame::InputJsonDelta(j.to_owned()),
                            None => AnthropicFrame::Other,
                        }
                    } else {
                        AnthropicFrame::Other
                    }
                },
                None => AnthropicFrame::Other,
            },
            None => AnthropicFrame::Other,
        };
        Some(frame)
    } else if str_eq(event_type, "content_block_stop") {
        Some(AnthropicFrame::BlockStop)
    } else if str_eq(event_type, "message_delta") {
        let frame = match node_get(&t, "usage") {
            Some(u) => AnthropicFrame::MessageDelta {
                input_tokens: u64_under(u, "input_tokens"),
                output_tokens: u64_under(u, "output_tokens"),
            },
            None => AnthropicFrame::MessageDelta { input_tokens: None, output_tokens: None },
        };
        Some(frame)
    } else if str_eq(event_type, "message_stop") {
        Some(AnthropicFrame::MessageStop)
    } else {
        Some(AnthropicFrame::Other)
    }
}

/// Law: a stream that interleaves text deltas with one tool call — start,
/// three argument deltas, stop — yields its `Chunk`s in order and then
/// exactly one `ToolUse` holding the concatenation of the three argument
/// deltas, degraded to the empty object when that concatenation is not
/// valid JSON.
pub proof fn lemma_single_tool_call_stream(
    st: AnthropicAccumModel,
    id: Seq<char>,
    name: Seq<char>,
    t1: Seq<char>,
    t2: Seq<char>,
    a1: Seq<char>,
    a2: Seq<char>,
    a3: Seq<char>,
)
    ensures
        ({
            let fs = seq![
                AnthropicFrameModel::TextDelta(t1),
                AnthropicFrameModel::BlockStartToolUse { id, name },
                AnthropicFrameModel::InputJsonDelta(a1),
                AnthropicFrameModel::TextDelta(t2),
                AnthropicFrameModel::InputJsonDelta(a2),
                AnthropicFrameModel::InputJsonDelta(a3),
                AnthropicFrameModel::BlockStop,
            ];
            anthropic_run_spec(st, fs).1 =~~= seq![
                EventModel::Chunk(t1),
                EventModel::Chunk(t2),
                EventModel::ToolUse(
                    ToolUseModel { id, name, input_json: spec_args_or_empty(a1 + a2 + a3) },
                ),
            ]
        }),
{
    let fs = seq![
        AnthropicFrameModel::TextDelta(t1),
        AnthropicFrameModel::BlockStartToolUse { id, name },
        AnthropicFrameModel::InputJsonDelta(a1),
        AnthropicFrameModel::TextDelta(t2),
        AnthropicFrameModel::InputJsonDelta(a2),
        AnthropicFrameModel::InputJsonDelta(a3),
        AnthropicFrameModel::BlockStop,
    ];
    let r0 = anthropic_step_spec(st, fs[0]);
    let fs1 = fs.drop_first();
    let r1 = anthropic_step_spec(r0.0, fs1[0]);
    let fs2 = fs1.drop_first();
    let r2 = anthropic_step_spec(r1.0, fs2[0]);
    let fs3 = fs2.drop_first();
    let r3 = anthropic_step_spec(r2.0, fs3[0]);
    let fs4 = fs3.drop_first();
    let r4 = anthropic_step_spec(r3.0, fs4[0]);
    let fs5 = fs4.drop_first();
    let r5 = anthropic_step_spec(r4.0, fs5[0]);
    let fs6 = fs5.drop_first();
    let r6 = anthropic_step_spec(r5.0, fs6[0]);
    let fs7 = fs6.drop_first();
    assert(fs7 =~= Seq::<AnthropicFrameModel>::empty());
    assert(anthropic_run_spec(r6.0, fs7).1 == Seq::<EventModel>::empty());
    assert(anthropic_run_spec(st, fs).1 == r0.1 + anthropic_run_spec(r0.0, fs1).1);
    assert(anthropic_run_spec(r0.0, fs1).1 == r1.1 + anthropic_run_spec(r1.0, fs2).1);
    assert(anthropic_run_spec(r1.0, fs2).1 == r2.1 + anthropic_run_spec(r2.0, fs3).1);
    assert(anthropic_run_spec(r2.0, fs3).1 == r3.1 + anthropic_run_spec(r3.0, fs4).1);
    assert(anthropic_run_spec(r3.0, fs4).1 == r4.1 + anthropic_run_spec(r4.0, fs5).1);
    assert(anthropic_run_spec(r4.0, fs5).1 == r5.1 + anthropic_run_spec(r5.0, fs6).1);
    assert(anthropic_run_spec(r5.0, fs6).1 == r6.1 + anthropic_run_spec(r6.0, fs7).1);
    assert(Seq::<char>::empty() + a1 =~= a1);
    assert((Seq::<char>::empty() + a1) + a2 + a3 == a1 + a2 + a3);
    assert(anthropic_run_spec(st, fs).1 =~~= seq![
        EventModel::Chunk(t1),
        EventModel::Chunk(t2),
        EventModel::ToolUse(
            ToolUseModel { id, name, input_json: spec_args_or_empty(a1 + a2 + a3) },
        ),
    ]);
}

/// Law: no frame but a `content_block_stop` can emit a `ToolUse`, so an
/// accumulator that is never closed yields none — at stream end a partial
/// tool call is discarded, not surfaced.
pub proof fn lemma_unflushed_tool_call_emits_nothing(
    st: AnthropicAccumModel,
    fs: Seq<AnthropicFrameModel>,
)
    requires
        forall|i: int| 0 <= i < fs.len() ==> !(#[trigger] fs[i] is BlockStop),
    ensures
        forall|i: int|
            0 <= i < anthropic_run_spec(st, fs).1.len() ==> !(#[trigger] anthropic_run_spec(
                st,
                fs,
            ).1[i] is ToolUse),
    decreases fs.len(),
{
    if fs.len() > 0 {
        let first = anthropic_step_spec(st, fs[0]);
        assert(!(fs[0] is BlockStop));
        lemma_unflushed_tool_call_emits_nothing(first.0, fs.drop_first());
        assert forall|i: int|
            0 <= i < anthropic_run_spec(st, fs).1.len() implies !(#[trigger] anthropic_run_spec(
            st,
            fs,
        ).1[i] is ToolUse) by {
            let rest = anthropic_run_spec(first.0, fs.drop_first());
            if i >= first.1.len() {
                assert(anthropic_run_spec(st, fs).1[i] == rest.1[i - first.1.len()]);
            }
        }
    }
}


/// The outcome of the three-probe connectivity check.
pub struct ApiCheckResult {
    pub auth_ok: bool,
    pub streaming_ok: bool,
    pub tools_ok: bool,
    pub error: Option<String>,
}

impl ApiCheckResult {
    /// The check when no usable access token was found: nothing probed.
    pub fn missing_token() -> (r: ApiCheckResult)
        ensures
            !r.auth_ok,
            !r.streaming_ok,
            !r.tools_ok,
            r.error matches Some(e) && e@ == "OAuth token not found or expired"@,
    {
        ApiCheckResult {
            auth_ok: false,
            streaming_ok: false,
            tools_ok: false,
            error: Some(String::from_str("OAuth token not found or expired")),
        }
    }

    /// The check when the plain-completion probe failed: the remaining
    /// probes are not attempted, and the probe's own words are kept when
    /// it gave any.
    pub fn auth_failed(error: Option<String>) -> (r: ApiCheckResult)
        ensures
            !r.auth_ok,
            !r.streaming_ok,
            !r.tools_ok,
            ({
                match error {
                    Some(e) => r.error matches Some(re) && re == e,
                    None => r.error matches Some(re) && re@ == "Auth failed"@,
                }
            }),
    {
        let e = match error {
            Some(e) => e,
            None => String::from_str("Auth failed"),
        };
        ApiCheckResult { auth_ok: false, streaming_ok: false, tools_ok: false, error: Some(e) }
    }

    /// The check when authentication succeeded: the streaming and
    /// tool-call probe outcomes stand on their own, and no error is
    /// reported.
    pub fn after_auth(streaming_ok: bool, tools_ok: bool) -> (r: ApiCheckResult)
        ensures
            r.auth_ok,
            r.streaming_ok == streaming_ok,
            r.tools_ok == tools_ok,
            r.error is None,
    {
        ApiCheckResult { auth_ok: true, streaming_ok, tools_ok, error: None }
    }
}

} // verus!
