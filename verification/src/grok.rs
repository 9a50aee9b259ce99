//! Decoder for the chat-completions provider dialect: server-sent `data:`
//! lines whose JSON carries `choices[].delta.{content,tool_calls}` and a
//! side-channel `usage` object, ending on a literal `[DONE]` line.
//! Several tool-call slots may be open at once, addressed by integer
//! index; argument deltas accumulate per slot, and a `finish_reason`
//! flushes every open slot that has both an id and a name, in the order
//! the slots were opened.

use vstd::prelude::*;
use vstd::string::StrSliceExecFns;

use crate::jsonio::{
    args_or_empty, json_tree_of, node_get, node_list, parse_json_tree, spec_args_or_empty,
    spec_node_get, spec_str_under, spec_u64_under, str_under, u64_under, JsonNode, JsonNodeModel,
};
use crate::stream::{
    is_done_sentinel, spec_done_sentinel, spec_sse_payload, sse_payload, EventModel, StreamEvent,
    ToolUse, ToolUseModel,
};

verus! {

/// The chat-completions client: it holds the API key the caller read from
/// the environment, or nothing when none was set.
pub struct GrokClient {
    pub api_key: Option<String>,
}

impl GrokClient {
    /// Build a client around an already-loaded API key.
    pub fn new(api_key: Option<String>) -> (r: GrokClient)
        ensures
            r.api_key == api_key,
    {
        GrokClient { api_key }
    }
}

/// One tool-call fragment inside a delta, addressed to one slot.
pub struct GrokCallDelta {
    pub index: u64,
    pub id: Option<String>,
    pub name: Option<String>,
    pub arguments: Option<String>,
}

/// One choice of a frame: an optional text delta, tool-call fragments,
/// and whether a finish reason arrived.
pub struct GrokChoice {
    pub content: Option<String>,
    pub tool_calls: Vec<GrokCallDelta>,
    pub finished: bool,
}

/// One decoded frame: latched usage figures and the choices, in order.
pub struct GrokFrame {
    pub input_tokens: Option<u64>,
    pub output_tokens: Option<u64>,
    pub choices: Vec<GrokChoice>,
}

/// Mathematical model of a tool-call fragment.
#[verifier::ext_equal]
pub ghost struct GrokCallDeltaModel {
    pub index: u64,
    pub id: Option<Seq<char>>,
    pub name: Option<Seq<char>>,
    pub arguments: Option<Seq<char>>,
}

/// Mathematical model of a choice.
#[verifier::ext_equal]
pub ghost struct GrokChoiceModel {
    pub content: Option<Seq<char>>,
    pub tool_calls: Seq<GrokCallDeltaModel>,
    pub finished: bool,
}

/// Mathematical model of a frame.
#[verifier::ext_equal]
pub ghost struct GrokFrameModel {
    pub input_tokens: Option<u64>,
    pub output_tokens: Option<u64>,
    pub choices: Seq<GrokChoiceModel>,
}

impl View for GrokCallDelta {
    type V = GrokCallDeltaModel;

    open spec fn view(&self) -> GrokCallDeltaModel {
        GrokCallDeltaModel {
            index: self.index,
            id: match self.id {
                Some(ref s) => Some(s@),
                None => None,
            },
            name: match self.name {
                Some(ref s) => Some(s@),
                None => None,
            },
            arguments: match self.arguments {
                Some(ref s) => Some(s@),
                None => None,
            },
        }
    }
}

impl DeepView for GrokCallDelta {
    type V = GrokCallDeltaModel;

    open spec fn deep_view(&self) -> GrokCallDeltaModel {
        self.view()
    }
}

impl View for GrokChoice {
    type V = GrokChoiceModel;

    open spec fn view(&self) -> GrokChoiceModel {
        GrokChoiceModel {
            content: match self.content {
                Some(ref s) => Some(s@),
                None => None,
            },
            tool_calls: self.tool_calls.deep_view(),
            finished: self.finished,
        }
    }
}

impl DeepView for GrokChoice {
    type V = GrokChoiceModel;

    open spec fn deep_view(&self) -> GrokChoiceModel {
        self.view()
    }
}

impl View for GrokFrame {
    type V = GrokFrameModel;

    open spec fn view(&self) -> GrokFrameModel {
        GrokFrameModel {
            input_tokens: self.input_tokens,
            output_tokens: self.output_tokens,
            choices: self.choices.deep_view(),
        }
    }
}

impl DeepView for GrokFrame {
    type V = GrokFrameModel;

    open spec fn deep_view(&self) -> GrokFrameModel {
        self.view()
    }
}

/// One open tool-call slot: the addressed index, the id and name seen so
/// far, and the accumulated argument JSON.
pub struct GrokSlot {
    pub index: u64,
    pub id: String,
    pub name: String,
    pub args: String,
}

/// Mathematical model of a slot.
#[verifier::ext_equal]
pub ghost struct GrokSlotModel {
    pub index: u64,
    pub id: Seq<char>,
    pub name: Seq<char>,
    pub args: Seq<char>,
}

impl View for GrokSlot {
    type V = GrokSlotModel;

    open spec fn view(&self) -> GrokSlotModel {
        GrokSlotModel { index: self.index, id: self.id@, name: self.name@, args: self.args@ }
    }
}

impl DeepView for GrokSlot {
    type V = GrokSlotModel;

    open spec fn deep_view(&self) -> GrokSlotModel {
        self.view()
    }
}

/// Decoder state: the open slots in the order they were opened, the
/// latched usage figures, and whether the sentinel has been seen.
pub struct GrokAccum {
    pub slots: Vec<GrokSlot>,
    pub input_tokens: u64,
    pub output_tokens: u64,
    pub finished: bool,
}

/// Mathematical model of the decoder state.
#[verifier::ext_equal]
pub ghost struct GrokAccumModel {
    pub slots: Seq<GrokSlotModel>,
    pub input_tokens: u64,
    pub output_tokens: u64,
    pub finished: bool,
}

impl View for GrokAccum {
    type V = GrokAccumModel;

    open spec fn view(&self) -> GrokAccumModel {
        GrokAccumModel {
            slots: self.slots.deep_view(),
            input_tokens: self.input_tokens,
            output_tokens: self.output_tokens,
            finished: self.finished,
        }
    }
}

/// Position of the first slot with the given index, or -1.
pub open spec fn spec_find_slot(slots: Seq<GrokSlotModel>, idx: u64) -> int
    decreases slots.len(),
{
    if slots.len() == 0 {
        -1
    } else if slots[0].index == idx {
        0
    } else {
        let r = spec_find_slot(slots.drop_first(), idx);
        if r < 0 {
            -1
        } else {
            1 + r
        }
    }
}

/// How `spec_find_slot` behaves: -1 exactly when no slot matches, else
/// the first matching position.
pub proof fn lemma_find_slot(slots: Seq<GrokSlotModel>, idx: u64)
    ensures
        spec_find_slot(slots, idx) == -1 ==> (forall|j: int|
            0 <= j < slots.len() ==> (#[trigger] slots[j].index) != idx),
        spec_find_slot(slots, idx) != -1 ==> 0 <= spec_find_slot(slots, idx) < slots.len()
            && slots[spec_find_slot(slots, idx)].index == idx && (forall|j: int|
            0 <= j < spec_find_slot(slots, idx) ==> (#[trigger] slots[j].index) != idx),
        forall|j: int|
            0 <= j < slots.len() && (#[trigger] slots[j].index) == idx ==> spec_find_slot(
                slots,
                idx,
            ) != -1,
    decreases slots.len(),
{
    if slots.len() > 0 && slots[0].index != idx {
        lemma_find_slot(slots.drop_first(), idx);
        if spec_find_slot(slots, idx) == -1 {
            assert forall|j: int| 0 <= j < slots.len() implies (#[trigger] slots[j].index)
                != idx by {
                if j > 0 {
                    assert(slots.drop_first()[j - 1].index != idx);
                }
            }
        }
        if spec_find_slot(slots, idx) != -1 {
            let r = spec_find_slot(slots.drop_first(), idx);
            assert(slots[1 + r] == slots.drop_first()[r]);
            assert forall|j: int| 0 <= j < 1 + r implies (#[trigger] slots[j].index) != idx by {
                if j > 0 {
                    assert(slots.drop_first()[j - 1].index != idx);
                }
            }
        }
        assert forall|j: int|
            0 <= j < slots.len() && (#[trigger] slots[j].index) == idx implies spec_find_slot(
            slots,
            idx,
        ) != -1 by {
            if j > 0 {
                assert(slots.drop_first()[j - 1].index == idx);
            }
        }
    }
}

/// Apply one tool-call fragment: open the addressed slot if it is new,
/// then overwrite its id and name from the fragment and append its
/// argument delta.
pub open spec fn spec_apply_call(slots: Seq<GrokSlotModel>, c: GrokCallDeltaModel) -> Seq<
    GrokSlotModel,
> {
    let p = spec_find_slot(slots, c.index);
    let base = if p < 0 {
        slots.push(
            GrokSlotModel {
                index: c.index,
                id: Seq::empty(),
                name: Seq::empty(),
                args: Seq::empty(),
            },
        )
    } else {
        slots
    };
    let q = if p < 0 {
        slots.len() as int
    } else {
        p
    };
    let s = base[q];
    base.update(
        q,
        GrokSlotModel {
            index: s.index,
            id: match c.id {
                Some(i) => i,
                None => s.id,
            },
            name: match c.name {
                Some(n) => n,
                None => s.name,
            },
            args: match c.arguments {
                Some(a) => s.args + a,
                None => s.args,
            },
        },
    )
}

/// Apply a choice's tool-call fragments in order.
pub open spec fn spec_apply_calls(
    slots: Seq<GrokSlotModel>,
    calls: Seq<GrokCallDeltaModel>,
) -> Seq<GrokSlotModel>
    decreases calls.len(),
{
    if calls.len() == 0 {
        slots
    } else {
        spec_apply_calls(spec_apply_call(slots, calls[0]), calls.drop_first())
    }
}

/// The `ToolUse` events a flush emits: one per open slot that has both an
/// id and a name, in slot order, with arguments that are not valid JSON
/// degraded to the empty object.
pub open spec fn spec_flush_events(slots: Seq<GrokSlotModel>) -> Seq<EventModel>
    decreases slots.len(),
{
    if slots.len() == 0 {
        Seq::empty()
    } else {
        let head = if slots[0].id.len() > 0 && slots[0].name.len() > 0 {
            seq![
                EventModel::ToolUse(
                    ToolUseModel {
                        id: slots[0].id,
                        name: slots[0].name,
                        input_json: spec_args_or_empty(slots[0].args),
                    },
                ),
            ]
        } else {
            Seq::<EventModel>::empty()
        };
        head + spec_flush_events(slots.drop_first())
    }
}

/// What one choice does: forward a non-empty text delta as a `Chunk`,
/// fold its tool-call fragments into the slots, and on a finish reason
/// flush and clear all slots.
pub open spec fn spec_step_choice(st: GrokAccumModel, ch: GrokChoiceModel) -> (
    GrokAccumModel,
    Seq<EventModel>,
) {
    let chunk = match ch.content {
        Some(c) => if c.len() > 0 {
            seq![EventModel::Chunk(c)]
        } else {
            Seq::<EventModel>::empty()
        },
        None => Seq::<EventModel>::empty(),
    };
    let slots1 = spec_apply_calls(st.slots, ch.tool_calls);
    if ch.finished {
        (
            GrokAccumModel { slots: Seq::empty(), ..st },
            chunk + spec_flush_events(slots1),
        )
    } else {
        (GrokAccumModel { slots: slots1, ..st }, chunk)
    }
}

/// Fold a frame's choices in order.
pub open spec fn spec_step_choices(st: GrokAccumModel, chs: Seq<GrokChoiceModel>) -> (
    GrokAccumModel,
    Seq<EventModel>,
)
    decreases chs.len(),
{
    if chs.len() == 0 {
        (st, Seq::empty())
    } else {
        let first = spec_step_choice(st, chs[0]);
        let rest = spec_step_choices(first.0, chs.drop_first());
        (rest.0, first.1 + rest.1)
    }
}

/// What one frame does: latch the usage figures, then fold the choices.
pub open spec fn grok_step_spec(st: GrokAccumModel, f: GrokFrameModel) -> (
    GrokAccumModel,
    Seq<EventModel>,
) {
    let st1 = GrokAccumModel {
        input_tokens: match f.input_tokens {
            Some(v) => v,
            None => st.input_tokens,
        },
        output_tokens: match f.output_tokens {
            Some(v) => v,
            None => st.output_tokens,
        },
        ..st
    };
    spec_step_choices(st1, f.choices)
}

/// The state and events after a whole sequence of frames.
pub open spec fn grok_run_spec(st: GrokAccumModel, fs: Seq<GrokFrameModel>) -> (
    GrokAccumModel,
    Seq<EventModel>,
)
    decreases fs.len(),
{
    if fs.len() == 0 {
        (st, Seq::empty())
    } else {
        let first = grok_step_spec(st, fs[0]);
        let rest = grok_run_spec(first.0, fs.drop_first());
        (rest.0, first.1 + rest.1)
    }
}

/// Find the slot a fragment addresses.
fn find_slot_exec(slots: &Vec<GrokSlot>, idx: u64) -> (r: Option<usize>)
    ensures
        ({
            let p = spec_find_slot(slots.deep_view(), idx);
            match r {
                Some(k) => p == k as int && k < slots@.len(),
                None => p == -1,
            }
        }),
{
    let n = slots.len();
    let mut k: usize = 0;
    while k < n
        invariant
            k <= n,
            n == slots@.len(),
            n == slots.deep_view().len(),
            forall|j: int| 0 <= j < k ==> (#[trigger] slots.deep_view()[j].index) != idx,
        decreases n - k,
    {
        if slots[k].index == idx {
            proof {
                let dv = slots.deep_view();
                lemma_find_slot(dv, idx);
                let p = spec_find_slot(dv, idx);
                assert(dv[k as int].index == idx);
                assert(p != -1);
                if p < k as int {
                    assert(dv[p].index == idx);
                }
                if p > k as int {
                    assert(dv[k as int].index != idx);
                }
            }
            return Some(k);
        }
        k = k + 1;
    }
    proof {
        lemma_find_slot(slots.deep_view(), idx);
    }
    None
}

/// Apply one tool-call fragment to the open slots.
fn apply_call_exec(slots: &mut Vec<GrokSlot>, call: &GrokCallDelta)
    ensures
        final(slots).deep_view() == spec_apply_call(old(slots).deep_view(), call@),
{
    let ghost pre = slots.deep_view();
    let pos: usize = match find_slot_exec(slots, call.index) {
        Some(k) => k,
        None => {
            slots.push(
                GrokSlot { index: call.index, id: String::new(), name: String::new(), args: String::new() },
            );
            proof {
                assert(slots.deep_view() =~= pre.push(
                    GrokSlotModel {
                        index: call.index,
                        id: Seq::empty(),
                        name: Seq::empty(),
                        args: Seq::empty(),
                    },
                ));
            }
            slots.len() - 1
        },
    };
    let ghost base = slots.deep_view();
    let id = match &call.id {
        Some(i) => i.clone(),
        None => slots[pos].id.clone(),
    };
    let name = match &call.name {
        Some(n) => n.clone(),
        None => slots[pos].name.clone(),
    };
    let args = match &call.arguments {
        Some(a) => crate::strutil::str_concat(slots[pos].args.as_str(), a.as_str()),
        None => slots[pos].args.clone(),
    };
    let index = slots[pos].index;
    let new_slot = GrokSlot { index, id, name, args };
    let ghost nsm = new_slot@;
    slots[pos] = new_slot;
    proof {
        assert(slots.deep_view() =~= base.update(pos as int, nsm));
    }
}

/// Emit the flush events for the open slots.
fn flush_slots(slots: &Vec<GrokSlot>) -> (r: Vec<StreamEvent>)
    ensures
        r.deep_view() == spec_flush_events(slots.deep_view()),
{
    let ghost all = slots.deep_view();
    let n = slots.len();
    let mut evs: Vec<StreamEvent> = Vec::new();
    let mut k: usize = 0;
    proof {
        assert(all.subrange(0, n as int) =~= all);
        assert(Seq::<EventModel>::empty() + spec_flush_events(all) =~= spec_flush_events(all));
    }
    while k < n
        invariant
            k <= n,
            n == slots@.len(),
            all == slots.deep_view(),
            all.len() == n,
            evs.deep_view() + spec_flush_events(all.subrange(k as int, n as int))
                == spec_flush_events(all),
        decreases n - k,
    {
        let ghost restk = all.subrange(k as int, n as int);
        proof {
            assert(restk[0] == all[k as int]);
            assert(restk.drop_first() =~= all.subrange(k + 1, n as int));
        }
        let ghost pre_evs = evs.deep_view();
        if slots[k].id.unicode_len() > 0 && slots[k].name.unicode_len() > 0 {
            let input_json = args_or_empty(slots[k].args.clone());
            evs.push(
                StreamEvent::ToolUse(
                    ToolUse { id: slots[k].id.clone(), name: slots[k].name.clone(), input_json },
                ),
            );
            proof {
                let ev = EventModel::ToolUse(
                    ToolUseModel {
                        id: all[k as int].id,
                        name: all[k as int].name,
                        input_json: spec_args_or_empty(all[k as int].args),
                    },
                );
                assert(evs.deep_view() =~= pre_evs.push(ev));
                assert(pre_evs.push(ev) + spec_flush_events(all.subrange(k + 1, n as int)) =~= pre_evs
                    + (seq![ev] + spec_flush_events(all.subrange(k + 1, n as int))));
            }
        } else {
            proof {
                assert(Seq::<EventModel>::empty() + spec_flush_events(
                    all.subrange(k + 1, n as int),
                ) =~= spec_flush_events(all.subrange(k + 1, n as int)));
            }
        }
        k = k + 1;
    }
    proof {
        assert(all.subrange(n as int, n as int) =~= Seq::<GrokSlotModel>::empty());
        assert(evs.deep_view() + Seq::<EventModel>::empty() =~= evs.deep_view());
    }
    evs
}

impl GrokAccum {
    /// A decoder ready for the first line of a stream.
    pub fn new() -> (r: GrokAccum)
        ensures
            r@ == (GrokAccumModel {
                slots: Seq::empty(),
                input_tokens: 0,
                output_tokens: 0,
                finished: false,
            }),
    {
        let r = GrokAccum { slots: Vec::new(), input_tokens: 0, output_tokens: 0, finished: false };
        proof {
            assert(r@.slots =~= Seq::<GrokSlotModel>::empty());
        }
        r
    }

    /// Apply one frame to the decoder state; the returned events are in
    /// emission order.
    pub fn step(&mut self, frame: GrokFrame) -> (r: Vec<StreamEvent>)
        ensures
            final(self)@ == grok_step_spec(old(self)@, frame@).0,
            r.deep_view() == grok_step_spec(old(self)@, frame@).1,
    {
        if let Some(v) = frame.input_tokens {
            self.input_tokens = v;
        }
        if let Some(v) = frame.output_tokens {
            self.output_tokens = v;
        }
        let ghost st1 = self@;
        let ghost chsm = frame.choices.deep_view();
        let ghost total = spec_step_choices(st1, chsm);
        proof {
            assert(chsm.subrange(0, chsm.len() as int) =~= chsm);
            assert(Seq::<EventModel>::empty() + total.1 =~= total.1);
        }
        let mut evs: Vec<StreamEvent> = Vec::new();
        let nch = frame.choices.len();
        let mut i: usize = 0;
        while i < nch
            invariant
                i <= nch,
                nch == frame.choices@.len(),
                chsm == frame.choices.deep_view(),
                chsm.len() == nch,
                self@.input_tokens == st1.input_tokens,
                self@.output_tokens == st1.output_tokens,
                self@.finished == st1.finished,
                total == spec_step_choices(st1, chsm),
                spec_step_choices(self@, chsm.subrange(i as int, nch as int)).0 == total.0,
                evs.deep_view() + spec_step_choices(
                    self@,
                    chsm.subrange(i as int, nch as int),
                ).1 == total.1,
            decreases nch - i,
        {
            let ghost st_i = self@;
            let ghost resti = chsm.subrange(i as int, nch as int);
            let ghost this_step = spec_step_choice(st_i, chsm[i as int]);
            proof {
                assert(resti[0] == chsm[i as int]);
                assert(resti.drop_first() =~= chsm.subrange(i + 1, nch as int));
            }
            let ghost pre_evs = evs.deep_view();
            let ch = &frame.choices[i];
            proof {
                assert(ch@ == chsm[i as int]);
            }
            // text delta
            let ghost chunk_evs = evs.deep_view();
            match &ch.content {
                Some(c) => {
                    if !c.as_str().is_empty() {
                        evs.push(StreamEvent::Chunk(c.clone()));
                        proof {
                            assert(evs.deep_view() =~= pre_evs.push(
                                EventModel::Chunk(chsm[i as int].content->Some_0),
                            ));
                        }
                    }
                },
                None => {},
            }
            let ghost after_chunk = evs.deep_view();
            // tool-call fragments
            let ghost callsm = chsm[i as int].tool_calls;
            let ghost slots_start = self@.slots;
            let ncalls = ch.tool_calls.len();
            let mut j: usize = 0;
            proof {
                assert(callsm.subrange(0, callsm.len() as int) =~= callsm);
            }
            while j < ncalls
                invariant
                    j <= ncalls,
                    ncalls == ch.tool_calls@.len(),
                    callsm == ch.tool_calls.deep_view(),
                    callsm.len() == ncalls,
                    self@.input_tokens == st_i.input_tokens,
                    self@.output_tokens == st_i.output_tokens,
                    self@.finished == st_i.finished,
                    spec_apply_calls(self@.slots, callsm.subrange(j as int, ncalls as int))
                        == spec_apply_calls(slots_start, callsm),
                decreases ncalls - j,
            {
                let ghost restj = callsm.subrange(j as int, ncalls as int);
                proof {
                    assert(restj[0] == callsm[j as int]);
                    assert(restj.drop_first() =~= callsm.subrange(j + 1, ncalls as int));
                    assert(ch.tool_calls[j as int]@ == callsm[j as int]);
                }
                apply_call_exec(&mut self.slots, &ch.tool_calls[j]);
                j = j + 1;
            }
            proof {
                assert(callsm.subrange(ncalls as int, ncalls as int) =~= Seq::<
                    GrokCallDeltaModel,
                >::empty());
                assert(self@.slots == spec_apply_calls(slots_start, callsm));
            }
            // finish reason: flush and clear
            if ch.finished {
                let mut flushed = flush_slots(&self.slots);
                let ghost flushed_m = flushed.deep_view();
                evs.append(&mut flushed);
                self.slots = Vec::new();
                proof {
                    assert(self@.slots =~= Seq::<GrokSlotModel>::empty());
                    assert(evs.deep_view() =~= after_chunk + flushed_m);
                }
            }
            proof {
                assert(self@ == this_step.0);
                assert(evs.deep_view() =~= pre_evs + this_step.1);
                assert(spec_step_choices(st_i, resti).0 == spec_step_choices(
                    this_step.0,
                    chsm.subrange(i + 1, nch as int),
                ).0);
                assert(spec_step_choices(st_i, resti).1 == this_step.1 + spec_step_choices(
                    this_step.0,
                    chsm.subrange(i + 1, nch as int),
                ).1);
                assert(evs.deep_view() + spec_step_choices(
                    self@,
                    chsm.subrange(i + 1, nch as int),
                ).1 =~= pre_evs + spec_step_choices(st_i, resti).1);
            }
            i = i + 1;
        }
        proof {
            assert(chsm.subrange(nch as int, nch as int) =~= Seq::<GrokChoiceModel>::empty());
            assert(evs.deep_view() + Seq::<EventModel>::empty() =~= evs.deep_view());
        }
        evs
    }

    /// The terminal event of a stream, carrying the latched usage figures.
    pub fn finish(&self) -> (r: StreamEvent)
        ensures
            r@ == (EventModel::Done {
                input_tokens: self.input_tokens,
                output_tokens: self.output_tokens,
            }),
    {
        StreamEvent::Done { input_tokens: self.input_tokens, output_tokens: self.output_tokens }
    }

    /// Decode one line of the stream.  Lines without a `data: ` prefix are
    /// skipped; the `[DONE]` sentinel ends the stream; any other payload
    /// is parsed as JSON and, when well formed, applied as one frame.
    pub fn decode_line(&mut self, line: &str) -> (r: Vec<StreamEvent>)
        ensures
            grok_decode_line_post(old(self)@, line@, final(self)@, r.deep_view()),
    {
        let ghost pre = self@;
        if self.finished {
            return Vec::new();
        }
        let payload = match sse_payload(line) {
            Some(p) => p,
            None => {
                return Vec::new();
            },
        };
        if is_done_sentinel(payload) {
            self.finished = true;
            return Vec::new();
        }
        match parse_grok_frame(payload) {
            Some(f) => self.step(f),
            None => Vec::new(),
        }
    }
}

/// What decoding one line does: a finished decoder and a non-data line
/// are no-ops, the sentinel marks the stream finished, a payload that is
/// not valid JSON or lacks a `choices` list is skipped, and any other
/// payload is applied as exactly the frame it determines.
pub open spec fn grok_decode_line_post(
    pre: GrokAccumModel,
    line: Seq<char>,
    post: GrokAccumModel,
    evs: Seq<EventModel>,
) -> bool {
    if pre.finished {
        post == pre && evs.len() == 0
    } else {
        match spec_sse_payload(line) {
            None => post == pre && evs.len() == 0,
            Some(p) => {
                if p == spec_done_sentinel() {
                    post == (GrokAccumModel { finished: true, ..pre }) && evs.len() == 0
                } else {
                    match spec_grok_payload_frame(p) {
                        None => post == pre && evs.len() == 0,
                        Some(f) => post == grok_step_spec(pre, f).0 && evs == grok_step_spec(
                            pre,
                            f,
                        ).1,
                    }
                }
            },
        }
    }
}

/// One tool-call fragment of a delta, as its tree node determines it: a
/// missing or malformed index addresses slot zero.
pub open spec fn spec_grok_call(v: JsonNodeModel) -> GrokCallDeltaModel {
    GrokCallDeltaModel {
        index: match spec_u64_under(v, "index"@) {
            Some(n) => n,
            None => 0,
        },
        id: spec_str_under(v, "id"@),
        name: match spec_node_get(v, "function"@) {
            Some(f) => spec_str_under(f, "name"@),
            None => None,
        },
        arguments: match spec_node_get(v, "function"@) {
            Some(f) => spec_str_under(f, "arguments"@),
            None => None,
        },
    }
}

/// One choice, as its tree node determines it.
pub open spec fn spec_grok_choice(c: JsonNodeModel) -> GrokChoiceModel {
    GrokChoiceModel {
        content: match spec_node_get(c, "delta"@) {
            Some(d) => spec_str_under(d, "content"@),
            None => None,
        },
        tool_calls: match spec_node_get(c, "delta"@) {
            Some(d) => match spec_node_get(d, "tool_calls"@) {
                Some(JsonNodeModel::List(cs)) => cs.map_values(|v: JsonNodeModel| spec_grok_call(v)),
                _ => Seq::empty(),
            },
            None => Seq::empty(),
        },
        finished: spec_str_under(c, "finish_reason"@) is Some,
    }
}

/// The frame a parsed payload tree reduces to.  A tree without a
/// `choices` list is no frame at all, as the wire shape requires that
/// field.
pub open spec fn spec_grok_frame(t: JsonNodeModel) -> Option<GrokFrameModel> {
    match spec_node_get(t, "choices"@) {
        Some(JsonNodeModel::List(xs)) => Some(
            GrokFrameModel {
                input_tokens: match spec_node_get(t, "usage"@) {
                    Some(u) => spec_u64_under(u, "prompt_tokens"@),
                    None => None,
                },
                output_tokens: match spec_node_get(t, "usage"@) {
                    Some(u) => spec_u64_under(u, "completion_tokens"@),
                    None => None,
                },
                choices: xs.map_values(|c: JsonNodeModel| spec_grok_choice(c)),
            },
        ),
        _ => None,
    }
}

/// The frame a raw payload determines: nothing for invalid JSON, else
/// what its tree reduces to.
pub open spec fn spec_grok_payload_frame(s: Seq<char>) -> Option<GrokFrameModel> {
    match json_tree_of(s) {
        None => None,
        Some(t) => spec_grok_frame(t),
    }
}

/// One tool-call fragment, as its tree node determines it.
fn parse_grok_call(v: &JsonNode) -> (r: GrokCallDelta)
    ensures
        r@ == spec_grok_call(v.model()),
{
    let index = match u64_under(v, "index") {
        Some(n) => n,
        None => 0,
    };
    let id = match str_under(v, "id") {
        Some(s) => Some(s.to_owned()),
        None => None,
    };
    let (name, arguments) = match node_get(v, "function") {
        Some(f) => {
            let name = match str_under(f, "name") {
                Some(s) => Some(s.to_owned()),
                None => None,
            };
            let arguments = match str_under(f, "arguments") {
                Some(s) => Some(s.to_owned()),
                None => None,
            };
            (name, arguments)
        },
        None => (None, None),
    };
    GrokCallDelta { index, id, name, arguments }
}

/// A delta's tool-call fragments, in order.
fn parse_grok_calls(calls: &Vec<JsonNode>) -> (r: Vec<GrokCallDelta>)
    ensures
        r.deep_view() == calls.deep_view().map_values(|v: JsonNodeModel| spec_grok_call(v)),
{
    let ghost cm = calls.deep_view();
    let n = calls.len();
    let mut out: Vec<GrokCallDelta> = Vec::new();
    let mut i: usize = 0;
    while i < n
        invariant
            i <= n,
            n == calls@.len(),
            cm == calls.deep_view(),
            cm.len() == n,
            out.deep_view() == cm.map_values(|v: JsonNodeModel| spec_grok_call(v)).subrange(
                0,
                i as int,
            ),
        decreases n - i,
    {
        let ghost prev = out.deep_view();
        let c = parse_grok_call(&calls[i]);
        out.push(c);
        proof {
            assert(out.deep_view() =~= prev.push(spec_grok_call(cm[i as int])));
            assert(prev.push(spec_grok_call(cm[i as int])) =~= cm.map_values(
                |v: JsonNodeModel| spec_grok_call(v),
            ).subrange(0, i + 1));
        }
        i = i + 1;
    }
    proof {
        assert(cm.map_values(|v: JsonNodeModel| spec_grok_call(v)).subrange(0, n as int) =~= cm.map_values(
            |v: JsonNodeModel| spec_grok_call(v),
        ));
    }
    out
}

/// One choice, as its tree node determines it.
fn parse_grok_choice(cv: &JsonNode) -> (r: GrokChoice)
    ensures
        r@ == spec_grok_choice(cv.model()),
{
    let (content, tool_calls) = match node_get(cv, "delta") {
        Some(delta) => {
            let content = match str_under(delta, "content") {
                Some(s) => Some(s.to_owned()),
                None => None,
            };
            let tool_calls = match node_get(delta, "tool_calls") {
                Some(tc) => match node_list(tc) {
                    Some(calls) => parse_grok_calls(calls),
                    None => Vec::new(),
                },
                None => Vec::new(),
            };
            (content, tool_calls)
        },
        None => (None, Vec::new()),
    };
    let finished = match str_under(cv, "finish_reason") {
        Some(_) => true,
        None => false,
    };
    let r = GrokChoice { content, tool_calls, finished };
    proof {
        assert(r@ =~= spec_grok_choice(cv.model()));
    }
    r
}

/// Reduce one payload of the dialect to its frame: exactly the frame its
/// parsed tree determines, and no frame for invalid JSON or a missing
/// `choices` list.
fn parse_grok_frame(payload: &str) -> (r: Option<GrokFrame>)
    ensures
        r.deep_view() == spec_grok_payload_frame(payload@),
{
    let t = match parse_json_tree(payload) {
        Some(t) => t,
        None => {
            return None;
        },
    };
    let choices_node = match node_get(&t, "choices") {
        Some(c) => c,
        None => {
            return None;
        },
    };
    let choices_arr = match node_list(choices_node) {
        Some(xs) => xs,
        None => {
            return None;
        },
    };
    let (input_tokens, output_tokens) = match node_get(&t, "usage") {
        Some(u) => (u64_under(u, "prompt_tokens"), u64_under(u, "completion_tokens")),
        None => (None, None),
    };
    let ghost xsm = choices_arr.deep_view();
    let n = choices_arr.len();
    let mut choices: Vec<GrokChoice> = Vec::new();
    let mut i: usize = 0;
    while i < n
        invariant
            i <= n,
            n == choices_arr@.len(),
            xsm == choices_arr.deep_view(),
            xsm.len() == n,
            choices.deep_view() == xsm.map_values(|c: JsonNodeModel| spec_grok_choice(c)).subrange(
                0,
                i as int,
            ),
        decreases n - i,
    {
        let ghost prev = choices.deep_view();
        let ch = parse_grok_choice(&choices_arr[i]);
        choices.push(ch);
        proof {
            assert(choices.deep_view() =~= prev.push(spec_grok_choice(xsm[i as int])));
            assert(prev.push(spec_grok_choice(xsm[i as int])) =~= xsm.map_values(
                |c: JsonNodeModel| spec_grok_choice(c),
            ).subrange(0, i + 1));
        }
        i = i + 1;
    }
    proof {
        assert(xsm.map_values(|c: JsonNodeModel| spec_grok_choice(c)).subrange(0, n as int)
            =~= xsm.map_values(|c: JsonNodeModel| spec_grok_choice(c)));
    }
    let r = Some(GrokFrame { input_tokens, output_tokens, choices });
    proof {
        assert(r.deep_view() =~= spec_grok_payload_frame(payload@));
    }
    r
}

/// A frame whose single choice carries one tool-call fragment and no
/// finish reason only updates the slots.
proof fn lemma_single_call_step(st: GrokAccumModel, c: GrokCallDeltaModel)
    ensures
        ({
            let f = GrokFrameModel {
                input_tokens: None,
                output_tokens: None,
                choices: seq![
                    GrokChoiceModel { content: None, tool_calls: seq![c], finished: false },
                ],
            };
            grok_step_spec(st, f) == (
                GrokAccumModel { slots: spec_apply_call(st.slots, c), ..st },
                Seq::<EventModel>::empty(),
            )
        }),
{
    let ch = GrokChoiceModel { content: None, tool_calls: seq![c], finished: false };
    let f = GrokFrameModel { input_tokens: None, output_tokens: None, choices: seq![ch] };
    let st1 = GrokAccumModel { input_tokens: st.input_tokens, output_tokens: st.output_tokens, ..st };
    assert(st1 =~= st);
    let y = spec_apply_call(st.slots, c);
    assert(seq![c].drop_first() =~= Seq::<GrokCallDeltaModel>::empty());
    assert(spec_apply_calls(y, Seq::<GrokCallDeltaModel>::empty()) == y);
    assert(seq![c][0] == c);
    assert(spec_apply_calls(st.slots, seq![c]) == spec_apply_calls(y, seq![c].drop_first()));
    assert(spec_apply_calls(st.slots, seq![c]) == y);
    let first = spec_step_choice(st1, ch);
    assert(first.0 =~= (GrokAccumModel { slots: y, ..st }));
    assert(first.1 == Seq::<EventModel>::empty());
    assert(seq![ch].drop_first() =~= Seq::<GrokChoiceModel>::empty());
    assert(spec_step_choices(first.0, Seq::<GrokChoiceModel>::empty()) == (first.0, Seq::<
        EventModel,
    >::empty()));
    assert(seq![ch][0] == ch);
    assert(spec_step_choices(st1, seq![ch]).0 == first.0);
    assert(spec_step_choices(st1, seq![ch]).1 =~= Seq::<EventModel>::empty());
    assert(grok_step_spec(st, f).0 == spec_step_choices(st1, f.choices).0);
    assert(grok_step_spec(st, f).1 == spec_step_choices(st1, f.choices).1);
}

/// A frame whose single choice carries only a finish reason flushes and
/// clears every open slot.
proof fn lemma_finish_step(st: GrokAccumModel)
    ensures
        ({
            let f = GrokFrameModel {
                input_tokens: None,
                output_tokens: None,
                choices: seq![
                    GrokChoiceModel {
                        content: None,
                        tool_calls: Seq::empty(),
                        finished: true,
                    },
                ],
            };
            grok_step_spec(st, f) == (
                GrokAccumModel { slots: Seq::empty(), ..st },
                spec_flush_events(st.slots),
            )
        }),
{
    let ch = GrokChoiceModel { content: None, tool_calls: Seq::empty(), finished: true };
    let f = GrokFrameModel { input_tokens: None, output_tokens: None, choices: seq![ch] };
    let st1 = GrokAccumModel { input_tokens: st.input_tokens, output_tokens: st.output_tokens, ..st };
    assert(st1 =~= st);
    assert(spec_apply_calls(st.slots, Seq::empty()) == st.slots);
    let first = spec_step_choice(st1, ch);
    assert(first.0 =~= (GrokAccumModel { slots: Seq::<GrokSlotModel>::empty(), ..st }));
    assert(first.1 =~= spec_flush_events(st.slots));
    assert(seq![ch].drop_first() =~= Seq::<GrokChoiceModel>::empty());
    assert(spec_step_choices(first.0, Seq::<GrokChoiceModel>::empty()) == (first.0, Seq::<
        EventModel,
    >::empty()));
    assert(seq![ch][0] == ch);
    assert(spec_step_choices(st1, seq![ch]).0 == first.0);
    assert(spec_step_choices(st1, seq![ch]).1 =~= first.1);
    assert(grok_step_spec(st, f).0 == spec_step_choices(st1, f.choices).0);
    assert(grok_step_spec(st, f).1 == spec_step_choices(st1, f.choices).1);
    assert(grok_step_spec(st, f).1 =~= spec_flush_events(st.slots));
}

/// Law: a stream that opens two tool-call slots, interleaves their
/// argument deltas, and finishes both on one finish reason yields exactly
/// two `ToolUse` events, each holding its own accumulated arguments
/// (degraded to the empty object where they are not valid JSON).
pub proof fn lemma_two_slot_interleaved_stream(
    st: GrokAccumModel,
    id0: Seq<char>,
    name0: Seq<char>,
    a1: Seq<char>,
    a2: Seq<char>,
    id1: Seq<char>,
    name1: Seq<char>,
    b1: Seq<char>,
    b2: Seq<char>,
)
    requires
        st.slots == Seq::<GrokSlotModel>::empty(),
        id0.len() > 0,
        name0.len() > 0,
        id1.len() > 0,
        name1.len() > 0,
    ensures
        ({
            let fs = seq![
                grok_call_frame(
                    GrokCallDeltaModel {
                        index: 0,
                        id: Some(id0),
                        name: Some(name0),
                        arguments: Some(a1),
                    },
                ),
                grok_call_frame(
                    GrokCallDeltaModel {
                        index: 1,
                        id: Some(id1),
                        name: Some(name1),
                        arguments: Some(b1),
                    },
                ),
                grok_call_frame(
                    GrokCallDeltaModel { index: 0, id: None, name: None, arguments: Some(a2) },
                ),
                grok_call_frame(
                    GrokCallDeltaModel { index: 1, id: None, name: None, arguments: Some(b2) },
                ),
                grok_finish_frame(),
            ];
            grok_run_spec(st, fs).1 =~~= seq![
                EventModel::ToolUse(
                    ToolUseModel { id: id0, name: name0, input_json: spec_args_or_empty(a1 + a2) },
                ),
                EventModel::ToolUse(
                    ToolUseModel { id: id1, name: name1, input_json: spec_args_or_empty(b1 + b2) },
                ),
            ]
        }),
{
    let c1 = GrokCallDeltaModel { index: 0, id: Some(id0), name: Some(name0), arguments: Some(a1) };
    let c2 = GrokCallDeltaModel { index: 1, id: Some(id1), name: Some(name1), arguments: Some(b1) };
    let c3 = GrokCallDeltaModel { index: 0, id: None, name: None, arguments: Some(a2) };
    let c4 = GrokCallDeltaModel { index: 1, id: None, name: None, arguments: Some(b2) };
    let fs = seq![
        grok_call_frame(c1),
        grok_call_frame(c2),
        grok_call_frame(c3),
        grok_call_frame(c4),
        grok_finish_frame(),
    ];
    // the slot contents after each fragment
    let s0a = GrokSlotModel { index: 0, id: id0, name: name0, args: a1 };
    let s1a = GrokSlotModel { index: 1, id: id1, name: name1, args: b1 };
    let s0b = GrokSlotModel { index: 0, id: id0, name: name0, args: a1 + a2 };
    let s1b = GrokSlotModel { index: 1, id: id1, name: name1, args: b1 + b2 };
    let empty_slots = Seq::<GrokSlotModel>::empty();
    lemma_single_call_step(st, c1);
    let t1 = GrokAccumModel { slots: spec_apply_call(st.slots, c1), ..st };
    assert(spec_find_slot(empty_slots, 0) == -1);
    assert(spec_apply_call(st.slots, c1) =~~= seq![s0a]) by {
        assert(Seq::empty() + a1 =~= a1);
    }
    assert(t1.slots =~~= seq![s0a]);
    lemma_single_call_step(t1, c2);
    let t2 = GrokAccumModel { slots: spec_apply_call(t1.slots, c2), ..t1 };
    assert(spec_find_slot(seq![s0a], 1) == -1) by {
        assert(seq![s0a].drop_first() =~= empty_slots);
        assert(spec_find_slot(empty_slots, 1) == -1);
    }
    assert(spec_apply_call(t1.slots, c2) =~~= seq![s0a, s1a]) by {
        assert(seq![s0a].push(GrokSlotModel { index: 1, id: Seq::empty(), name: Seq::empty(), args: Seq::empty() }).update(1, s1a) =~~= seq![s0a, s1a]) by {
            assert(Seq::empty() + b1 =~= b1);
        }
    }
    assert(t2.slots =~~= seq![s0a, s1a]);
    lemma_single_call_step(t2, c3);
    let t3 = GrokAccumModel { slots: spec_apply_call(t2.slots, c3), ..t2 };
    assert(spec_find_slot(seq![s0a, s1a], 0) == 0);
    assert(spec_apply_call(t2.slots, c3) =~~= seq![s0b, s1a]) by {
        assert(seq![s0a, s1a].update(0, s0b) =~~= seq![s0b, s1a]);
    }
    assert(t3.slots =~~= seq![s0b, s1a]);
    lemma_single_call_step(t3, c4);
    let t4 = GrokAccumModel { slots: spec_apply_call(t3.slots, c4), ..t3 };
    assert(spec_find_slot(seq![s0b, s1a], 1) == 1) by {
        assert(seq![s0b, s1a].drop_first() =~= seq![s1a]);
        assert(spec_find_slot(seq![s1a], 1) == 0);
    }
    assert(spec_apply_call(t3.slots, c4) =~~= seq![s0b, s1b]) by {
        assert(seq![s0b, s1a].update(1, s1b) =~~= seq![s0b, s1b]);
    }
    assert(t4.slots =~~= seq![s0b, s1b]);
    lemma_finish_step(t4);
    let t5 = GrokAccumModel { slots: empty_slots, ..t4 };
    let flush = spec_flush_events(t4.slots);
    assert(seq![s1b].drop_first() =~= empty_slots);
    assert(spec_flush_events(empty_slots) == Seq::<EventModel>::empty());
    assert(spec_flush_events(seq![s1b]) =~~= seq![
        EventModel::ToolUse(
            ToolUseModel { id: id1, name: name1, input_json: spec_args_or_empty(b1 + b2) },
        ),
    ]);
    assert(seq![s0b, s1b].drop_first() =~= seq![s1b]);
    assert(spec_flush_events(seq![s0b, s1b]) == seq![
        EventModel::ToolUse(
            ToolUseModel { id: id0, name: name0, input_json: spec_args_or_empty(a1 + a2) },
        ),
    ] + spec_flush_events(seq![s1b]));
    assert(t4.slots == seq![s0b, s1b]);
    assert(flush =~~= seq![
        EventModel::ToolUse(
            ToolUseModel { id: id0, name: name0, input_json: spec_args_or_empty(a1 + a2) },
        ),
        EventModel::ToolUse(
            ToolUseModel { id: id1, name: name1, input_json: spec_args_or_empty(b1 + b2) },
        ),
    ]);
    // chain the run
    let fs1 = fs.drop_first();
    let fs2 = fs1.drop_first();
    let fs3 = fs2.drop_first();
    let fs4 = fs3.drop_first();
    let fs5 = fs4.drop_first();
    assert(fs5 =~= Seq::<GrokFrameModel>::empty());
    assert(grok_run_spec(st, fs).1 == grok_step_spec(st, fs[0]).1 + grok_run_spec(t1, fs1).1);
    assert(grok_run_spec(t1, fs1).1 == grok_step_spec(t1, fs1[0]).1 + grok_run_spec(t2, fs2).1);
    assert(grok_run_spec(t2, fs2).1 == grok_step_spec(t2, fs2[0]).1 + grok_run_spec(t3, fs3).1);
    assert(grok_run_spec(t3, fs3).1 == grok_step_spec(t3, fs3[0]).1 + grok_run_spec(t4, fs4).1);
    assert(grok_run_spec(t4, fs4).1 == grok_step_spec(t4, fs4[0]).1 + grok_run_spec(t5, fs5).1);
    assert(grok_run_spec(t5, fs5).1 == Seq::<EventModel>::empty());
}

/// A frame carrying one tool-call fragment in one unfinished choice.
pub open spec fn grok_call_frame(c: GrokCallDeltaModel) -> GrokFrameModel {
    GrokFrameModel {
        input_tokens: None,
        output_tokens: None,
        choices: seq![GrokChoiceModel { content: None, tool_calls: seq![c], finished: false }],
    }
}

/// A frame carrying only a finish reason.
pub open spec fn grok_finish_frame() -> GrokFrameModel {
    GrokFrameModel {
        input_tokens: None,
        output_tokens: None,
        choices: seq![
            GrokChoiceModel { content: None, tool_calls: Seq::empty(), finished: true },
        ],
    }
}

/// No choice without a finish reason can emit a `ToolUse`.
proof fn lemma_choices_no_finish_no_tool_use(st: GrokAccumModel, chs: Seq<GrokChoiceModel>)
    requires
        forall|j: int| 0 <= j < chs.len() ==> !(#[trigger] chs[j]).finished,
    ensures
        forall|i: int|
            0 <= i < spec_step_choices(st, chs).1.len() ==> !(#[trigger] spec_step_choices(
                st,
                chs,
            ).1[i] is ToolUse),
    decreases chs.len(),
{
    if chs.len() > 0 {
        let first = spec_step_choice(st, chs[0]);
        assert(!chs[0].finished);
        assert forall|j: int| 0 <= j < chs.drop_first().len() implies !(
        #[trigger] chs.drop_first()[j]).finished by {
            assert(chs.drop_first()[j] == chs[j + 1]);
        }
        lemma_choices_no_finish_no_tool_use(first.0, chs.drop_first());
        let rest = spec_step_choices(first.0, chs.drop_first());
        assert forall|i: int|
            0 <= i < spec_step_choices(st, chs).1.len() implies !(#[trigger] spec_step_choices(
            st,
            chs,
        ).1[i] is ToolUse) by {
            if i >= first.1.len() {
                assert(spec_step_choices(st, chs).1[i] == rest.1[i - first.1.len()]);
            }
        }
    }
}

/// Law: only a finish reason can emit `ToolUse` events, so slots that are
/// still accumulating when the stream ends yield none — a partial,
/// unflushed tool call is discarded, not surfaced.
pub proof fn lemma_unflushed_slots_emit_nothing(st: GrokAccumModel, fs: Seq<GrokFrameModel>)
    requires
        forall|i: int, j: int|
            0 <= i < fs.len() && 0 <= j < (#[trigger] fs[i]).choices.len() ==> !(
            #[trigger] fs[i].choices[j]).finished,
    ensures
        forall|i: int|
            0 <= i < grok_run_spec(st, fs).1.len() ==> !(#[trigger] grok_run_spec(
                st,
                fs,
            ).1[i] is ToolUse),
    decreases fs.len(),
{
    if fs.len() > 0 {
        let first = grok_step_spec(st, fs[0]);
        let st1 = GrokAccumModel {
            input_tokens: match fs[0].input_tokens {
                Some(v) => v,
                None => st.input_tokens,
            },
            output_tokens: match fs[0].output_tokens {
                Some(v) => v,
                None => st.output_tokens,
            },
            ..st
        };
        assert forall|j: int| 0 <= j < fs[0].choices.len() implies !(
        #[trigger] fs[0].choices[j]).finished by {}
        lemma_choices_no_finish_no_tool_use(st1, fs[0].choices);
        assert forall|i: int, j: int|
            0 <= i < fs.drop_first().len() && 0 <= j < (
        #[trigger] fs.drop_first()[i]).choices.len() implies !(
        #[trigger] fs.drop_first()[i].choices[j]).finished by {
            assert(fs.drop_first()[i] == fs[i + 1]);
            assert(!fs[i + 1].choices[j].finished);
        }
        lemma_unflushed_slots_emit_nothing(first.0, fs.drop_first());
        let rest = grok_run_spec(first.0, fs.drop_first());
        assert forall|i: int|
            0 <= i < grok_run_spec(st, fs).1.len() implies !(#[trigger] grok_run_spec(
            st,
            fs,
        ).1[i] is ToolUse) by {
            if i >= first.1.len() {
                assert(grok_run_spec(st, fs).1[i] == rest.1[i - first.1.len()]);
            } else {
                assert(grok_run_spec(st, fs).1[i] == first.1[i]);
            }
        }
    }
}


/// Law: a tool-call fragment touches only the slot it addresses — slots
/// with other indices keep their accumulated state, so interleaving the
/// deltas of different slots cannot mix their arguments.
pub proof fn lemma_apply_call_leaves_other_slots(
    slots: Seq<GrokSlotModel>,
    c: GrokCallDeltaModel,
)
    ensures
        forall|j: int|
            0 <= j < slots.len() && (#[trigger] slots[j]).index != c.index ==> spec_apply_call(
                slots,
                c,
            )[j] == slots[j],
        slots.len() <= spec_apply_call(slots, c).len() <= slots.len() + 1,
{
    lemma_find_slot(slots, c.index);
    let p = spec_find_slot(slots, c.index);
    if p < 0 {
        assert forall|j: int|
            0 <= j < slots.len() && (#[trigger] slots[j]).index != c.index implies spec_apply_call(
            slots,
            c,
        )[j] == slots[j] by {
            assert(spec_apply_call(slots, c)[j] == slots.push(
                GrokSlotModel {
                    index: c.index,
                    id: Seq::empty(),
                    name: Seq::empty(),
                    args: Seq::empty(),
                },
            ).update(slots.len() as int, spec_apply_call(slots, c)[slots.len() as int])[j]);
        }
    } else {
        assert(slots[p].index == c.index);
    }
}

} // verus!
