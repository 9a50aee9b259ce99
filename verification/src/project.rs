//! The message/tool history projector: pure transformations from the
//! conversation log and the formatted context items to the ordered,
//! role-tagged content blocks each provider expects.  Deleted and empty
//! messages are skipped, summarized messages substitute their summary, a
//! tool-call message is kept only when a later, non-deleted tool-result
//! message answers one of its tool-use ids, the first eligible user
//! message is prefixed with the formatted context, and every rendered
//! text carries its message's identifier in brackets.

use vstd::prelude::*;
use vstd::string::StrSliceExecFns;
use vstd::string::StringExecFns;

use crate::stream::{ToolResult, ToolResultModel, ToolUse, ToolUseModel};
use crate::strutil::{join_sep, spec_join_sep, str_concat, str_eq};

verus! {

broadcast use vstd::string::group_string_axioms;

/// Lifecycle status of one message in the log.
#[derive(PartialEq, Eq, Structural, Clone, Copy, Debug)]
pub enum MessageStatus {
    Full,
    Summarized,
    Deleted,
}

/// What a message carries.
#[derive(PartialEq, Eq, Structural, Clone, Copy, Debug)]
pub enum MessageType {
    TextMessage,
    ToolCall,
    ToolResult,
}

/// One turn or sub-turn of the conversation log.
pub struct Message {
    pub id: String,
    pub role: String,
    pub message_type: MessageType,
    pub status: MessageStatus,
    pub content: String,
    pub tl_dr: Option<String>,
    pub tool_uses: Vec<ToolUse>,
    pub tool_results: Vec<ToolResult>,
}

/// Mathematical model of a message.
#[verifier::ext_equal]
pub ghost struct MessageModel {
    pub id: Seq<char>,
    pub role: Seq<char>,
    pub message_type: MessageType,
    pub status: MessageStatus,
    pub content: Seq<char>,
    pub tl_dr: Option<Seq<char>>,
    pub tool_uses: Seq<ToolUseModel>,
    pub tool_results: Seq<ToolResultModel>,
}

impl View for Message {
    type V = MessageModel;

    open spec fn view(&self) -> MessageModel {
        MessageModel {
            id: self.id@,
            role: self.role@,
            message_type: self.message_type,
            status: self.status,
            content: self.content@,
            tl_dr: match self.tl_dr {
                Some(ref t) => Some(t@),
                None => None,
            },
            tool_uses: self.tool_uses.deep_view(),
            tool_results: self.tool_results.deep_view(),
        }
    }
}

impl DeepView for Message {
    type V = MessageModel;

    open spec fn deep_view(&self) -> MessageModel {
        self.view()
    }
}

/// One formatted context source as handed to the projector.
pub struct ContextItem {
    pub name: String,
    pub content: String,
}

/// How one context item renders into the request text.
pub open spec fn spec_ctx_format(name: Seq<char>, content: Seq<char>) -> Seq<char> {
    "## "@ + name + "\n"@ + content
}

impl ContextItem {
    pub fn new(name: String, content: String) -> (r: ContextItem)
        ensures
            r.name == name,
            r.content == content,
    {
        ContextItem { name, content }
    }

    /// Render this item as a titled block.
    pub fn format(&self) -> (r: String)
        ensures
            r@ == spec_ctx_format(self.name@, self.content@),
    {
        let mut r = crate::strutil::str_concat("## ", self.name.as_str());
        r.append("\n");
        r.append(self.content.as_str());
        r
    }
}

/// The formatted non-empty context items, in order.
pub open spec fn spec_context_parts(items: Seq<(Seq<char>, Seq<char>)>) -> Seq<Seq<char>>
    decreases items.len(),
{
    if items.len() == 0 {
        Seq::empty()
    } else {
        let head: Seq<Seq<char>> = if items[0].1.len() > 0 {
            seq![spec_ctx_format(items[0].0, items[0].1)]
        } else {
            Seq::empty()
        };
        head + spec_context_parts(items.drop_first())
    }
}

/// The view of a context item list as name/content pairs.
pub open spec fn spec_items_view(items: Seq<ContextItem>) -> Seq<(Seq<char>, Seq<char>)> {
    items.map_values(|it: ContextItem| (it.name@, it.content@))
}

/// Format every context item that has content, keeping order.
pub fn format_context_parts(items: &Vec<ContextItem>) -> (r: Vec<String>)
    ensures
        r.deep_view() == spec_context_parts(spec_items_view(items@)),
{
    let ghost iv = spec_items_view(items@);
    let n = items.len();
    let mut out: Vec<String> = Vec::new();
    let mut i: usize = 0;
    proof {
        assert(iv.subrange(0, n as int) =~= iv);
        assert(Seq::<Seq<char>>::empty() + spec_context_parts(iv) =~= spec_context_parts(iv));
    }
    while i < n
        invariant
            i <= n,
            n == items@.len(),
            iv == spec_items_view(items@),
            iv.len() == n,
            spec_context_parts(iv) == out.deep_view() + spec_context_parts(
                iv.subrange(i as int, n as int),
            ),
        decreases n - i,
    {
        let ghost resti = iv.subrange(i as int, n as int);
        let ghost prev = out.deep_view();
        proof {
            assert(resti[0] == iv[i as int]);
            assert(resti.drop_first() =~= iv.subrange(i + 1, n as int));
        }
        if !items[i].content.as_str().is_empty() {
            let f = items[i].format();
            out.push(f);
            proof {
                assert(out.deep_view() =~= prev.push(spec_ctx_format(iv[i as int].0, iv[i as int].1)));
                assert(prev.push(spec_ctx_format(iv[i as int].0, iv[i as int].1))
                    + spec_context_parts(iv.subrange(i + 1, n as int)) =~= prev + (seq![
                    spec_ctx_format(iv[i as int].0, iv[i as int].1),
                ] + spec_context_parts(iv.subrange(i + 1, n as int))));
            }
        } else {
            proof {
                assert(Seq::<Seq<char>>::empty() + spec_context_parts(
                    iv.subrange(i + 1, n as int),
                ) =~= spec_context_parts(iv.subrange(i + 1, n as int)));
            }
        }
        i = i + 1;
    }
    proof {
        assert(iv.subrange(n as int, n as int) =~= Seq::<(Seq<char>, Seq<char>)>::empty());
        assert(out.deep_view() + Seq::<Seq<char>>::empty() =~= out.deep_view());
    }
    out
}

/// One content block of a provider request.
pub enum ContentBlock {
    Text { text: String },
    ToolUse { id: String, name: String, input_json: String },
    ToolResult { tool_use_id: String, content: String },
}

/// Mathematical model of a content block.
#[verifier::ext_equal]
pub ghost enum ContentBlockModel {
    Text { text: Seq<char> },
    ToolUse { id: Seq<char>, name: Seq<char>, input_json: Seq<char> },
    ToolResult { tool_use_id: Seq<char>, content: Seq<char> },
}

impl View for ContentBlock {
    type V = ContentBlockModel;

    open spec fn view(&self) -> ContentBlockModel {
        match self {
            ContentBlock::Text { text } => ContentBlockModel::Text { text: text@ },
            ContentBlock::ToolUse { id, name, input_json } => ContentBlockModel::ToolUse {
                id: id@,
                name: name@,
                input_json: input_json@,
            },
            ContentBlock::ToolResult { tool_use_id, content } => ContentBlockModel::ToolResult {
                tool_use_id: tool_use_id@,
                content: content@,
            },
        }
    }
}

impl DeepView for ContentBlock {
    type V = ContentBlockModel;

    open spec fn deep_view(&self) -> ContentBlockModel {
        self.view()
    }
}

/// One role-tagged message of a provider request.
pub struct ApiMessage {
    pub role: String,
    pub content: Vec<ContentBlock>,
}

/// Mathematical model of a request message.
#[verifier::ext_equal]
pub ghost struct ApiMessageModel {
    pub role: Seq<char>,
    pub content: Seq<ContentBlockModel>,
}

impl View for ApiMessage {
    type V = ApiMessageModel;

    open spec fn view(&self) -> ApiMessageModel {
        ApiMessageModel { role: self.role@, content: self.content.deep_view() }
    }
}

impl DeepView for ApiMessage {
    type V = ApiMessageModel;

    open spec fn deep_view(&self) -> ApiMessageModel {
        self.view()
    }
}

/// A rendered text with its message identifier in brackets.
pub open spec fn spec_prefixed(id: Seq<char>, content: Seq<char>) -> Seq<char> {
    "["@ + id + "]: "@ + content
}

/// Build the bracketed identifier prefix.
pub fn prefixed(id: &str, content: &str) -> (r: String)
    ensures
        r@ == spec_prefixed(id@, content@),
{
    let mut r = str_concat("[", id);
    r.append("]: ");
    r.append(content);
    proof {
        assert(r@ =~= spec_prefixed(id@, content@));
    }
    r
}

/// Tool-call input as sent to a provider: a missing or null input becomes
/// the empty object.
pub open spec fn spec_normalize_input(s: Seq<char>) -> Seq<char> {
    if s.len() == 0 || s == "null"@ {
        "{}"@
    } else {
        s
    }
}

/// Normalize a tool-call input for replay.
pub fn normalize_input(s: &str) -> (r: String)
    ensures
        r@ == spec_normalize_input(s@),
{
    if s.is_empty() || str_eq(s, "null") {
        String::from_str("{}")
    } else {
        String::from_str(s)
    }
}

/// The tool-use ids a message carries.
pub open spec fn spec_use_ids(m: MessageModel) -> Seq<Seq<char>> {
    m.tool_uses.map_values(|tu: ToolUseModel| tu.id)
}

/// Whether some non-deleted tool-result message at or after `from`
/// answers one of the given tool-use ids.
pub open spec fn spec_has_matching_result(
    msgs: Seq<MessageModel>,
    from: int,
    ids: Seq<Seq<char>>,
) -> bool {
    exists|k: int|
        from <= k < msgs.len() && (#[trigger] msgs[k]).status != MessageStatus::Deleted
            && msgs[k].message_type == MessageType::ToolResult && exists|r: int|
            0 <= r < msgs[k].tool_results.len() && ids.contains(
                (#[trigger] msgs[k].tool_results[r]).tool_use_id,
            )
}

/// Does this id list contain the given id?
fn contains_id(ids: &Vec<String>, id: &str) -> (r: bool)
    ensures
        r == ids.deep_view().contains(id@),
{
    let n = ids.len();
    let mut i: usize = 0;
    while i < n
        invariant
            i <= n,
            n == ids@.len(),
            forall|j: int| 0 <= j < i ==> ids.deep_view()[j] != id@,
        decreases n - i,
    {
        if str_eq(ids[i].as_str(), id) {
            proof {
                assert(ids.deep_view()[i as int] == id@);
            }
            return true;
        }
        i = i + 1;
    }
    proof {
        if ids.deep_view().contains(id@) {
            let j = choose|j: int| 0 <= j < ids.deep_view().len() && ids.deep_view()[j] == id@;
            assert(ids.deep_view()[j] != id@);
        }
    }
    false
}

/// Look for a later, non-deleted tool-result message answering one of
/// the ids.
fn has_matching_result(messages: &Vec<Message>, from: usize, ids: &Vec<String>) -> (r: bool)
    ensures
        r == spec_has_matching_result(messages.deep_view(), from as int, ids.deep_view()),
{
    let ghost mv = messages.deep_view();
    let n = messages.len();
    let mut k: usize = from;
    while k < n
        invariant
            from <= k <= n || (n < from && k == from),
            n == messages@.len(),
            mv == messages.deep_view(),
            mv.len() == n,
            forall|k2: int, r2: int|
                from <= k2 < k && (#[trigger] mv[k2]).status != MessageStatus::Deleted
                    && mv[k2].message_type == MessageType::ToolResult && 0 <= r2
                    < mv[k2].tool_results.len() ==> !ids.deep_view().contains(
                    (#[trigger] mv[k2].tool_results[r2]).tool_use_id,
                ),
        decreases n - k,
    {
        let m = &messages[k];
        let is_deleted = m.status == MessageStatus::Deleted;
        let is_result = m.message_type == MessageType::ToolResult;
        if !is_deleted && is_result {
            let nr = m.tool_results.len();
            let mut r: usize = 0;
            while r < nr
                invariant
                    r <= nr,
                    k < n,
                    nr == m.tool_results@.len(),
                    mv == messages.deep_view(),
                    mv.len() == n,
                    m == messages[k as int],
                    from <= k as int,
                    mv[k as int].status != MessageStatus::Deleted,
                    mv[k as int].message_type == MessageType::ToolResult,
                    forall|r2: int|
                        0 <= r2 < r ==> !ids.deep_view().contains(
                            (#[trigger] mv[k as int].tool_results[r2]).tool_use_id,
                        ),
                decreases nr - r,
            {
                if contains_id(ids, m.tool_results[r].tool_use_id.as_str()) {
                    proof {
                        assert(mv[k as int].tool_results[r as int].tool_use_id == m.tool_results@[
                            r as int
                        ].tool_use_id@);
                        assert(mv[k as int].status != MessageStatus::Deleted);
                        assert(mv[k as int].message_type == MessageType::ToolResult);
                        assert((r as int) < mv[k as int].tool_results.len());
                        assert(ids.deep_view().contains(
                            (mv[k as int].tool_results[r as int]).tool_use_id,
                        ));
                        assert(spec_has_matching_result(mv, from as int, ids.deep_view()));
                    }
                    return true;
                }
                r = r + 1;
            }
        }
        k = k + 1;
    }
    proof {
        if spec_has_matching_result(mv, from as int, ids.deep_view()) {
            let k2 = choose|k2: int|
                from <= k2 < mv.len() && (#[trigger] mv[k2]).status != MessageStatus::Deleted
                    && mv[k2].message_type == MessageType::ToolResult && exists|r2: int|
                    0 <= r2 < mv[k2].tool_results.len() && ids.deep_view().contains(
                        (#[trigger] mv[k2].tool_results[r2]).tool_use_id,
                    );
            let r2 = choose|r2: int|
                0 <= r2 < mv[k2].tool_results.len() && ids.deep_view().contains(
                    (#[trigger] mv[k2].tool_results[r2]).tool_use_id,
                );
            assert(!ids.deep_view().contains(mv[k2].tool_results[r2].tool_use_id));
        }
    }
    false
}

/// The tool-use ids of a message, as strings.
fn collect_use_ids(m: &Message) -> (r: Vec<String>)
    ensures
        r.deep_view() == spec_use_ids(m@),
{
    let n = m.tool_uses.len();
    let mut out: Vec<String> = Vec::new();
    let mut i: usize = 0;
    while i < n
        invariant
            i <= n,
            n == m.tool_uses@.len(),
            out.deep_view() == spec_use_ids(m@).subrange(0, i as int),
        decreases n - i,
    {
        let ghost prev = out.deep_view();
        out.push(m.tool_uses[i].id.clone());
        proof {
            assert(out.deep_view() =~= prev.push(m.tool_uses@[i as int].id@));
            assert(prev.push(m.tool_uses@[i as int].id@) =~= spec_use_ids(m@).subrange(0, i + 1));
        }
        i = i + 1;
    }
    proof {
        assert(spec_use_ids(m@).subrange(0, n as int) =~= spec_use_ids(m@));
    }
    out
}

/// The tool-result blocks of a tool-result message, each prefixed with
/// the message identifier.
pub open spec fn spec_result_blocks(m: MessageModel) -> Seq<ContentBlockModel> {
    m.tool_results.map_values(
        |r: ToolResultModel|
            ContentBlockModel::ToolResult {
                tool_use_id: r.tool_use_id,
                content: spec_prefixed(m.id, r.content),
            },
    )
}

/// The tool-use blocks of a message, inputs normalized.
pub open spec fn spec_tool_use_blocks(uses: Seq<ToolUseModel>) -> Seq<ContentBlockModel> {
    uses.map_values(
        |tu: ToolUseModel|
            ContentBlockModel::ToolUse {
                id: tu.id,
                name: tu.name,
                input_json: spec_normalize_input(tu.input_json),
            },
    )
}

/// Build the tool-result blocks of a message.
fn build_result_blocks(m: &Message) -> (r: Vec<ContentBlock>)
    ensures
        r.deep_view() == spec_result_blocks(m@),
{
    let n = m.tool_results.len();
    let mut out: Vec<ContentBlock> = Vec::new();
    let mut i: usize = 0;
    while i < n
        invariant
            i <= n,
            n == m.tool_results@.len(),
            out.deep_view() == spec_result_blocks(m@).subrange(0, i as int),
        decreases n - i,
    {
        let ghost prev = out.deep_view();
        let content = prefixed(m.id.as_str(), m.tool_results[i].content.as_str());
        out.push(
            ContentBlock::ToolResult { tool_use_id: m.tool_results[i].tool_use_id.clone(), content },
        );
        proof {
            assert(out.deep_view() =~= prev.push(spec_result_blocks(m@)[i as int]));
            assert(prev.push(spec_result_blocks(m@)[i as int]) =~= spec_result_blocks(m@).subrange(
                0,
                i + 1,
            ));
        }
        i = i + 1;
    }
    proof {
        assert(spec_result_blocks(m@).subrange(0, n as int) =~= spec_result_blocks(m@));
    }
    out
}

/// Build the tool-use blocks of a message.
fn build_tool_use_blocks(uses: &Vec<ToolUse>) -> (r: Vec<ContentBlock>)
    ensures
        r.deep_view() == spec_tool_use_blocks(uses.deep_view()),
{
    let ghost uv = uses.deep_view();
    let n = uses.len();
    let mut out: Vec<ContentBlock> = Vec::new();
    let mut i: usize = 0;
    while i < n
        invariant
            i <= n,
            n == uses@.len(),
            uv == uses.deep_view(),
            uv.len() == n,
            out.deep_view() == spec_tool_use_blocks(uv).subrange(0, i as int),
        decreases n - i,
    {
        let ghost prev = out.deep_view();
        let input_json = normalize_input(uses[i].input_json.as_str());
        out.push(
            ContentBlock::ToolUse {
                id: uses[i].id.clone(),
                name: uses[i].name.clone(),
                input_json,
            },
        );
        proof {
            assert(out.deep_view() =~= prev.push(spec_tool_use_blocks(uv)[i as int]));
            assert(prev.push(spec_tool_use_blocks(uv)[i as int]) =~= spec_tool_use_blocks(
                uv,
            ).subrange(0, i + 1));
        }
        i = i + 1;
    }
    proof {
        assert(spec_tool_use_blocks(uv).subrange(0, n as int) =~= spec_tool_use_blocks(uv));
    }
    out
}


/// The content a message contributes: its summary when summarized, else
/// its full content.
pub open spec fn spec_effective_content(m: MessageModel) -> Seq<char> {
    if m.status == MessageStatus::Summarized {
        match m.tl_dr {
            Some(t) => t,
            None => m.content,
        }
    } else {
        m.content
    }
}

/// The rendered text of a plain message: the first eligible user message
/// is prefixed with the formatted context items joined by blank lines.
pub open spec fn spec_text_for(
    m: MessageModel,
    mc: Seq<char>,
    parts: Seq<Seq<char>>,
    first: bool,
) -> Seq<char> {
    if m.role == "user"@ && parts.len() > 0 && first {
        spec_join_sep(parts, "\n\n"@) + "\n\n"@ + spec_prefixed(m.id, mc)
    } else {
        spec_prefixed(m.id, mc)
    }
}

/// What one message of the log adds to the projected request, and
/// whether a first eligible user message is still pending afterwards.
pub open spec fn spec_project_step(
    msgs: Seq<MessageModel>,
    parts: Seq<Seq<char>>,
    include_last: bool,
    i: int,
    acc: Seq<ApiMessageModel>,
    first_user: bool,
) -> (Seq<ApiMessageModel>, bool)
    recommends
        0 <= i < msgs.len(),
{
    let m = msgs[i];
    if m.status == MessageStatus::Deleted {
        (acc, first_user)
    } else if m.content.len() == 0 && m.tool_uses.len() == 0 && m.tool_results.len() == 0 {
        (acc, first_user)
    } else if m.message_type == MessageType::ToolResult {
        if m.tool_results.len() > 0 {
            (acc.push(ApiMessageModel { role: "user"@, content: spec_result_blocks(m) }), first_user)
        } else {
            (acc, first_user)
        }
    } else if m.message_type == MessageType::ToolCall {
        if spec_has_matching_result(msgs, i + 1, spec_use_ids(m)) {
            let blocks = spec_tool_use_blocks(m.tool_uses);
            if acc.len() > 0 && acc.last().role == "assistant"@ {
                (
                    acc.update(
                        acc.len() - 1,
                        ApiMessageModel {
                            role: acc.last().role,
                            content: acc.last().content + blocks,
                        },
                    ),
                    first_user,
                )
            } else if blocks.len() > 0 {
                (acc.push(ApiMessageModel { role: m.role, content: blocks }), first_user)
            } else {
                (acc, first_user)
            }
        } else {
            (acc, first_user)
        }
    } else {
        let mc = spec_effective_content(m);
        let is_user = m.role == "user"@;
        let text_blocks: Seq<ContentBlockModel> = if mc.len() > 0 {
            seq![
                ContentBlockModel::Text {
                    text: spec_text_for(m, mc, parts, first_user),
                },
            ]
        } else {
            Seq::empty()
        };
        let use_blocks: Seq<ContentBlockModel> = if m.role == "assistant"@ && include_last && i
            == msgs.len() - 1 && m.tool_uses.len() > 0 {
            spec_tool_use_blocks(m.tool_uses)
        } else {
            Seq::empty()
        };
        let blocks = text_blocks + use_blocks;
        let next_first = first_user && !(mc.len() > 0 && is_user);
        if blocks.len() > 0 {
            (acc.push(ApiMessageModel { role: m.role, content: blocks }), next_first)
        } else {
            (acc, next_first)
        }
    }
}

/// Fold the log from position `i` onward.
pub open spec fn spec_project_from(
    msgs: Seq<MessageModel>,
    parts: Seq<Seq<char>>,
    include_last: bool,
    i: int,
    acc: Seq<ApiMessageModel>,
    first_user: bool,
) -> Seq<ApiMessageModel>
    decreases msgs.len() - i,
{
    if 0 <= i < msgs.len() {
        let step = spec_project_step(msgs, parts, include_last, i, acc, first_user);
        spec_project_from(msgs, parts, include_last, i + 1, step.0, step.1)
    } else {
        acc
    }
}

/// The whole projected request body for the block-structured provider.
pub open spec fn spec_messages_to_api(
    msgs: Seq<MessageModel>,
    parts: Seq<Seq<char>>,
    include_last: bool,
) -> Seq<ApiMessageModel> {
    spec_project_from(msgs, parts, include_last, 0, Seq::empty(), true)
}

/// Project the conversation log into the provider request body.
pub fn messages_to_api(
    messages: &Vec<Message>,
    context_items: &Vec<ContextItem>,
    include_last_tool_uses: bool,
) -> (r: Vec<ApiMessage>)
    ensures
        r.deep_view() == spec_messages_to_api(
            messages.deep_view(),
            spec_context_parts(spec_items_view(context_items@)),
            include_last_tool_uses,
        ),
{
    let parts = format_context_parts(context_items);
    let ghost mv = messages.deep_view();
    let ghost pv = parts.deep_view();
    let n = messages.len();
    let mut api: Vec<ApiMessage> = Vec::new();
    let mut first_user = true;
    let mut i: usize = 0;
    proof {
        assert(api.deep_view() =~= Seq::<ApiMessageModel>::empty());
    }
    while i < n
        invariant
            i <= n,
            n == messages@.len(),
            mv == messages.deep_view(),
            mv.len() == n,
            pv == parts.deep_view(),
            pv == spec_context_parts(spec_items_view(context_items@)),
            spec_project_from(mv, pv, include_last_tool_uses, i as int, api.deep_view(), first_user)
                == spec_messages_to_api(mv, pv, include_last_tool_uses),
        decreases n - i,
    {
        let ghost acc0 = api.deep_view();
        let ghost fu0 = first_user;
        let ghost step = spec_project_step(mv, pv, include_last_tool_uses, i as int, acc0, fu0);
        let m = &messages[i];
        proof {
            assert(m@ == mv[i as int]);
        }
        let deleted = m.status == MessageStatus::Deleted;
        let empty_msg = m.content.as_str().is_empty() && m.tool_uses.len() == 0
            && m.tool_results.len() == 0;
        if deleted || empty_msg {
        } else if m.message_type == MessageType::ToolResult {
            let blocks = build_result_blocks(m);
            proof {
                assert(blocks.deep_view().len() == blocks@.len());
                assert(blocks@.len() == spec_result_blocks(m@).len());
                assert(spec_result_blocks(m@).len() == m@.tool_results.len());
            }
            if blocks.len() > 0 {
                api.push(ApiMessage { role: String::from_str("user"), content: blocks });
                proof {
                    assert(api.deep_view() =~= acc0.push(
                        ApiMessageModel { role: "user"@, content: spec_result_blocks(m@) },
                    ));
                }
            } else {
                proof {
                    assert(api.deep_view() == acc0);
                }
            }
        } else if m.message_type == MessageType::ToolCall {
            let ids = collect_use_ids(m);
            if has_matching_result(messages, i + 1, &ids) {
                let mut blocks = build_tool_use_blocks(&m.tool_uses);
                let can_merge = if api.len() > 0 {
                    str_eq(api[api.len() - 1].role.as_str(), "assistant")
                } else {
                    false
                };
                if can_merge {
                    let last = api.pop();
                    match last {
                        Some(mut lastm) => {
                            let ghost lm = lastm.deep_view();
                            lastm.content.append(&mut blocks);
                            proof {
                                assert(lastm.deep_view().content =~= lm.content
                                    + spec_tool_use_blocks(m@.tool_uses));
                            }
                            api.push(lastm);
                            proof {
                                assert(api.deep_view() =~= acc0.update(
                                    acc0.len() - 1,
                                    ApiMessageModel {
                                        role: acc0.last().role,
                                        content: acc0.last().content + spec_tool_use_blocks(
                                            m@.tool_uses,
                                        ),
                                    },
                                ));
                            }
                        },
                        None => {},
                    }
                } else if blocks.len() > 0 {
                    api.push(ApiMessage { role: m.role.clone(), content: blocks });
                    proof {
                        assert(api.deep_view() =~= acc0.push(
                            ApiMessageModel {
                                role: mv[i as int].role,
                                content: spec_tool_use_blocks(m@.tool_uses),
                            },
                        ));
                    }
                }
            }
        } else {
            let mc: String = if m.status == MessageStatus::Summarized {
                match &m.tl_dr {
                    Some(t) => t.clone(),
                    None => m.content.clone(),
                }
            } else {
                m.content.clone()
            };
            proof {
                assert(mc@ == spec_effective_content(mv[i as int]));
            }
            let mut blocks: Vec<ContentBlock> = Vec::new();
            if !mc.as_str().is_empty() {
                let pref = prefixed(m.id.as_str(), mc.as_str());
                let is_user = str_eq(m.role.as_str(), "user");
                let text: String = if is_user && parts.len() > 0 && first_user {
                    let mut t = join_sep(&parts, "\n\n");
                    t.append("\n\n");
                    t.append(pref.as_str());
                    t
                } else {
                    pref
                };
                proof {
                    assert(text@ == spec_text_for(mv[i as int], mc@, pv, fu0));
                }
                blocks.push(ContentBlock::Text { text });
                if is_user {
                    first_user = false;
                }
            }
            let is_last = i + 1 == n;
            if str_eq(m.role.as_str(), "assistant") && include_last_tool_uses && is_last
                && m.tool_uses.len() > 0 {
                let mut ub = build_tool_use_blocks(&m.tool_uses);
                blocks.append(&mut ub);
            }
            proof {
                let mcs = spec_effective_content(mv[i as int]);
                let text_blocks: Seq<ContentBlockModel> = if mcs.len() > 0 {
                    seq![
                        ContentBlockModel::Text {
                            text: spec_text_for(mv[i as int], mcs, pv, fu0),
                        },
                    ]
                } else {
                    Seq::empty()
                };
                let use_blocks: Seq<ContentBlockModel> = if mv[i as int].role == "assistant"@
                    && include_last_tool_uses && i as int == mv.len() - 1 && mv[
                i as int].tool_uses.len() > 0 {
                    spec_tool_use_blocks(mv[i as int].tool_uses)
                } else {
                    Seq::empty()
                };
                assert(blocks.deep_view() =~= text_blocks + use_blocks);
            }
            let ghost bm = blocks.deep_view();
            if blocks.len() > 0 {
                api.push(ApiMessage { role: m.role.clone(), content: blocks });
                proof {
                    assert(api.deep_view() =~= acc0.push(
                        ApiMessageModel { role: mv[i as int].role, content: bm },
                    ));
                }
            }
        }
        proof {
            assert(api.deep_view() =~= step.0);
            assert(first_user == step.1);
        }
        i = i + 1;
    }
    proof {
        assert(spec_project_from(
            mv,
            pv,
            include_last_tool_uses,
            n as int,
            api.deep_view(),
            first_user,
        ) == api.deep_view());
    }
    api
}

/// A tool-use block is grounded when it comes from a tool-call message of
/// the log whose ids a later, non-deleted tool-result message answers.
pub open spec fn spec_block_grounded(msgs: Seq<MessageModel>, b: ContentBlockModel) -> bool {
    b matches ContentBlockModel::ToolUse { id, .. } ==> exists|t: int|
        0 <= t < msgs.len() && (#[trigger] msgs[t]).message_type == MessageType::ToolCall
            && spec_use_ids(msgs[t]).contains(id) && spec_has_matching_result(
            msgs,
            t + 1,
            spec_use_ids(msgs[t]),
        )
}

/// Every tool-use block of a projected request is grounded.
pub open spec fn spec_output_grounded(msgs: Seq<MessageModel>, out: Seq<ApiMessageModel>) -> bool {
    forall|j: int, b: int|
        0 <= j < out.len() && 0 <= b < out[j].content.len() ==> spec_block_grounded(
            msgs,
            #[trigger] out[j].content[b],
        )
}

/// One step of the replay projection keeps every block grounded.
proof fn lemma_step_grounded(
    msgs: Seq<MessageModel>,
    parts: Seq<Seq<char>>,
    i: int,
    acc: Seq<ApiMessageModel>,
    first_user: bool,
)
    requires
        0 <= i < msgs.len(),
        spec_output_grounded(msgs, acc),
    ensures
        spec_output_grounded(msgs, spec_project_step(msgs, parts, false, i, acc, first_user).0),
{
    let m = msgs[i];
    let out = spec_project_step(msgs, parts, false, i, acc, first_user).0;
    assert forall|j: int, b: int|
        0 <= j < out.len() && 0 <= b < out[j].content.len() implies spec_block_grounded(
        msgs,
        #[trigger] out[j].content[b],
    ) by {
        if j < acc.len() && (j < acc.len() - 1 || out[j] == acc[j]) {
            assert(spec_block_grounded(msgs, acc[j].content[b]));
        } else if m.status == MessageStatus::Deleted {
            assert(spec_block_grounded(msgs, acc[j].content[b]));
        } else if m.content.len() == 0 && m.tool_uses.len() == 0 && m.tool_results.len() == 0 {
            assert(spec_block_grounded(msgs, acc[j].content[b]));
        } else if m.message_type == MessageType::ToolResult {
            if j < acc.len() {
                assert(spec_block_grounded(msgs, acc[j].content[b]));
            } else {
                assert(out[j].content[b] == spec_result_blocks(m)[b]);
                assert(!(spec_result_blocks(m)[b] is ToolUse));
            }
        } else if m.message_type == MessageType::ToolCall {
            if spec_has_matching_result(msgs, i + 1, spec_use_ids(m)) {
                let blocks = spec_tool_use_blocks(m.tool_uses);
                if acc.len() > 0 && acc.last().role == "assistant"@ {
                    if j == acc.len() - 1 {
                        if b < acc.last().content.len() {
                            assert(out[j].content[b] == acc[j].content[b]);
                            assert(spec_block_grounded(msgs, acc[j].content[b]));
                        } else {
                            let b2 = b - acc.last().content.len();
                            assert(out[j].content[b] == blocks[b2]);
                            assert(spec_use_ids(m)[b2] == m.tool_uses[b2].id);
                            assert(spec_use_ids(m).contains(m.tool_uses[b2].id));
                            assert(spec_block_grounded(msgs, blocks[b2]));
                        }
                    } else {
                        assert(spec_block_grounded(msgs, acc[j].content[b]));
                    }
                } else if blocks.len() > 0 {
                    if j < acc.len() {
                        assert(spec_block_grounded(msgs, acc[j].content[b]));
                    } else {
                        let b2 = b;
                        assert(out[j].content[b] == blocks[b2]);
                        assert(spec_use_ids(m)[b2] == m.tool_uses[b2].id);
                        assert(spec_use_ids(m).contains(m.tool_uses[b2].id));
                        assert(spec_block_grounded(msgs, blocks[b2]));
                    }
                } else {
                    assert(spec_block_grounded(msgs, acc[j].content[b]));
                }
            } else {
                assert(spec_block_grounded(msgs, acc[j].content[b]));
            }
        } else {
            if j < acc.len() {
                assert(spec_block_grounded(msgs, acc[j].content[b]));
            } else {
                let mc = spec_effective_content(m);
                if mc.len() > 0 {
                    assert(out[j].content[b] == (ContentBlockModel::Text {
                        text: spec_text_for(m, mc, parts, first_user),
                    }));
                }
            }
        }
    }
}

/// The whole replay projection keeps every block grounded.
proof fn lemma_project_from_grounded(
    msgs: Seq<MessageModel>,
    parts: Seq<Seq<char>>,
    i: int,
    acc: Seq<ApiMessageModel>,
    first_user: bool,
)
    requires
        spec_output_grounded(msgs, acc),
    ensures
        spec_output_grounded(msgs, spec_project_from(msgs, parts, false, i, acc, first_user)),
    decreases msgs.len() - i,
{
    if 0 <= i < msgs.len() {
        lemma_step_grounded(msgs, parts, i, acc, first_user);
        let step = spec_project_step(msgs, parts, false, i, acc, first_user);
        lemma_project_from_grounded(msgs, parts, i + 1, step.0, step.1);
    }
}

/// Law: when replaying history, the projector never emits a tool-call
/// block lacking a correlated tool-result later in the non-deleted log —
/// every emitted tool-use block comes from a tool-call message one of
/// whose ids a later, non-deleted tool-result message answers.
pub proof fn lemma_no_orphan_tool_call(msgs: Seq<MessageModel>, parts: Seq<Seq<char>>)
    ensures
        spec_output_grounded(msgs, spec_messages_to_api(msgs, parts, false)),
{
    let acc = Seq::<ApiMessageModel>::empty();
    assert(spec_output_grounded(msgs, acc));
    lemma_project_from_grounded(msgs, parts, 0, acc, true);
}


/// One message of the chat-completions request body.
pub struct GrokMessage {
    pub role: String,
    pub content: Option<String>,
    pub tool_calls: Option<Vec<GrokToolCall>>,
    pub tool_call_id: Option<String>,
}

/// One replayed tool call of the chat-completions dialect.
pub struct GrokToolCall {
    pub id: String,
    pub call_type: String,
    pub name: String,
    pub arguments: String,
}

/// Mathematical model of a replayed tool call.
#[verifier::ext_equal]
pub ghost struct GrokToolCallModel {
    pub id: Seq<char>,
    pub call_type: Seq<char>,
    pub name: Seq<char>,
    pub arguments: Seq<char>,
}

/// Mathematical model of a chat-completions message.
#[verifier::ext_equal]
pub ghost struct GrokMessageModel {
    pub role: Seq<char>,
    pub content: Option<Seq<char>>,
    pub tool_calls: Option<Seq<GrokToolCallModel>>,
    pub tool_call_id: Option<Seq<char>>,
}

impl View for GrokToolCall {
    type V = GrokToolCallModel;

    open spec fn view(&self) -> GrokToolCallModel {
        GrokToolCallModel {
            id: self.id@,
            call_type: self.call_type@,
            name: self.name@,
            arguments: self.arguments@,
        }
    }
}

impl DeepView for GrokToolCall {
    type V = GrokToolCallModel;

    open spec fn deep_view(&self) -> GrokToolCallModel {
        self.view()
    }
}

impl View for GrokMessage {
    type V = GrokMessageModel;

    open spec fn view(&self) -> GrokMessageModel {
        GrokMessageModel {
            role: self.role@,
            content: match self.content {
                Some(ref c) => Some(c@),
                None => None,
            },
            tool_calls: match self.tool_calls {
                Some(ref tc) => Some(tc.deep_view()),
                None => None,
            },
            tool_call_id: match self.tool_call_id {
                Some(ref t) => Some(t@),
                None => None,
            },
        }
    }
}

impl DeepView for GrokMessage {
    type V = GrokMessageModel;

    open spec fn deep_view(&self) -> GrokMessageModel {
        self.view()
    }
}

/// A plain text message of the chat-completions dialect.
pub open spec fn spec_grok_text(role: Seq<char>, text: Seq<char>) -> GrokMessageModel {
    GrokMessageModel { role, content: Some(text), tool_calls: None, tool_call_id: None }
}

/// The replayed tool calls of a tool-call message.
pub open spec fn spec_grok_calls(uses: Seq<ToolUseModel>) -> Seq<GrokToolCallModel> {
    uses.map_values(
        |tu: ToolUseModel|
            GrokToolCallModel {
                id: tu.id,
                call_type: "function"@,
                name: tu.name,
                arguments: tu.input_json,
            },
    )
}

/// The tool-result messages a tool-result message unrolls into.
pub open spec fn spec_grok_results(m: MessageModel) -> Seq<GrokMessageModel> {
    m.tool_results.map_values(
        |r: ToolResultModel|
            GrokMessageModel {
                role: "tool"@,
                content: Some(spec_prefixed(m.id, r.content)),
                tool_calls: None,
                tool_call_id: Some(r.tool_use_id),
            },
    )
}

/// What one message of the log adds to the chat-completions request, and
/// whether a first eligible user message is still pending afterwards.  A
/// tool-call message is replayed only when a later, non-deleted
/// tool-result message answers one of its ids; otherwise the whole
/// message is dropped, so the provider never sees a dangling tool call.
pub open spec fn spec_grok_step(
    msgs: Seq<MessageModel>,
    parts: Seq<Seq<char>>,
    i: int,
    acc: Seq<GrokMessageModel>,
    first_user: bool,
) -> (Seq<GrokMessageModel>, bool)
    recommends
        0 <= i < msgs.len(),
{
    let m = msgs[i];
    if m.status == MessageStatus::Deleted {
        (acc, first_user)
    } else if m.content.len() == 0 && m.tool_uses.len() == 0 && m.tool_results.len() == 0 {
        (acc, first_user)
    } else if m.message_type == MessageType::ToolResult {
        (acc + spec_grok_results(m), first_user)
    } else if m.message_type == MessageType::ToolCall {
        if spec_has_matching_result(msgs, i + 1, spec_use_ids(m)) {
            (
                acc.push(
                    GrokMessageModel {
                        role: "assistant"@,
                        content: None,
                        tool_calls: Some(spec_grok_calls(m.tool_uses)),
                        tool_call_id: None,
                    },
                ),
                first_user,
            )
        } else {
            (acc, first_user)
        }
    } else {
        let mc = spec_effective_content(m);
        if mc.len() > 0 {
            let is_user = m.role == "user"@;
            if is_user && first_user && parts.len() > 0 {
                (
                    acc.push(
                        spec_grok_text(
                            m.role,
                            spec_join_sep(parts, "\n\n"@) + "\n\n"@ + spec_prefixed(m.id, mc),
                        ),
                    ),
                    false,
                )
            } else {
                (
                    acc.push(spec_grok_text(m.role, spec_prefixed(m.id, mc))),
                    first_user && !is_user,
                )
            }
        } else {
            (acc, first_user)
        }
    }
}

/// Fold the log from position `i` onward.
pub open spec fn spec_grok_from(
    msgs: Seq<MessageModel>,
    parts: Seq<Seq<char>>,
    i: int,
    acc: Seq<GrokMessageModel>,
    first_user: bool,
) -> Seq<GrokMessageModel>
    decreases msgs.len() - i,
{
    if 0 <= i < msgs.len() {
        let step = spec_grok_step(msgs, parts, i, acc, first_user);
        spec_grok_from(msgs, parts, i + 1, step.0, step.1)
    } else {
        acc
    }
}

/// The opening messages of a chat-completions request: the system prompt,
/// and the cleanup request when extra context is supplied.
pub open spec fn spec_grok_prelude(
    system_prompt: Option<Seq<char>>,
    extra_context: Option<Seq<char>>,
    main_system: Seq<char>,
) -> Seq<GrokMessageModel> {
    let sys = spec_grok_text(
        "system"@,
        match system_prompt {
            Some(p) => p,
            None => main_system,
        },
    );
    match extra_context {
        Some(ctx) => seq![
            sys,
            spec_grok_text(
                "user"@,
                "Please clean up the context to reduce token usage:\n\n"@ + ctx,
            ),
        ],
        None => seq![sys],
    }
}

/// The whole projected request body for the chat-completions provider.
pub open spec fn spec_messages_to_grok(
    msgs: Seq<MessageModel>,
    parts: Seq<Seq<char>>,
    system_prompt: Option<Seq<char>>,
    extra_context: Option<Seq<char>>,
    main_system: Seq<char>,
) -> Seq<GrokMessageModel> {
    spec_grok_from(
        msgs,
        parts,
        0,
        spec_grok_prelude(system_prompt, extra_context, main_system),
        true,
    )
}

/// Build the replayed tool calls of a message.
fn build_grok_calls(uses: &Vec<ToolUse>) -> (r: Vec<GrokToolCall>)
    ensures
        r.deep_view() == spec_grok_calls(uses.deep_view()),
{
    let ghost uv = uses.deep_view();
    let n = uses.len();
    let mut out: Vec<GrokToolCall> = Vec::new();
    let mut i: usize = 0;
    while i < n
        invariant
            i <= n,
            n == uses@.len(),
            uv == uses.deep_view(),
            uv.len() == n,
            out.deep_view() == spec_grok_calls(uv).subrange(0, i as int),
        decreases n - i,
    {
        let ghost prev = out.deep_view();
        out.push(
            GrokToolCall {
                id: uses[i].id.clone(),
                call_type: String::from_str("function"),
                name: uses[i].name.clone(),
                arguments: uses[i].input_json.clone(),
            },
        );
        proof {
            assert(out.deep_view() =~= prev.push(spec_grok_calls(uv)[i as int]));
            assert(prev.push(spec_grok_calls(uv)[i as int]) =~= spec_grok_calls(uv).subrange(
                0,
                i + 1,
            ));
        }
        i = i + 1;
    }
    proof {
        assert(spec_grok_calls(uv).subrange(0, n as int) =~= spec_grok_calls(uv));
    }
    out
}

/// Project the conversation log into the chat-completions request body.
pub fn messages_to_grok(
    messages: &Vec<Message>,
    context_items: &Vec<ContextItem>,
    system_prompt: &Option<String>,
    extra_context: &Option<String>,
    main_system: &str,
) -> (r: Vec<GrokMessage>)
    ensures
        r.deep_view() == spec_messages_to_grok(
            messages.deep_view(),
            spec_context_parts(spec_items_view(context_items@)),
            system_prompt.deep_view(),
            extra_context.deep_view(),
            main_system@,
        ),
{
    let parts = format_context_parts(context_items);
    let ghost mv = messages.deep_view();
    let ghost pv = parts.deep_view();
    let mut out: Vec<GrokMessage> = Vec::new();
    let sys_content: String = match system_prompt {
        Some(p) => p.clone(),
        None => String::from_str(main_system),
    };
    out.push(
        GrokMessage {
            role: String::from_str("system"),
            content: Some(sys_content),
            tool_calls: None,
            tool_call_id: None,
        },
    );
    match extra_context {
        Some(ctx) => {
            let mut text = String::from_str("Please clean up the context to reduce token usage:\n\n");
            text.append(ctx.as_str());
            out.push(
                GrokMessage {
                    role: String::from_str("user"),
                    content: Some(text),
                    tool_calls: None,
                    tool_call_id: None,
                },
            );
        },
        None => {},
    }
    proof {
        assert(out.deep_view() =~= spec_grok_prelude(
            system_prompt.deep_view(),
            extra_context.deep_view(),
            main_system@,
        ));
    }
    let n = messages.len();
    let mut i: usize = 0;
    let mut first_user = true;
    while i < n
        invariant
            i <= n,
            n == messages@.len(),
            mv == messages.deep_view(),
            mv.len() == n,
            pv == parts.deep_view(),
            pv == spec_context_parts(spec_items_view(context_items@)),
            spec_grok_from(mv, pv, i as int, out.deep_view(), first_user)
                == spec_messages_to_grok(
                mv,
                pv,
                system_prompt.deep_view(),
                extra_context.deep_view(),
                main_system@,
            ),
        decreases n - i,
    {
        let ghost acc0 = out.deep_view();
        let ghost fu0 = first_user;
        let ghost step = spec_grok_step(mv, pv, i as int, acc0, fu0);
        let m = &messages[i];
        proof {
            assert(m@ == mv[i as int]);
        }
        let deleted = m.status == MessageStatus::Deleted;
        let empty_msg = m.content.as_str().is_empty() && m.tool_uses.len() == 0
            && m.tool_results.len() == 0;
        if deleted || empty_msg {
        } else if m.message_type == MessageType::ToolResult {
            let nr = m.tool_results.len();
            let mut r2: usize = 0;
            while r2 < nr
                invariant
                    r2 <= nr,
                    nr == m.tool_results@.len(),
                    m == messages[i as int],
                    i < n,
                    n == messages@.len(),
                    mv == messages.deep_view(),
                    mv.len() == n,
                    out.deep_view() == acc0 + spec_grok_results(m@).subrange(0, r2 as int),
                decreases nr - r2,
            {
                let ghost prev = out.deep_view();
                let content = prefixed(m.id.as_str(), m.tool_results[r2].content.as_str());
                out.push(
                    GrokMessage {
                        role: String::from_str("tool"),
                        content: Some(content),
                        tool_calls: None,
                        tool_call_id: Some(m.tool_results[r2].tool_use_id.clone()),
                    },
                );
                proof {
                    assert(out.deep_view() =~= prev.push(spec_grok_results(m@)[r2 as int]));
                    assert(prev.push(spec_grok_results(m@)[r2 as int]) =~= acc0
                        + spec_grok_results(m@).subrange(0, r2 + 1));
                }
                r2 = r2 + 1;
            }
            proof {
                assert(spec_grok_results(m@).subrange(0, nr as int) =~= spec_grok_results(m@));
            }
        } else if m.message_type == MessageType::ToolCall {
            let ids = collect_use_ids(m);
            if has_matching_result(messages, i + 1, &ids) {
                let calls = build_grok_calls(&m.tool_uses);
                out.push(
                    GrokMessage {
                        role: String::from_str("assistant"),
                        content: None,
                        tool_calls: Some(calls),
                        tool_call_id: None,
                    },
                );
                proof {
                    assert(out.deep_view() =~= acc0.push(
                        GrokMessageModel {
                            role: "assistant"@,
                            content: None,
                            tool_calls: Some(spec_grok_calls(mv[i as int].tool_uses)),
                            tool_call_id: None,
                        },
                    ));
                }
            }
        } else {
            let mc: String = if m.status == MessageStatus::Summarized {
                match &m.tl_dr {
                    Some(t) => t.clone(),
                    None => m.content.clone(),
                }
            } else {
                m.content.clone()
            };
            proof {
                assert(mc@ == spec_effective_content(mv[i as int]));
            }
            if !mc.as_str().is_empty() {
                let pref = prefixed(m.id.as_str(), mc.as_str());
                let is_user = str_eq(m.role.as_str(), "user");
                let text: String = if is_user && first_user && parts.len() > 0 {
                    first_user = false;
                    let mut t = join_sep(&parts, "\n\n");
                    t.append("\n\n");
                    t.append(pref.as_str());
                    t
                } else {
                    if is_user {
                        first_user = false;
                    }
                    pref
                };
                out.push(
                    GrokMessage {
                        role: m.role.clone(),
                        content: Some(text),
                        tool_calls: None,
                        tool_call_id: None,
                    },
                );
                proof {
                    assert(out.deep_view() =~= step.0);
                }
            }
        }
        proof {
            assert(out.deep_view() =~= step.0);
            assert(first_user == step.1);
        }
        i = i + 1;
    }
    proof {
        assert(spec_grok_from(mv, pv, n as int, out.deep_view(), first_user) == out.deep_view());
    }
    out
}

/// A replayed tool call is grounded when it comes from a tool-call
/// message of the log whose ids a later, non-deleted tool-result message
/// answers.
pub open spec fn spec_grok_call_grounded(msgs: Seq<MessageModel>, c: GrokToolCallModel) -> bool {
    exists|t: int|
        0 <= t < msgs.len() && (#[trigger] msgs[t]).message_type == MessageType::ToolCall
            && spec_use_ids(msgs[t]).contains(c.id) && spec_has_matching_result(
            msgs,
            t + 1,
            spec_use_ids(msgs[t]),
        )
}

/// Every tool call a request message carries is grounded.
pub open spec fn spec_grok_msg_grounded(msgs: Seq<MessageModel>, gm: GrokMessageModel) -> bool {
    match gm.tool_calls {
        Some(calls) => forall|b: int|
            0 <= b < calls.len() ==> spec_grok_call_grounded(msgs, #[trigger] calls[b]),
        None => true,
    }
}

/// Every tool call of a projected request is grounded.
pub open spec fn spec_grok_output_grounded(
    msgs: Seq<MessageModel>,
    out: Seq<GrokMessageModel>,
) -> bool {
    forall|j: int| 0 <= j < out.len() ==> spec_grok_msg_grounded(msgs, #[trigger] out[j])
}

/// One step of the chat-completions projection keeps every tool call
/// grounded.
proof fn lemma_grok_step_grounded(
    msgs: Seq<MessageModel>,
    parts: Seq<Seq<char>>,
    i: int,
    acc: Seq<GrokMessageModel>,
    first_user: bool,
)
    requires
        0 <= i < msgs.len(),
        spec_grok_output_grounded(msgs, acc),
    ensures
        spec_grok_output_grounded(msgs, spec_grok_step(msgs, parts, i, acc, first_user).0),
{
    let m = msgs[i];
    let out = spec_grok_step(msgs, parts, i, acc, first_user).0;
    assert forall|j: int| 0 <= j < out.len() implies spec_grok_msg_grounded(
        msgs,
        #[trigger] out[j],
    ) by {
        if j < acc.len() {
            assert(out[j] == acc[j]);
            assert(spec_grok_msg_grounded(msgs, acc[j]));
        } else if m.status == MessageStatus::Deleted {
        } else if m.content.len() == 0 && m.tool_uses.len() == 0 && m.tool_results.len() == 0 {
        } else if m.message_type == MessageType::ToolResult {
            assert(out[j] == spec_grok_results(m)[j - acc.len()]);
            assert(spec_grok_results(m)[j - acc.len()].tool_calls is None);
        } else if m.message_type == MessageType::ToolCall {
            assert(spec_has_matching_result(msgs, i + 1, spec_use_ids(m)));
            let calls = spec_grok_calls(m.tool_uses);
            assert(out[j].tool_calls == Some(calls));
            assert forall|b: int| 0 <= b < calls.len() implies spec_grok_call_grounded(
                msgs,
                #[trigger] calls[b],
            ) by {
                assert(calls[b].id == m.tool_uses[b].id);
                assert(spec_use_ids(m)[b] == m.tool_uses[b].id);
                assert(spec_use_ids(m).contains(m.tool_uses[b].id));
            }
        } else {
            assert(out[j].tool_calls is None);
        }
    }
}

/// The whole chat-completions projection keeps every tool call grounded.
proof fn lemma_grok_from_grounded(
    msgs: Seq<MessageModel>,
    parts: Seq<Seq<char>>,
    i: int,
    acc: Seq<GrokMessageModel>,
    first_user: bool,
)
    requires
        spec_grok_output_grounded(msgs, acc),
    ensures
        spec_grok_output_grounded(msgs, spec_grok_from(msgs, parts, i, acc, first_user)),
    decreases msgs.len() - i,
{
    if 0 <= i < msgs.len() {
        lemma_grok_step_grounded(msgs, parts, i, acc, first_user);
        let step = spec_grok_step(msgs, parts, i, acc, first_user);
        lemma_grok_from_grounded(msgs, parts, i + 1, step.0, step.1);
    }
}

/// Law: the chat-completions projector never replays a tool-call message
/// lacking a correlated tool-result later in the non-deleted log — every
/// replayed tool call comes from a tool-call message one of whose ids a
/// later, non-deleted tool-result message answers.
pub proof fn lemma_no_orphan_tool_call_grok(
    msgs: Seq<MessageModel>,
    parts: Seq<Seq<char>>,
    system_prompt: Option<Seq<char>>,
    extra_context: Option<Seq<char>>,
    main_system: Seq<char>,
)
    ensures
        spec_grok_output_grounded(
            msgs,
            spec_messages_to_grok(msgs, parts, system_prompt, extra_context, main_system),
        ),
{
    let prelude = spec_grok_prelude(system_prompt, extra_context, main_system);
    assert forall|j: int| 0 <= j < prelude.len() implies spec_grok_msg_grounded(
        msgs,
        #[trigger] prelude[j],
    ) by {
        assert(prelude[j].tool_calls is None);
    }
    lemma_grok_from_grounded(msgs, parts, 0, prelude, true);
}

/// One advertised tool of the chat-completions dialect.
pub struct GrokTool {
    pub tool_type: String,
    pub name: String,
    pub description: String,
    pub parameters_json: String,
}

/// Mathematical model of an advertised tool.
#[verifier::ext_equal]
pub ghost struct GrokToolModel {
    pub tool_type: Seq<char>,
    pub name: Seq<char>,
    pub description: Seq<char>,
    pub parameters_json: Seq<char>,
}

impl View for GrokTool {
    type V = GrokToolModel;

    open spec fn view(&self) -> GrokToolModel {
        GrokToolModel {
            tool_type: self.tool_type@,
            name: self.name@,
            description: self.description@,
            parameters_json: self.parameters_json@,
        }
    }
}

impl DeepView for GrokTool {
    type V = GrokToolModel;

    open spec fn deep_view(&self) -> GrokToolModel {
        self.view()
    }
}

/// A tool the model may call: identifier, description, whether it is
/// offered, and its parameter schema as JSON text.
pub struct ToolDefinition {
    pub id: String,
    pub description: String,
    pub enabled: bool,
    pub parameters_json: String,
}

/// Mathematical model of a tool definition.
#[verifier::ext_equal]
pub ghost struct ToolDefinitionModel {
    pub id: Seq<char>,
    pub description: Seq<char>,
    pub enabled: bool,
    pub parameters_json: Seq<char>,
}

impl View for ToolDefinition {
    type V = ToolDefinitionModel;

    open spec fn view(&self) -> ToolDefinitionModel {
        ToolDefinitionModel {
            id: self.id@,
            description: self.description@,
            enabled: self.enabled,
            parameters_json: self.parameters_json@,
        }
    }
}

impl DeepView for ToolDefinition {
    type V = ToolDefinitionModel;

    open spec fn deep_view(&self) -> ToolDefinitionModel {
        self.view()
    }
}

/// The enabled tools in chat-completions shape, in order.
pub open spec fn spec_tools_to_grok(tools: Seq<ToolDefinitionModel>) -> Seq<GrokToolModel>
    decreases tools.len(),
{
    if tools.len() == 0 {
        Seq::empty()
    } else {
        let head: Seq<GrokToolModel> = if tools[0].enabled {
            seq![
                GrokToolModel {
                    tool_type: "function"@,
                    name: tools[0].id,
                    description: tools[0].description,
                    parameters_json: tools[0].parameters_json,
                },
            ]
        } else {
            Seq::empty()
        };
        head + spec_tools_to_grok(tools.drop_first())
    }
}

/// Convert the enabled tool definitions to the chat-completions shape.
pub fn tools_to_grok(tools: &Vec<ToolDefinition>) -> (r: Vec<GrokTool>)
    ensures
        r.deep_view() == spec_tools_to_grok(tools.deep_view()),
{
    let ghost tv = tools.deep_view();
    let n = tools.len();
    let mut out: Vec<GrokTool> = Vec::new();
    let mut i: usize = 0;
    proof {
        assert(tv.subrange(0, n as int) =~= tv);
        assert(Seq::<GrokToolModel>::empty() + spec_tools_to_grok(tv) =~= spec_tools_to_grok(tv));
    }
    while i < n
        invariant
            i <= n,
            n == tools@.len(),
            tv == tools.deep_view(),
            tv.len() == n,
            spec_tools_to_grok(tv) == out.deep_view() + spec_tools_to_grok(
                tv.subrange(i as int, n as int),
            ),
        decreases n - i,
    {
        let ghost resti = tv.subrange(i as int, n as int);
        let ghost prev = out.deep_view();
        proof {
            assert(resti[0] == tv[i as int]);
            assert(resti.drop_first() =~= tv.subrange(i + 1, n as int));
        }
        if tools[i].enabled {
            let g = GrokTool {
                tool_type: String::from_str("function"),
                name: tools[i].id.clone(),
                description: tools[i].description.clone(),
                parameters_json: tools[i].parameters_json.clone(),
            };
            let ghost gm = g@;
            out.push(g);
            proof {
                assert(out.deep_view() =~= prev.push(gm));
                assert(prev.push(gm) + spec_tools_to_grok(tv.subrange(i + 1, n as int)) =~= prev
                    + (seq![gm] + spec_tools_to_grok(tv.subrange(i + 1, n as int))));
            }
        } else {
            proof {
                assert(Seq::<GrokToolModel>::empty() + spec_tools_to_grok(
                    tv.subrange(i + 1, n as int),
                ) =~= spec_tools_to_grok(tv.subrange(i + 1, n as int)));
            }
        }
        i = i + 1;
    }
    proof {
        assert(tv.subrange(n as int, n as int) =~= Seq::<ToolDefinitionModel>::empty());
        assert(out.deep_view() + Seq::<GrokToolModel>::empty() =~= out.deep_view());
    }
    out
}

} // verus!
