//! Rendering the memory store for the model's context: memories sorted by
//! importance, open ones with their full contents, closed ones as a
//! single summary line.

use vstd::prelude::*;
use vstd::string::StrSliceExecFns;
use vstd::string::StringExecFns;

use crate::strutil::{join_sep, spec_join_sep, str_eq};

verus! {

/// How urgently a memory should stay in view.
#[derive(PartialEq, Eq, Structural, Clone, Copy, Debug)]
pub enum MemoryImportance {
    Critical,
    High,
    Medium,
    Low,
}

/// Sort rank of an importance: critical first.
pub open spec fn spec_importance_rank(i: MemoryImportance) -> int {
    match i {
        MemoryImportance::Critical => 0,
        MemoryImportance::High => 1,
        MemoryImportance::Medium => 2,
        MemoryImportance::Low => 3,
    }
}

/// Display name of an importance.
pub open spec fn spec_importance_name(i: MemoryImportance) -> Seq<char> {
    match i {
        MemoryImportance::Critical => "critical"@,
        MemoryImportance::High => "high"@,
        MemoryImportance::Medium => "medium"@,
        MemoryImportance::Low => "low"@,
    }
}

impl MemoryImportance {
    /// The importance's display name.
    pub fn as_str(&self) -> (r: &'static str)
        ensures
            r@ == spec_importance_name(*self),
    {
        match self {
            MemoryImportance::Critical => "critical",
            MemoryImportance::High => "high",
            MemoryImportance::Medium => "medium",
            MemoryImportance::Low => "low",
        }
    }
}

/// One remembered note.
pub struct MemoryItem {
    pub id: String,
    pub tl_dr: String,
    pub contents: String,
    pub importance: MemoryImportance,
    pub labels: Vec<String>,
}

/// Mathematical model of a memory.
#[verifier::ext_equal]
pub ghost struct MemoryItemModel {
    pub id: Seq<char>,
    pub tl_dr: Seq<char>,
    pub contents: Seq<char>,
    pub importance: MemoryImportance,
    pub labels: Seq<Seq<char>>,
}

impl View for MemoryItem {
    type V = MemoryItemModel;

    open spec fn view(&self) -> MemoryItemModel {
        MemoryItemModel {
            id: self.id@,
            tl_dr: self.tl_dr@,
            contents: self.contents@,
            importance: self.importance,
            labels: self.labels.deep_view(),
        }
    }
}

impl DeepView for MemoryItem {
    type V = MemoryItemModel;

    open spec fn deep_view(&self) -> MemoryItemModel {
        self.view()
    }
}

/// The memories of one importance rank, kept in their stored order.
pub open spec fn spec_filter_rank(ms: Seq<MemoryItemModel>, rank: int) -> Seq<MemoryItemModel>
    decreases ms.len(),
{
    if ms.len() == 0 {
        Seq::empty()
    } else {
        let head: Seq<MemoryItemModel> = if spec_importance_rank(ms[0].importance) == rank {
            seq![ms[0]]
        } else {
            Seq::empty()
        };
        head + spec_filter_rank(ms.drop_first(), rank)
    }
}

/// Memories sorted by importance, stably: critical, high, medium, low.
pub open spec fn spec_sorted_memories(ms: Seq<MemoryItemModel>) -> Seq<MemoryItemModel> {
    spec_filter_rank(ms, 0) + spec_filter_rank(ms, 1) + spec_filter_rank(ms, 2) + spec_filter_rank(
        ms,
        3,
    )
}

/// The bracketed label list of a memory, or nothing.
pub open spec fn spec_labels_part(labels: Seq<Seq<char>>) -> Seq<char> {
    if labels.len() == 0 {
        Seq::empty()
    } else {
        " ["@ + spec_join_sep(labels, ", "@) + "]"@
    }
}

/// One memory as rendered into the context: a summary line, and for an
/// open memory its full contents.
pub open spec fn spec_memory_block(m: MemoryItemModel, is_open: bool) -> Seq<char> {
    let header = "["@ + m.id + "] "@ + m.tl_dr + " ("@ + spec_importance_name(m.importance) + ")"@
        + spec_labels_part(m.labels) + "\n"@;
    if is_open && m.contents.len() > 0 {
        header + m.contents + "\n\n"@
    } else {
        header
    }
}

/// Whether a memory is open, by id.
pub open spec fn spec_is_open(open_ids: Seq<Seq<char>>, id: Seq<char>) -> bool {
    open_ids.contains(id)
}

/// All memories rendered in order.
pub open spec fn spec_render_memories(
    ms: Seq<MemoryItemModel>,
    open_ids: Seq<Seq<char>>,
) -> Seq<char>
    decreases ms.len(),
{
    if ms.len() == 0 {
        Seq::empty()
    } else {
        spec_memory_block(ms[0], spec_is_open(open_ids, ms[0].id)) + spec_render_memories(
            ms.drop_first(),
            open_ids,
        )
    }
}

/// Trailing whitespace, as the final rendering drops it: any white-space
/// character.
pub open spec fn spec_trail_ws(c: char) -> bool {
    crate::strutil::spec_white_space(c)
}

/// A text without its trailing whitespace.
pub open spec fn spec_trim_end(s: Seq<char>) -> Seq<char>
    decreases s.len(),
{
    if s.len() > 0 && spec_trail_ws(s[s.len() - 1]) {
        spec_trim_end(s.drop_last())
    } else {
        s
    }
}

/// The whole memory store as one context text: `"No memories"` when
/// empty, else the sorted rendering without its trailing blank lines.
pub open spec fn spec_format_memories(
    ms: Seq<MemoryItemModel>,
    open_ids: Seq<Seq<char>>,
) -> Seq<char> {
    if ms.len() == 0 {
        "No memories"@
    } else {
        spec_trim_end(spec_render_memories(spec_sorted_memories(ms), open_ids))
    }
}

/// Trimming takes exactly the trailing whitespace off.
proof fn lemma_trim_end_at(s: Seq<char>, e: int)
    requires
        0 <= e <= s.len(),
        forall|j: int| e <= j < s.len() ==> spec_trail_ws(#[trigger] s[j]),
        e > 0 ==> !spec_trail_ws(s[e - 1]),
    ensures
        spec_trim_end(s) == s.subrange(0, e),
    decreases s.len(),
{
    if e < s.len() {
        assert(spec_trail_ws(s[s.len() - 1]));
        assert forall|j: int| e <= j < s.drop_last().len() implies spec_trail_ws(
            #[trigger] s.drop_last()[j],
        ) by {
            assert(s.drop_last()[j] == s[j]);
        }
        lemma_trim_end_at(s.drop_last(), e);
        assert(s.drop_last().subrange(0, e) =~= s.subrange(0, e));
    } else {
        assert(s.subrange(0, s.len() as int) =~= s);
    }
}

/// Drop trailing whitespace.
fn trim_end_str(s: &str) -> (r: String)
    ensures
        r@ == spec_trim_end(s@),
{
    let n = s.unicode_len();
    let mut e: usize = n;
    while e > 0
        invariant
            e <= n,
            n == s@.len(),
            forall|j: int| e <= j < n ==> spec_trail_ws(#[trigger] s@[j]),
        decreases e,
    {
        let c = s.get_char(e - 1);
        if !crate::strutil::is_white_space(c) {
            proof {
                lemma_trim_end_at(s@, e as int);
            }
            let head = s.substring_char(0, e);
            return String::from_str(head);
        }
        e = e - 1;
    }
    proof {
        lemma_trim_end_at(s@, 0);
        assert(s@.subrange(0, 0) =~= Seq::<char>::empty());
    }
    String::new()
}

/// Is this id among the open ones?
fn is_open_id(open_ids: &Vec<String>, id: &str) -> (r: bool)
    ensures
        r == spec_is_open(open_ids.deep_view(), id@),
{
    let n = open_ids.len();
    let mut i: usize = 0;
    while i < n
        invariant
            i <= n,
            n == open_ids@.len(),
            forall|j: int| 0 <= j < i ==> open_ids.deep_view()[j] != id@,
        decreases n - i,
    {
        if str_eq(open_ids[i].as_str(), id) {
            proof {
                assert(open_ids.deep_view()[i as int] == id@);
            }
            return true;
        }
        i = i + 1;
    }
    proof {
        if spec_is_open(open_ids.deep_view(), id@) {
            let j = choose|j: int|
                0 <= j < open_ids.deep_view().len() && open_ids.deep_view()[j] == id@;
            assert(open_ids.deep_view()[j] != id@);
        }
    }
    false
}

/// The memories of one rank, in stored order.
fn filter_rank(memories: &Vec<MemoryItem>, rank: usize) -> (r: Vec<MemoryItem>)
    ensures
        r.deep_view() == spec_filter_rank(memories.deep_view(), rank as int),
{
    let ghost mv = memories.deep_view();
    let n = memories.len();
    let mut out: Vec<MemoryItem> = Vec::new();
    let mut i: usize = 0;
    proof {
        assert(mv.subrange(0, n as int) =~= mv);
        assert(Seq::<MemoryItemModel>::empty() + spec_filter_rank(mv, rank as int)
            =~= spec_filter_rank(mv, rank as int));
    }
    while i < n
        invariant
            i <= n,
            n == memories@.len(),
            mv == memories.deep_view(),
            mv.len() == n,
            spec_filter_rank(mv, rank as int) == out.deep_view() + spec_filter_rank(
                mv.subrange(i as int, n as int),
                rank as int,
            ),
        decreases n - i,
    {
        let ghost resti = mv.subrange(i as int, n as int);
        let ghost prev = out.deep_view();
        proof {
            assert(resti[0] == mv[i as int]);
            assert(resti.drop_first() =~= mv.subrange(i + 1, n as int));
        }
        let m = &memories[i];
        let matches_rank = match m.importance {
            MemoryImportance::Critical => rank == 0,
            MemoryImportance::High => rank == 1,
            MemoryImportance::Medium => rank == 2,
            MemoryImportance::Low => rank == 3,
        };
        if matches_rank {
            let copy = MemoryItem {
                id: m.id.clone(),
                tl_dr: m.tl_dr.clone(),
                contents: m.contents.clone(),
                importance: m.importance,
                labels: m.labels.clone(),
            };
            proof {
                assert(copy.deep_view() =~= mv[i as int]);
            }
            out.push(copy);
            proof {
                assert(out.deep_view() =~= prev.push(mv[i as int]));
                assert(prev.push(mv[i as int]) + spec_filter_rank(
                    mv.subrange(i + 1, n as int),
                    rank as int,
                ) =~= prev + (seq![mv[i as int]] + spec_filter_rank(
                    mv.subrange(i + 1, n as int),
                    rank as int,
                )));
            }
        } else {
            proof {
                assert(Seq::<MemoryItemModel>::empty() + spec_filter_rank(
                    mv.subrange(i + 1, n as int),
                    rank as int,
                ) =~= spec_filter_rank(mv.subrange(i + 1, n as int), rank as int));
            }
        }
        i = i + 1;
    }
    proof {
        assert(mv.subrange(n as int, n as int) =~= Seq::<MemoryItemModel>::empty());
        assert(out.deep_view() + Seq::<MemoryItemModel>::empty() =~= out.deep_view());
    }
    out
}

/// Render one memory.
fn memory_block(m: &MemoryItem, is_open: bool) -> (r: String)
    ensures
        r@ == spec_memory_block(m@, is_open),
{
    let mut header = crate::strutil::str_concat("[", m.id.as_str());
    header.append("] ");
    header.append(m.tl_dr.as_str());
    header.append(" (");
    header.append(m.importance.as_str());
    header.append(")");
    if m.labels.len() > 0 {
        header.append(" [");
        let joined = join_sep(&m.labels, ", ");
        header.append(joined.as_str());
        header.append("]");
    }
    header.append("\n");
    proof {
        assert(header@ =~= "["@ + m.id@ + "] "@ + m.tl_dr@ + " ("@ + spec_importance_name(
            m.importance,
        ) + ")"@ + spec_labels_part(m@.labels) + "\n"@);
    }
    if is_open && !m.contents.as_str().is_empty() {
        header.append(m.contents.as_str());
        header.append("\n\n");
        proof {
            assert(header@ =~= spec_memory_block(m@, is_open));
        }
        header
    } else {
        header
    }
}

/// Format the memory store for the model's context: sorted by
/// importance, open memories with their contents, closed ones as one
/// line each.
pub fn format_memories_for_context(
    memories: &Vec<MemoryItem>,
    open_memory_ids: &Vec<String>,
) -> (r: String)
    ensures
        r@ == spec_format_memories(memories.deep_view(), open_memory_ids.deep_view()),
{
    if memories.len() == 0 {
        return String::from_str("No memories");
    }
    let mut sorted = filter_rank(memories, 0);
    let mut high = filter_rank(memories, 1);
    let mut medium = filter_rank(memories, 2);
    let mut low = filter_rank(memories, 3);
    sorted.append(&mut high);
    sorted.append(&mut medium);
    sorted.append(&mut low);
    proof {
        assert(sorted.deep_view() =~= spec_sorted_memories(memories.deep_view()));
    }
    let ghost sm = sorted.deep_view();
    let n = sorted.len();
    let mut out = String::new();
    let mut i: usize = 0;
    proof {
        assert(sm.subrange(0, n as int) =~= sm);
        assert(Seq::<char>::empty() + spec_render_memories(sm, open_memory_ids.deep_view())
            =~= spec_render_memories(sm, open_memory_ids.deep_view()));
    }
    while i < n
        invariant
            i <= n,
            n == sorted@.len(),
            sm == sorted.deep_view(),
            sm.len() == n,
            spec_render_memories(sm, open_memory_ids.deep_view()) == out@ + spec_render_memories(
                sm.subrange(i as int, n as int),
                open_memory_ids.deep_view(),
            ),
        decreases n - i,
    {
        let ghost resti = sm.subrange(i as int, n as int);
        proof {
            assert(resti[0] == sm[i as int]);
            assert(resti.drop_first() =~= sm.subrange(i + 1, n as int));
        }
        let m = &sorted[i];
        let open = is_open_id(open_memory_ids, m.id.as_str());
        let block = memory_block(m, open);
        out.append(block.as_str());
        i = i + 1;
    }
    proof {
        assert(sm.subrange(n as int, n as int) =~= Seq::<MemoryItemModel>::empty());
        assert(out@ + Seq::<char>::empty() =~= out@);
    }
    trim_end_str(out.as_str())
}

} // verus!
