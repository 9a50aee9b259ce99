//! Lightweight profiling of slow operations: a guard notes when an
//! operation started, and on completion the elapsed time is logged only
//! when it crosses the reporting threshold.  The caller supplies clock
//! readings and does the logging.

use vstd::prelude::*;
use vstd::string::StrSliceExecFns;
use vstd::string::StringExecFns;

use crate::listedit::{lemma_digits_prefix_le, spec_all_digits, spec_digits_val, spec_is_digit};
use crate::strutil::{
    is_white_space, join_sep, push_char, spec_join_sep, spec_lines, spec_white_space, split_lines,
};

verus! {

broadcast use vstd::seq_lib::group_to_multiset_ensures;

/// Only operations that took at least this long are logged, in
/// milliseconds.
pub const PROFILE_THRESHOLD_MS: u64 = 5;

/// An in-flight measurement of one named operation.
pub struct ProfileGuard {
    pub name: String,
    pub start_us: u64,
}

impl ProfileGuard {
    /// Start measuring an operation at the given clock reading.
    pub fn new(name: &str, now_us: u64) -> (r: ProfileGuard)
        ensures
            r.name@ == name@,
            r.start_us == now_us,
    {
        ProfileGuard { name: String::from_str(name), start_us: now_us }
    }

    /// The milliseconds the operation has taken by the given clock
    /// reading; a reading before the start counts as no time at all.
    pub fn elapsed_ms(&self, now_us: u64) -> (r: u64)
        ensures
            now_us >= self.start_us ==> r == (now_us - self.start_us) / 1000,
            now_us < self.start_us ==> r == 0,
    {
        if now_us >= self.start_us {
            (now_us - self.start_us) / 1000
        } else {
            0
        }
    }
}

/// Whether an elapsed time crosses the reporting threshold.
pub fn should_log(elapsed_ms: u64) -> (r: bool)
    ensures
        r == (elapsed_ms >= PROFILE_THRESHOLD_MS),
{
    elapsed_ms >= PROFILE_THRESHOLD_MS
}


/// Splitter state: the tokens finished so far and the one being
/// collected.
#[verifier::ext_equal]
pub ghost struct SplitWsState {
    pub parts: Seq<Seq<char>>,
    pub cur: Seq<char>,
}

/// One character of whitespace splitting.
pub open spec fn spec_ws_step(st: SplitWsState, c: char) -> SplitWsState {
    if spec_white_space(c) {
        if st.cur.len() > 0 {
            SplitWsState { parts: st.parts.push(st.cur), cur: Seq::empty() }
        } else {
            st
        }
    } else {
        SplitWsState { parts: st.parts, cur: st.cur.push(c) }
    }
}

/// The splitter state after a whole text.
pub open spec fn spec_ws_run(st: SplitWsState, s: Seq<char>) -> SplitWsState
    decreases s.len(),
{
    if s.len() == 0 {
        st
    } else {
        spec_ws_run(spec_ws_step(st, s[0]), s.drop_first())
    }
}

/// The maximal non-whitespace runs of a text, in order.
pub open spec fn spec_split_ws(s: Seq<char>) -> Seq<Seq<char>> {
    let st = spec_ws_run(SplitWsState { parts: Seq::empty(), cur: Seq::empty() }, s);
    if st.cur.len() > 0 {
        st.parts.push(st.cur)
    } else {
        st.parts
    }
}

/// Split a text on whitespace.
fn split_ws(s: &str) -> (r: Vec<String>)
    ensures
        r.deep_view() == spec_split_ws(s@),
{
    let ghost init = SplitWsState { parts: Seq::empty(), cur: Seq::empty() };
    let n = s.unicode_len();
    let mut parts: Vec<String> = Vec::new();
    let mut cur = String::new();
    let mut i: usize = 0;
    proof {
        assert(s@.subrange(0, n as int) =~= s@);
        assert(parts.deep_view() =~= Seq::<Seq<char>>::empty());
    }
    while i < n
        invariant
            i <= n,
            n == s@.len(),
            spec_ws_run(
                SplitWsState { parts: parts.deep_view(), cur: cur@ },
                s@.subrange(i as int, n as int),
            ) == spec_ws_run(init, s@),
        decreases n - i,
    {
        let ghost stv = SplitWsState { parts: parts.deep_view(), cur: cur@ };
        let ghost rest = s@.subrange(i as int, n as int);
        proof {
            assert(rest[0] == s@[i as int]);
            assert(rest.drop_first() =~= s@.subrange(i + 1, n as int));
        }
        let c = s.get_char(i);
        if is_white_space(c) {
            if !cur.as_str().is_empty() {
                let ghost prev = parts.deep_view();
                parts.push(cur);
                cur = String::new();
                proof {
                    assert(parts.deep_view() =~= prev.push(stv.cur));
                }
            }
        } else {
            push_char(&mut cur, c);
        }
        proof {
            assert((SplitWsState { parts: parts.deep_view(), cur: cur@ }) =~= spec_ws_step(
                stv,
                c,
            ));
        }
        i = i + 1;
    }
    proof {
        assert(s@.subrange(n as int, n as int) =~= Seq::<char>::empty());
    }
    if !cur.as_str().is_empty() {
        let ghost prev = parts.deep_view();
        parts.push(cur);
        proof {
            assert(parts.deep_view() =~= prev.push(spec_ws_run(init, s@).cur));
        }
    }
    parts
}

/// A token with its trailing `ms` unit markers removed.
pub open spec fn spec_trim_ms(s: Seq<char>) -> Seq<char>
    decreases s.len(),
{
    if s.len() >= 2 && s[s.len() - 2] == 'm' && s[s.len() - 1] == 's' {
        spec_trim_ms(s.subrange(0, s.len() - 2))
    } else {
        s
    }
}

/// Remove the trailing `ms` unit markers of a token.
fn trim_ms(s: &str) -> (r: String)
    ensures
        r@ == spec_trim_ms(s@),
{
    let n = s.unicode_len();
    let mut e: usize = n;
    proof {
        assert(s@.subrange(0, n as int) =~= s@);
    }
    while e >= 2 && s.get_char(e - 2) == 'm' && s.get_char(e - 1) == 's'
        invariant
            e <= n,
            n == s@.len(),
            spec_trim_ms(s@) == spec_trim_ms(s@.subrange(0, e as int)),
        decreases e,
    {
        proof {
            let pre = s@.subrange(0, e as int);
            assert(pre[e - 2] == s@[e - 2] && pre[e - 1] == s@[e - 1]);
            assert(pre.subrange(0, e - 2) =~= s@.subrange(0, e - 2));
        }
        e = e - 2;
    }
    let head = s.substring_char(0, e);
    String::from_str(head)
}

/// Parse a decimal millisecond count: a value only for a non-empty digit
/// string whose value fits the machine's range.
fn parse_ms(s: &str) -> (r: Option<u64>)
    ensures
        match r {
            Some(v) => s@.len() > 0 && spec_all_digits(s@) && v == spec_digits_val(s@),
            None => !(s@.len() > 0 && spec_all_digits(s@) && spec_digits_val(s@) <= u64::MAX),
        },
{
    let n = s.unicode_len();
    if n == 0 {
        return None;
    }
    let mut acc: u64 = 0;
    let mut i: usize = 0;
    proof {
        assert(s@.subrange(0, 0) =~= Seq::<char>::empty());
    }
    while i < n
        invariant
            i <= n,
            n == s@.len(),
            forall|j: int| 0 <= j < i ==> spec_is_digit(#[trigger] s@[j]),
            acc == spec_digits_val(s@.subrange(0, i as int)),
        decreases n - i,
    {
        let c = s.get_char(i);
        if !(c >= '0' && c <= '9') {
            proof {
                assert(!spec_is_digit(s@[i as int]));
            }
            return None;
        }
        let d = (c as u64) - ('0' as u64);
        proof {
            assert(s@.subrange(0, i + 1).drop_last() =~= s@.subrange(0, i as int));
            assert(s@.subrange(0, i + 1).last() == s@[i as int]);
        }
        if acc > (u64::MAX - d) / 10 {
            proof {
                let v10 = (u64::MAX - d) / 10;
                assert(acc * 10 + d > u64::MAX) by (nonlinear_arith)
                    requires
                        acc > v10,
                        v10 == (u64::MAX - d) / 10,
                        0 <= d <= 9,
                ;
                if spec_all_digits(s@) {
                    lemma_digits_prefix_le(s@, i + 1);
                }
            }
            return None;
        }
        proof {
            let v10 = (u64::MAX - d) / 10;
            assert(acc * 10 + d <= u64::MAX) by (nonlinear_arith)
                requires
                    acc <= v10,
                    v10 == (u64::MAX - d) / 10,
                    0 <= d <= 9,
            ;
        }
        acc = acc * 10 + d;
        i = i + 1;
    }
    proof {
        assert(s@.subrange(0, n as int) =~= s@);
    }
    Some(acc)
}

/// One aggregated row of the profiling summary.
pub struct PerfRow {
    pub name: String,
    pub total_ms: u64,
    pub count: u64,
}

/// Mathematical model of a summary row.
#[verifier::ext_equal]
pub ghost struct PerfRowModel {
    pub name: Seq<char>,
    pub total_ms: u64,
    pub count: u64,
}

impl View for PerfRow {
    type V = PerfRowModel;

    open spec fn view(&self) -> PerfRowModel {
        PerfRowModel { name: self.name@, total_ms: self.total_ms, count: self.count }
    }
}

impl DeepView for PerfRow {
    type V = PerfRowModel;

    open spec fn deep_view(&self) -> PerfRowModel {
        self.view()
    }
}

/// Position of the first row with the given name, or -1.
pub open spec fn spec_find_row(rows: Seq<PerfRowModel>, name: Seq<char>) -> int
    decreases rows.len(),
{
    if rows.len() == 0 {
        -1
    } else if rows[0].name == name {
        0
    } else {
        let r = spec_find_row(rows.drop_first(), name);
        if r < 0 {
            -1
        } else {
            1 + r
        }
    }
}

/// How `spec_find_row` behaves.
proof fn lemma_find_row(rows: Seq<PerfRowModel>, name: Seq<char>)
    ensures
        spec_find_row(rows, name) == -1 ==> (forall|j: int|
            0 <= j < rows.len() ==> (#[trigger] rows[j].name) != name),
        spec_find_row(rows, name) != -1 ==> 0 <= spec_find_row(rows, name) < rows.len() && rows[
            spec_find_row(rows, name)
        ].name == name && (forall|j: int|
            0 <= j < spec_find_row(rows, name) ==> (#[trigger] rows[j].name) != name),
        forall|j: int|
            0 <= j < rows.len() && (#[trigger] rows[j].name) == name ==> spec_find_row(rows, name)
                != -1,
    decreases rows.len(),
{
    if rows.len() > 0 && rows[0].name != name {
        lemma_find_row(rows.drop_first(), name);
        if spec_find_row(rows, name) == -1 {
            assert forall|j: int| 0 <= j < rows.len() implies (#[trigger] rows[j].name)
                != name by {
                if j > 0 {
                    assert(rows.drop_first()[j - 1].name != name);
                }
            }
        }
        if spec_find_row(rows, name) != -1 {
            let r = spec_find_row(rows.drop_first(), name);
            assert(rows[1 + r] == rows.drop_first()[r]);
            assert forall|j: int| 0 <= j < 1 + r implies (#[trigger] rows[j].name) != name by {
                if j > 0 {
                    assert(rows.drop_first()[j - 1].name != name);
                }
            }
        }
        assert forall|j: int|
            0 <= j < rows.len() && (#[trigger] rows[j].name) == name implies spec_find_row(
            rows,
            name,
        ) != -1 by {
            if j > 0 {
                assert(rows.drop_first()[j - 1].name == name);
            }
        }
    }
}

/// The rows after charging one timing to a name: totals and counts add,
/// saturating at the machine's range.
pub open spec fn spec_bump(rows: Seq<PerfRowModel>, name: Seq<char>, ms: u64) -> Seq<
    PerfRowModel,
> {
    let p = spec_find_row(rows, name);
    if p < 0 {
        rows.push(PerfRowModel { name, total_ms: ms, count: 1 })
    } else {
        rows.update(
            p,
            PerfRowModel {
                name: rows[p].name,
                total_ms: rows[p].total_ms.saturating_add(ms),
                count: rows[p].count.saturating_add(1),
            },
        )
    }
}

/// What one log line adds: a line whose first token is a digit count
/// with `ms` markers, followed by the operation name, charges that
/// count; any other line charges nothing.
pub open spec fn spec_line_rows(rows: Seq<PerfRowModel>, line: Seq<char>) -> Seq<PerfRowModel> {
    let parts = spec_split_ws(line);
    if parts.len() >= 2 {
        let digits = spec_trim_ms(parts[0]);
        if digits.len() > 0 && spec_all_digits(digits) && spec_digits_val(digits) <= u64::MAX {
            spec_bump(
                rows,
                spec_join_sep(parts.drop_first(), " "@),
                spec_digits_val(digits) as u64,
            )
        } else {
            rows
        }
    } else {
        rows
    }
}

/// Fold the log's lines from position `i` onward.
pub open spec fn spec_rows_from(
    lines: Seq<Seq<char>>,
    i: int,
    rows: Seq<PerfRowModel>,
) -> Seq<PerfRowModel>
    decreases lines.len() - i,
{
    if 0 <= i < lines.len() {
        spec_rows_from(lines, i + 1, spec_line_rows(rows, lines[i]))
    } else {
        rows
    }
}

/// The per-operation totals of a whole profiling log.
pub open spec fn spec_perf_rows(content: Seq<char>) -> Seq<PerfRowModel> {
    spec_rows_from(spec_lines(content), 0, Seq::empty())
}

/// Rows ordered by total milliseconds, largest first.
pub open spec fn spec_rows_sorted_desc(rows: Seq<PerfRowModel>) -> bool {
    forall|a: int, b: int| 0 <= a < b < rows.len() ==> rows[a].total_ms >= rows[b].total_ms
}

/// Find the row for an operation name.
fn find_row_exec(rows: &Vec<PerfRow>, name: &str) -> (r: Option<usize>)
    ensures
        match r {
            Some(k) => k < rows@.len() && rows@[k as int].name@ == name@ && (forall|j: int|
                0 <= j < k ==> (#[trigger] rows@[j].name@) != name@),
            None => forall|j: int| 0 <= j < rows@.len() ==> (#[trigger] rows@[j].name@) != name@,
        },
{
    let n = rows.len();
    let mut k: usize = 0;
    while k < n
        invariant
            k <= n,
            n == rows@.len(),
            forall|j: int| 0 <= j < k ==> (#[trigger] rows@[j].name@) != name@,
        decreases n - k,
    {
        if crate::strutil::str_eq(rows[k].name.as_str(), name) {
            return Some(k);
        }
        k = k + 1;
    }
    None
}

/// Charge one timing to a name.
fn bump_row(rows: &mut Vec<PerfRow>, name: String, ms: u64)
    ensures
        final(rows).deep_view() == spec_bump(old(rows).deep_view(), name@, ms),
{
    let ghost rowsm = rows.deep_view();
    proof {
        lemma_find_row(rowsm, name@);
        assert forall|j: int| 0 <= j < rowsm.len() implies rowsm[j].name == rows@[j].name@ by {}
    }
    let found = find_row_exec(rows, name.as_str());
    match found {
        Some(p) => {
            proof {
                assert(rowsm[p as int].name == name@);
                assert(spec_find_row(rowsm, name@) == p as int) by {
                    let q = spec_find_row(rowsm, name@);
                    if q < p as int {
                        assert(rows@[q].name@ != name@);
                    }
                    if q > p as int {
                        assert(rowsm[p as int].name != name@);
                    }
                }
            }
            let mut row = rows.remove(p);
            row.total_ms = row.total_ms.saturating_add(ms);
            row.count = row.count.saturating_add(1);
            rows.insert(p, row);
            proof {
                assert(rows.deep_view() =~= spec_bump(rowsm, name@, ms));
            }
        },
        None => {
            proof {
                assert(spec_find_row(rowsm, name@) == -1) by {
                    let q = spec_find_row(rowsm, name@);
                    if q != -1 {
                        assert(rows@[q].name@ != name@);
                    }
                }
            }
            rows.push(PerfRow { name, total_ms: ms, count: 1 });
            proof {
                assert(rows.deep_view() =~= spec_bump(rowsm, name@, ms));
            }
        },
    }
}

/// Order rows by total milliseconds, largest first, by repeatedly
/// extracting a maximum.  Rows with equal totals may come out in any
/// order.
fn sort_rows_desc(input: Vec<PerfRow>) -> (r: Vec<PerfRow>)
    ensures
        spec_rows_sorted_desc(r.deep_view()),
        r.deep_view().to_multiset() == input.deep_view().to_multiset(),
        r.deep_view().len() == input.deep_view().len(),
{
    let ghost inm = input.deep_view();
    let mut tmp = input;
    let mut out: Vec<PerfRow> = Vec::new();
    while tmp.len() > 0
        invariant
            spec_rows_sorted_desc(out.deep_view()),
            out.deep_view().to_multiset().add(tmp.deep_view().to_multiset()) =~= inm.to_multiset(),
            out.deep_view().len() + tmp.deep_view().len() == inm.len(),
            forall|a: int, b: int|
                0 <= a < out.deep_view().len() && 0 <= b < tmp.deep_view().len()
                    ==> out.deep_view()[a].total_ms >= tmp.deep_view()[b].total_ms,
        decreases tmp.len(),
    {
        let mut max_idx: usize = 0;
        let mut k: usize = 1;
        while k < tmp.len()
            invariant
                max_idx < k <= tmp@.len(),
                0 < tmp@.len(),
                forall|b: int|
                    0 <= b < k ==> tmp.deep_view()[max_idx as int].total_ms
                        >= tmp.deep_view()[b].total_ms,
            decreases tmp.len() - k,
        {
            if tmp[k].total_ms > tmp[max_idx].total_ms {
                max_idx = k;
            }
            k = k + 1;
        }
        let ghost tmp_pre = tmp.deep_view();
        let ghost out_pre = out.deep_view();
        let row = tmp.remove(max_idx);
        let ghost rowm = row@;
        out.push(row);
        proof {
            assert(tmp.deep_view() =~= tmp_pre.remove(max_idx as int));
            assert(out.deep_view() =~= out_pre.push(rowm));
            assert(tmp_pre.remove(max_idx as int).to_multiset() =~= tmp_pre.to_multiset().remove(
                rowm,
            ));
            assert(out_pre.push(rowm).to_multiset() =~= out_pre.to_multiset().insert(rowm));
            assert(out.deep_view().to_multiset().add(tmp.deep_view().to_multiset())
                =~= inm.to_multiset());
            assert forall|a: int, b: int|
                0 <= a < out.deep_view().len() && 0 <= b < tmp.deep_view().len() implies out.deep_view()[a].total_ms
                >= tmp.deep_view()[b].total_ms by {
                if a < out_pre.len() {
                    assert(out.deep_view()[a] == out_pre[a]);
                }
                if b < max_idx as int {
                    assert(tmp.deep_view()[b] == tmp_pre[b]);
                } else {
                    assert(tmp.deep_view()[b] == tmp_pre[b + 1]);
                }
            }
            assert forall|a: int, b: int|
                0 <= a < b < out.deep_view().len() implies out.deep_view()[a].total_ms
                >= out.deep_view()[b].total_ms by {
                if b == out.deep_view().len() - 1 && a < out_pre.len() {
                    assert(out.deep_view()[a] == out_pre[a]);
                }
            }
        }
    }
    proof {
        assert(tmp.deep_view() =~= Seq::<PerfRowModel>::empty());
        assert(tmp.deep_view().to_multiset() =~= Seq::<PerfRowModel>::empty().to_multiset());
        assert(out.deep_view().to_multiset() =~= out.deep_view().to_multiset().add(
            tmp.deep_view().to_multiset(),
        ));
    }
    out
}

/// Aggregate a profiling log: one row per operation name, charging each
/// well-formed line's milliseconds to the name after its count token,
/// ordered by total milliseconds descending.  Rows with equal totals may
/// come in any order.
pub fn summarize_perf_log(content: &str) -> (r: Vec<PerfRow>)
    ensures
        spec_rows_sorted_desc(r.deep_view()),
        r.deep_view().to_multiset() == spec_perf_rows(content@).to_multiset(),
        r.deep_view().len() == spec_perf_rows(content@).len(),
{
    let lines = split_lines(content);
    let ghost lm = lines.deep_view();
    let n = lines.len();
    let mut rows: Vec<PerfRow> = Vec::new();
    let mut i: usize = 0;
    proof {
        assert(rows.deep_view() =~= Seq::<PerfRowModel>::empty());
    }
    while i < n
        invariant
            i <= n,
            n == lines@.len(),
            lm == lines.deep_view(),
            lm.len() == n,
            lm == spec_lines(content@),
            spec_rows_from(lm, i as int, rows.deep_view()) == spec_perf_rows(content@),
        decreases n - i,
    {
        let ghost rows0 = rows.deep_view();
        let ghost step = spec_line_rows(rows0, lm[i as int]);
        let parts = split_ws(lines[i].as_str());
        proof {
            assert(lines@[i as int]@ == lm[i as int]);
            assert(parts.deep_view() == spec_split_ws(lm[i as int]));
        }
        if parts.len() >= 2 {
            let digits = trim_ms(parts[0].as_str());
            proof {
                assert(parts.deep_view()[0] == spec_split_ws(lm[i as int])[0]);
                assert(digits@ == spec_trim_ms(spec_split_ws(lm[i as int])[0]));
            }
            match parse_ms(digits.as_str()) {
                Some(ms) => {
                    let mut rest: Vec<String> = Vec::new();
                    let pn = parts.len();
                    let mut j: usize = 1;
                    while j < pn
                        invariant
                            1 <= j <= pn,
                            pn == parts@.len(),
                            rest.deep_view() == parts.deep_view().subrange(1, j as int),
                        decreases pn - j,
                    {
                        let ghost prev = rest.deep_view();
                        let part = parts[j].clone();
                        rest.push(part);
                        proof {
                            assert(rest.deep_view() =~= prev.push(parts.deep_view()[j as int]));
                            assert(prev.push(parts.deep_view()[j as int]) =~= parts.deep_view()
                                .subrange(1, j + 1));
                        }
                        j = j + 1;
                    }
                    proof {
                        assert(rest.deep_view() =~= spec_split_ws(lm[i as int]).drop_first());
                    }
                    let name = join_sep(&rest, " ");
                    bump_row(&mut rows, name, ms);
                    proof {
                        assert(rows.deep_view() =~= step);
                    }
                },
                None => {
                    proof {
                        assert(rows.deep_view() =~= step);
                    }
                },
            }
        } else {
            proof {
                assert(parts.deep_view().len() == parts@.len());
                assert(rows.deep_view() =~= step);
            }
        }
        i = i + 1;
    }
    sort_rows_desc(rows)
}

} // verus!
