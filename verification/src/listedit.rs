//! Smart list continuation for the input line: pressing enter on a list
//! item continues the list with the next marker, on an empty item removes
//! it, and anywhere else submits the message.

use vstd::prelude::*;
use vstd::string::StrSliceExecFns;
use vstd::string::StringExecFns;

use crate::strutil::{push_char, spec_dec, spec_lines, spec_starts_with, split_lines, str_eq, str_starts_with, usize_to_dec};

verus! {

/// The longest alphabetic marker the continuation logic follows.
pub const MAX_ALPHA_MARKER: usize = 6;

/// What the enter key should do on a list line.
pub enum ListAction {
    /// Insert this continuation text (a newline, the indent, the next
    /// marker).
    Continue(String),
    /// Remove the empty list item but keep the newline.
    RemoveItem,
}

/// Mathematical model of a list action.
#[verifier::ext_equal]
pub ghost enum ListActionModel {
    Continue(Seq<char>),
    RemoveItem,
}

impl View for ListAction {
    type V = ListActionModel;

    open spec fn view(&self) -> ListActionModel {
        match self {
            ListAction::Continue(s) => ListActionModel::Continue(s@),
            ListAction::RemoveItem => ListActionModel::RemoveItem,
        }
    }
}

/// The whitespace that counts as indentation: any white-space character.
pub open spec fn spec_ws(c: char) -> bool {
    crate::strutil::spec_white_space(c)
}

/// A line without its leading whitespace.
pub open spec fn spec_trim_start(s: Seq<char>) -> Seq<char>
    decreases s.len(),
{
    if s.len() > 0 && spec_ws(s[0]) {
        spec_trim_start(s.drop_first())
    } else {
        s
    }
}

/// The line the cursor is on: empty right after a newline, else the last
/// line of the input.
pub open spec fn spec_current_line(input: Seq<char>) -> Seq<char> {
    if input.len() > 0 && input[input.len() - 1] == '\n' {
        Seq::empty()
    } else if spec_lines(input).len() > 0 {
        spec_lines(input).last()
    } else {
        Seq::empty()
    }
}

/// Index of the first `". "` in a line, or -1.
pub open spec fn spec_find_dot_space(s: Seq<char>) -> int
    decreases s.len(),
{
    if s.len() < 2 {
        -1
    } else if s[0] == '.' && s[1] == ' ' {
        0
    } else {
        let r = spec_find_dot_space(s.drop_first());
        if r < 0 {
            -1
        } else {
            1 + r
        }
    }
}

pub open spec fn spec_is_digit(c: char) -> bool {
    '0' <= c <= '9'
}

pub open spec fn spec_is_lower(c: char) -> bool {
    'a' <= c <= 'z'
}

pub open spec fn spec_is_upper(c: char) -> bool {
    'A' <= c <= 'Z'
}

pub open spec fn spec_all_digits(s: Seq<char>) -> bool {
    forall|i: int| 0 <= i < s.len() ==> spec_is_digit(#[trigger] s[i])
}

pub open spec fn spec_all_lower(s: Seq<char>) -> bool {
    forall|i: int| 0 <= i < s.len() ==> spec_is_lower(#[trigger] s[i])
}

pub open spec fn spec_all_upper(s: Seq<char>) -> bool {
    forall|i: int| 0 <= i < s.len() ==> spec_is_upper(#[trigger] s[i])
}

/// A marker that continues an ordered list when followed by `". "`: all
/// digits, or letters of one case.
pub open spec fn spec_ordered_marker(s: Seq<char>) -> bool {
    spec_all_digits(s) || spec_all_lower(s) || spec_all_upper(s)
}

/// The numeric value of a digit string.
pub open spec fn spec_digits_val(s: Seq<char>) -> int
    decreases s.len(),
{
    if s.len() == 0 {
        0
    } else {
        spec_digits_val(s.drop_last()) * 10 + (s.last() as int - '0' as int)
    }
}

/// The bijective base-26 value of a letter marker, case folded:
/// `a` is 0, `z` is 25, `aa` is 26.
pub open spec fn spec_alpha_val(s: Seq<char>) -> int
    decreases s.len(),
{
    if s.len() == 0 {
        0
    } else {
        let c = s.last();
        let d = if spec_is_upper(c) {
            c as int - 'A' as int
        } else {
            c as int - 'a' as int
        };
        spec_alpha_val(s.drop_last()) * 26 + d
    }
}

/// A value rendered as a bijective base-26 letter marker; rendering `n`
/// after incrementing gives the marker that follows value `n - 1`.
pub open spec fn spec_alpha_render(n: int, upper: bool) -> Seq<char>
    decreases n when n >= 0
{
    let d = n % 26;
    let c = if upper {
        (('A' as u8) + d) as char
    } else {
        (('a' as u8) + d) as char
    };
    if n / 26 == 0 {
        seq![c]
    } else {
        spec_alpha_render(n / 26 - 1, upper).push(c)
    }
}

/// The marker that follows an alphabetic list marker.
pub open spec fn spec_next_alpha_marker(s: Seq<char>) -> Seq<char> {
    spec_alpha_render(spec_alpha_val(s) + 1, spec_is_upper(s[0]))
}

/// 26 to the given power: the bound the marker value stays under.
pub open spec fn spec_pow26(n: nat) -> int
    decreases n,
{
    if n == 0 {
        1
    } else {
        26 * spec_pow26((n - 1) as nat)
    }
}

proof fn lemma_alpha_val_bound(s: Seq<char>)
    ensures
        0 <= spec_alpha_val(s) < spec_pow26(s.len()) || !(spec_all_lower(s) || spec_all_upper(s)),
    decreases s.len(),
{
    if s.len() > 0 && (spec_all_lower(s) || spec_all_upper(s)) {
        assert(spec_all_lower(s) ==> spec_all_lower(s.drop_last())) by {
            if spec_all_lower(s) {
                assert forall|i: int| 0 <= i < s.drop_last().len() implies spec_is_lower(
                    #[trigger] s.drop_last()[i],
                ) by {
                    assert(s.drop_last()[i] == s[i]);
                }
            }
        }
        assert(spec_all_upper(s) ==> spec_all_upper(s.drop_last())) by {
            if spec_all_upper(s) {
                assert forall|i: int| 0 <= i < s.drop_last().len() implies spec_is_upper(
                    #[trigger] s.drop_last()[i],
                ) by {
                    assert(s.drop_last()[i] == s[i]);
                }
            }
        }
        lemma_alpha_val_bound(s.drop_last());
        let prev = spec_alpha_val(s.drop_last());
        let c = s.last();
        let d = if spec_is_upper(c) {
            c as int - 'A' as int
        } else {
            c as int - 'a' as int
        };
        assert(spec_is_lower(c) || spec_is_upper(c));
        assert(0 <= d < 26);
        assert(prev * 26 + d < spec_pow26(s.len())) by (nonlinear_arith)
            requires
                0 <= prev < spec_pow26(s.drop_last().len()),
                0 <= d < 26,
                spec_pow26(s.len()) == 26 * spec_pow26(s.drop_last().len()),
        ;
        assert(prev * 26 + d >= 0) by (nonlinear_arith)
            requires
                prev >= 0,
                d >= 0,
        ;
    }
}

/// The bijective base-26 value of a letter marker, folded left to right.
fn alpha_val(s: &str) -> (r: usize)
    requires
        s@.len() <= MAX_ALPHA_MARKER,
        spec_all_lower(s@) || spec_all_upper(s@),
    ensures
        r == spec_alpha_val(s@),
        r < spec_pow26(s@.len()),
{
    let n = s.unicode_len();
    let mut acc: usize = 0;
    let mut i: usize = 0;
    proof {
        assert(s@.subrange(0, 0) =~= Seq::<char>::empty());
        assert(spec_pow26(0) == 1);
    }
    while i < n
        invariant
            i <= n,
            n == s@.len(),
            n <= MAX_ALPHA_MARKER,
            spec_all_lower(s@) || spec_all_upper(s@),
            acc == spec_alpha_val(s@.subrange(0, i as int)),
            acc < spec_pow26(i as nat),
        decreases n - i,
    {
        let c = s.get_char(i);
        let d: usize = if c >= 'A' && c <= 'Z' {
            (c as usize) - ('A' as usize)
        } else {
            (c as usize) - ('a' as usize)
        };
        proof {
            assert(spec_is_lower(c) || spec_is_upper(c));
            assert(spec_is_upper(c) ==> c >= 'A' && c <= 'Z');
            assert(d < 26);
            assert(acc * 26 + d < spec_pow26((i + 1) as nat)) by (nonlinear_arith)
                requires
                    acc < spec_pow26(i as nat),
                    d < 26,
                    acc >= 0,
                    d >= 0,
                    spec_pow26((i + 1) as nat) == 26 * spec_pow26(i as nat),
            ;
            lemma_pow26_mono((i + 1) as nat, MAX_ALPHA_MARKER as nat);
            lemma_pow26_cap();
            assert(s@.subrange(0, i + 1).drop_last() =~= s@.subrange(0, i as int));
            assert(s@.subrange(0, i + 1).last() == s@[i as int]);
        }
        acc = acc * 26 + d;
        i = i + 1;
    }
    proof {
        assert(s@.subrange(0, n as int) =~= s@);
    }
    acc
}

/// Powers of 26 grow with the exponent.
proof fn lemma_pow26_mono(a: nat, b: nat)
    requires
        a <= b,
    ensures
        1 <= spec_pow26(a) <= spec_pow26(b),
    decreases b,
{
    if b > 0 {
        if a < b {
            lemma_pow26_mono(a, (b - 1) as nat);
        } else {
            lemma_pow26_mono((b - 1) as nat, (b - 1) as nat);
        }
    }
}

/// The power of 26 at the marker cap, computed.
proof fn lemma_pow26_cap()
    ensures
        spec_pow26(MAX_ALPHA_MARKER as nat) == 308915776,
{
    assert(spec_pow26(0) == 1);
    assert(spec_pow26(1) == 26);
    assert(spec_pow26(2) == 676);
    assert(spec_pow26(3) == 17576);
    assert(spec_pow26(4) == 456976);
    assert(spec_pow26(5) == 11881376);
    assert(spec_pow26(6) == 308915776);
}

/// Render a marker value as letters, least-significant letter appended
/// last.
fn alpha_render(n: usize, upper: bool) -> (r: String)
    requires
        n <= 308915776,
    ensures
        r@ == spec_alpha_render(n as int, upper),
    decreases n,
{
    let d = (n % 26) as u8;
    let c: char = if upper {
        (('A' as u8) + d) as char
    } else {
        (('a' as u8) + d) as char
    };
    if n / 26 == 0 {
        let mut r = String::new();
        push_char(&mut r, c);
        proof {
            assert(r@ =~= seq![c]);
        }
        r
    } else {
        let mut r = alpha_render(n / 26 - 1, upper);
        push_char(&mut r, c);
        r
    }
}

/// Increment an alphabetic list marker: the next in `a, b, .., z, aa, ab`
/// order, keeping the marker's case.
pub fn next_alpha_marker(marker: &str) -> (r: String)
    requires
        0 < marker@.len() <= MAX_ALPHA_MARKER,
        spec_all_lower(marker@) || spec_all_upper(marker@),
    ensures
        r@ == spec_next_alpha_marker(marker@),
{
    let is_upper = {
        let c = marker.get_char(0);
        c >= 'A' && c <= 'Z'
    };
    proof {
        assert(spec_is_lower(marker@[0]) || spec_is_upper(marker@[0]));
        lemma_alpha_val_bound(marker@);
        lemma_pow26_mono(marker@.len(), MAX_ALPHA_MARKER as nat);
        lemma_pow26_cap();
        assert(spec_pow26(marker@.len()) <= 308915776);
    }
    let num = alpha_val(marker);
    alpha_render(num + 1, is_upper)
}


/// A run of spaces, as indentation is reproduced.
pub open spec fn spec_spaces(n: int) -> Seq<char> {
    Seq::new(n as nat, |i: int| ' ')
}

/// What pressing enter does to the input: continue a list item with the
/// next marker, remove an empty item, or (on no list line) submit.
pub open spec fn spec_detect_list_action(input: Seq<char>) -> Option<ListActionModel> {
    let cur = spec_current_line(input);
    let trimmed = spec_trim_start(cur);
    let indent = cur.len() - trimmed.len();
    if trimmed.len() == 0 {
        None
    } else if trimmed == "- "@ || trimmed == "* "@ {
        Some(ListActionModel::RemoveItem)
    } else {
        let dp = spec_find_dot_space(trimmed);
        if dp >= 0 && dp + 2 == trimmed.len() && spec_ordered_marker(trimmed.subrange(0, dp)) {
            Some(ListActionModel::RemoveItem)
        } else if spec_starts_with(trimmed, "- "@) || spec_starts_with(trimmed, "* "@) {
            Some(
                ListActionModel::Continue(
                    seq!['\n'] + spec_spaces(indent) + trimmed.subrange(0, 2),
                ),
            )
        } else if dp >= 0 {
            let marker = trimmed.subrange(0, dp);
            if marker.len() > 0 && spec_all_digits(marker) {
                if spec_digits_val(marker) < usize::MAX {
                    Some(
                        ListActionModel::Continue(
                            seq!['\n'] + spec_spaces(indent) + spec_dec(
                                (spec_digits_val(marker) + 1) as nat,
                            ) + ". "@,
                        ),
                    )
                } else {
                    None
                }
            } else if marker.len() > 0 && marker.len() <= MAX_ALPHA_MARKER && (spec_all_lower(
                marker,
            ) || spec_all_upper(marker)) {
                Some(
                    ListActionModel::Continue(
                        seq!['\n'] + spec_spaces(indent) + spec_next_alpha_marker(marker)
                            + ". "@,
                    ),
                )
            } else {
                None
            }
        } else {
            None
        }
    }
}

/// Trimming takes exactly the leading whitespace off.
proof fn lemma_trim_at(s: Seq<char>, t: int)
    requires
        0 <= t <= s.len(),
        forall|j: int| 0 <= j < t ==> spec_ws(#[trigger] s[j]),
        t < s.len() ==> !spec_ws(s[t]),
    ensures
        spec_trim_start(s) == s.subrange(t, s.len() as int),
    decreases s.len(),
{
    if t > 0 {
        lemma_trim_at(s.drop_first(), t - 1);
        assert(s.drop_first().subrange(t - 1, s.drop_first().len() as int) =~= s.subrange(
            t,
            s.len() as int,
        ));
    } else if s.len() > 0 && !spec_ws(s[0]) {
        assert(s.subrange(0, s.len() as int) =~= s);
    } else if s.len() == 0 {
        assert(s.subrange(0, 0) =~= s);
    }
}

/// How `spec_find_dot_space` behaves.
proof fn lemma_find_dot_space(s: Seq<char>)
    ensures
        spec_find_dot_space(s) == -1 ==> (forall|j: int|
            0 <= j < s.len() - 1 ==> !((#[trigger] s[j]) == '.' && s[j + 1] == ' ')),
        spec_find_dot_space(s) != -1 ==> ({
            let p = spec_find_dot_space(s);
            &&& 0 <= p < s.len() - 1
            &&& s[p] == '.'
            &&& s[p + 1] == ' '
            &&& forall|j: int| 0 <= j < p ==> !((#[trigger] s[j]) == '.' && s[j + 1] == ' ')
        }),
        forall|j: int|
            0 <= j < s.len() - 1 && (#[trigger] s[j]) == '.' && s[j + 1] == ' '
                ==> spec_find_dot_space(s) != -1,
    decreases s.len(),
{
    if s.len() >= 2 && !(s[0] == '.' && s[1] == ' ') {
        lemma_find_dot_space(s.drop_first());
        if spec_find_dot_space(s) == -1 {
            assert forall|j: int| 0 <= j < s.len() - 1 implies !((#[trigger] s[j]) == '.' && s[j
                + 1] == ' ') by {
                if j > 0 {
                    assert(!(s.drop_first()[j - 1] == '.' && s.drop_first()[j] == ' '));
                }
            }
        }
        if spec_find_dot_space(s) != -1 {
            let r = spec_find_dot_space(s.drop_first());
            assert(s[1 + r] == s.drop_first()[r]);
            assert(s[1 + r + 1] == s.drop_first()[r + 1]);
            assert forall|j: int| 0 <= j < 1 + r implies !((#[trigger] s[j]) == '.' && s[j + 1]
                == ' ') by {
                if j > 0 {
                    assert(!(s.drop_first()[j - 1] == '.' && s.drop_first()[j] == ' '));
                }
            }
        }
        assert forall|j: int|
            0 <= j < s.len() - 1 && (#[trigger] s[j]) == '.' && s[j + 1] == ' '
                implies spec_find_dot_space(s) != -1 by {
            if j > 0 {
                assert(s.drop_first()[j - 1] == '.' && s.drop_first()[j] == ' ');
            }
        }
    }
}

/// Digit strings only grow in value as digits are appended.
pub proof fn lemma_digits_val_nonneg(s: Seq<char>)
    requires
        spec_all_digits(s),
    ensures
        spec_digits_val(s) >= 0,
    decreases s.len(),
{
    if s.len() > 0 {
        assert forall|i: int| 0 <= i < s.drop_last().len() implies spec_is_digit(
            #[trigger] s.drop_last()[i],
        ) by {
            assert(s.drop_last()[i] == s[i]);
        }
        lemma_digits_val_nonneg(s.drop_last());
        let v = spec_digits_val(s.drop_last());
        assert(v * 10 >= 0) by (nonlinear_arith)
            requires
                v >= 0,
        ;
    }
}

/// The value of a digit prefix never exceeds the whole string's value.
pub proof fn lemma_digits_prefix_le(s: Seq<char>, i: int)
    requires
        spec_all_digits(s),
        0 <= i <= s.len(),
    ensures
        spec_digits_val(s.subrange(0, i)) <= spec_digits_val(s),
    decreases s.len() - i,
{
    if i < s.len() {
        lemma_digits_prefix_le(s, i + 1);
        let pre = s.subrange(0, i);
        let ext = s.subrange(0, i + 1);
        assert(ext.drop_last() =~= pre);
        assert(ext.last() == s[i]);
        lemma_digits_val_nonneg(pre);
        let v = spec_digits_val(pre);
        let d = s[i] as int - '0' as int;
        assert(spec_is_digit(s[i]));
        assert(v * 10 + d >= v) by (nonlinear_arith)
            requires
                v >= 0,
                d >= 0,
        ;
    } else {
        assert(s.subrange(0, i) =~= s);
    }
}

/// Index of the first non-whitespace character.
fn trim_index(s: &str) -> (t: usize)
    ensures
        t <= s@.len(),
        forall|j: int| 0 <= j < t ==> spec_ws(#[trigger] s@[j]),
        t < s@.len() ==> !spec_ws(s@[t as int]),
{
    let n = s.unicode_len();
    let mut t: usize = 0;
    while t < n
        invariant
            t <= n,
            n == s@.len(),
            forall|j: int| 0 <= j < t ==> spec_ws(#[trigger] s@[j]),
        decreases n - t,
    {
        let c = s.get_char(t);
        if !crate::strutil::is_white_space(c) {
            return t;
        }
        t = t + 1;
    }
    n
}

/// Position of the first `". "`, if any.
fn find_dot_space(s: &str) -> (r: Option<usize>)
    ensures
        match r {
            Some(p) => spec_find_dot_space(s@) == p as int,
            None => spec_find_dot_space(s@) == -1,
        },
{
    let n = s.unicode_len();
    if n < 2 {
        return None;
    }
    let mut i: usize = 0;
    while i < n - 1
        invariant
            n == s@.len(),
            n >= 2,
            i <= n - 1,
            forall|j: int| 0 <= j < i ==> !((#[trigger] s@[j]) == '.' && s@[j + 1] == ' '),
        decreases n - i,
    {
        if s.get_char(i) == '.' && s.get_char(i + 1) == ' ' {
            proof {
                lemma_find_dot_space(s@);
                let p = spec_find_dot_space(s@);
                assert(p != -1);
                if p < i as int {
                    assert(s@[p] == '.' && s@[p + 1] == ' ');
                }
                if p > i as int {
                    assert(!(s@[i as int] == '.' && s@[i as int + 1] == ' '));
                }
            }
            return Some(i);
        }
        i = i + 1;
    }
    proof {
        lemma_find_dot_space(s@);
        let p = spec_find_dot_space(s@);
        if p != -1 {
            assert(s@[p] == '.' && s@[p + 1] == ' ');
        }
    }
    None
}

fn all_digits(s: &str) -> (r: bool)
    ensures
        r == spec_all_digits(s@),
{
    let n = s.unicode_len();
    let mut i: usize = 0;
    while i < n
        invariant
            i <= n,
            n == s@.len(),
            forall|j: int| 0 <= j < i ==> spec_is_digit(#[trigger] s@[j]),
        decreases n - i,
    {
        let c = s.get_char(i);
        if !(c >= '0' && c <= '9') {
            return false;
        }
        i = i + 1;
    }
    true
}

fn all_lower(s: &str) -> (r: bool)
    ensures
        r == spec_all_lower(s@),
{
    let n = s.unicode_len();
    let mut i: usize = 0;
    while i < n
        invariant
            i <= n,
            n == s@.len(),
            forall|j: int| 0 <= j < i ==> spec_is_lower(#[trigger] s@[j]),
        decreases n - i,
    {
        let c = s.get_char(i);
        if !(c >= 'a' && c <= 'z') {
            return false;
        }
        i = i + 1;
    }
    true
}

fn all_upper(s: &str) -> (r: bool)
    ensures
        r == spec_all_upper(s@),
{
    let n = s.unicode_len();
    let mut i: usize = 0;
    while i < n
        invariant
            i <= n,
            n == s@.len(),
            forall|j: int| 0 <= j < i ==> spec_is_upper(#[trigger] s@[j]),
        decreases n - i,
    {
        let c = s.get_char(i);
        if !(c >= 'A' && c <= 'Z') {
            return false;
        }
        i = i + 1;
    }
    true
}

/// Parse a non-empty digit string; values past the machine's range are
/// refused.
fn parse_digits(s: &str) -> (r: Option<usize>)
    requires
        spec_all_digits(s@),
    ensures
        match r {
            Some(v) => v == spec_digits_val(s@),
            None => spec_digits_val(s@) > usize::MAX,
        },
{
    let n = s.unicode_len();
    let mut acc: usize = 0;
    let mut i: usize = 0;
    proof {
        assert(s@.subrange(0, 0) =~= Seq::<char>::empty());
    }
    while i < n
        invariant
            i <= n,
            n == s@.len(),
            spec_all_digits(s@),
            acc == spec_digits_val(s@.subrange(0, i as int)),
        decreases n - i,
    {
        let c = s.get_char(i);
        proof {
            assert(spec_is_digit(s@[i as int]));
        }
        let d = (c as usize) - ('0' as usize);
        proof {
            assert(s@.subrange(0, i + 1).drop_last() =~= s@.subrange(0, i as int));
            assert(s@.subrange(0, i + 1).last() == s@[i as int]);
            assert forall|j: int| 0 <= j < i + 1 implies spec_is_digit(
                #[trigger] s@.subrange(0, i + 1)[j],
            ) by {
                assert(s@.subrange(0, i + 1)[j] == s@[j]);
            }
        }
        if acc > (usize::MAX - d) / 10 {
            proof {
                let v10 = (usize::MAX - d) / 10;
                assert(acc * 10 + d > usize::MAX) by (nonlinear_arith)
                    requires
                        acc > v10,
                        v10 == (usize::MAX - d) / 10,
                        0 <= d <= 9,
                ;
                lemma_digits_prefix_le(s@, i + 1);
            }
            return None;
        }
        proof {
            let v10 = (usize::MAX - d) / 10;
            assert(acc * 10 + d <= usize::MAX) by (nonlinear_arith)
                requires
                    acc <= v10,
                    v10 == (usize::MAX - d) / 10,
                    0 <= d <= 9,
            ;
        }
        acc = acc * 10 + d;
        i = i + 1;
    }
    proof {
        assert(s@.subrange(0, n as int) =~= s@);
    }
    Some(acc)
}

/// A run of spaces.
fn make_spaces(n: usize) -> (r: String)
    ensures
        r@ == spec_spaces(n as int),
{
    let mut r = String::new();
    let mut i: usize = 0;
    while i < n
        invariant
            i <= n,
            r@ == spec_spaces(i as int),
        decreases n - i,
    {
        push_char(&mut r, ' ');
        proof {
            assert(spec_spaces(i as int).push(' ') =~= spec_spaces(i + 1));
        }
        i = i + 1;
    }
    r
}

/// The line the cursor is on.
fn current_line(input: &str) -> (r: String)
    ensures
        r@ == spec_current_line(input@),
{
    let n = input.unicode_len();
    if n > 0 && input.get_char(n - 1) == '\n' {
        return String::new();
    }
    let ls = split_lines(input);
    if ls.len() == 0 {
        String::new()
    } else {
        let r = ls[ls.len() - 1].clone();
        proof {
            assert(ls.deep_view()[ls@.len() - 1] == spec_lines(input@).last());
        }
        r
    }
}

/// Decide what enter does on the current input: continue a list, remove
/// an empty item, or submit.
pub fn detect_list_action(input: &str) -> (r: Option<ListAction>)
    ensures
        r.deep_view() == spec_detect_list_action(input@),
{
    let cur = current_line(input);
    let cur_s = cur.as_str();
    let n = cur_s.unicode_len();
    let t = trim_index(cur_s);
    let trimmed_str = cur_s.substring_char(t, n);
    proof {
        lemma_trim_at(cur@, t as int);
    }
    let trimmed = trimmed_str;
    if trimmed.is_empty() {
        return None;
    }
    if str_eq(trimmed, "- ") || str_eq(trimmed, "* ") {
        return Some(ListAction::RemoveItem);
    }
    let tn = trimmed.unicode_len();
    let dp = find_dot_space(trimmed);
    proof {
        lemma_find_dot_space(trimmed@);
    }
    if let Some(p) = dp {
        if p + 2 == tn {
            let marker = trimmed.substring_char(0, p);
            if all_digits(marker) || all_lower(marker) || all_upper(marker) {
                return Some(ListAction::RemoveItem);
            }
        }
    }
    proof {
        reveal_strlit("- ");
        reveal_strlit("* ");
        assert("- "@.len() == 2);
        assert("* "@.len() == 2);
    }
    if str_starts_with(trimmed, "- ") || str_starts_with(trimmed, "* ") {
        let prefix = trimmed.substring_char(0, 2);
        let mut text = String::new();
        push_char(&mut text, '\n');
        text.append(make_spaces(t).as_str());
        text.append(prefix);
        proof {
            assert(text@ =~= seq!['\n'] + spec_spaces(t as int) + spec_trim_start(
                cur@,
            ).subrange(0, 2));
        }
        return Some(ListAction::Continue(text));
    }
    if let Some(p) = dp {
        let marker = trimmed.substring_char(0, p);
        if p > 0 && all_digits(marker) {
            match parse_digits(marker) {
                Some(v) => {
                    if v < usize::MAX {
                        let mut text = String::new();
                        push_char(&mut text, '\n');
                        text.append(make_spaces(t).as_str());
                        text.append(usize_to_dec(v + 1).as_str());
                        text.append(". ");
                        proof {
                            assert(text@ =~= seq!['\n'] + spec_spaces(t as int) + spec_dec(
                                (spec_digits_val(spec_trim_start(cur@).subrange(0, p as int)) + 1) as nat,
                            ) + ". "@);
                        }
                        return Some(ListAction::Continue(text));
                    } else {
                        return None;
                    }
                },
                None => {
                    return None;
                },
            }
        }
        if p > 0 && p <= MAX_ALPHA_MARKER && (all_lower(marker) || all_upper(marker)) {
            let next = next_alpha_marker(marker);
            let mut text = String::new();
            push_char(&mut text, '\n');
            text.append(make_spaces(t).as_str());
            text.append(next.as_str());
            text.append(". ");
            proof {
                assert(text@ =~= seq!['\n'] + spec_spaces(t as int) + spec_next_alpha_marker(
                    spec_trim_start(cur@).subrange(0, p as int),
                ) + ". "@);
            }
            return Some(ListAction::Continue(text));
        }
        return None;
    }
    None
}

impl DeepView for ListAction {
    type V = ListActionModel;

    open spec fn deep_view(&self) -> ListActionModel {
        self.view()
    }
}

} // verus!
