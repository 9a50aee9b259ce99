//! Small verified helpers for working with strings character by character:
//! equality, prefix tests, decimal formatting, and splitting text into lines
//! with the same conventions as `str::lines` (a line ends at `'\n'`, a
//! `"\r\n"` pair counts as one ending, and a trailing ending opens no final
//! empty line).

use vstd::prelude::*;
use vstd::string::StrSliceExecFns;
use vstd::string::StringExecFns;

verus! {

/// Relies on std's `String::push`: appends exactly one character at the end.
#[verifier::external_body]
pub(crate) fn push_char(s: &mut String, c: char)
    ensures
        final(s)@ == old(s)@.push(c),
{
    s.push(c);
}

/// Copy a sequence of characters into a fresh `String`.
pub fn chars_to_string(v: &Vec<char>) -> (r: String)
    ensures
        r@ == v@,
{
    let mut r = String::new();
    let n = v.len();
    let mut i: usize = 0;
    while i < n
        invariant
            i <= n,
            n == v@.len(),
            r@ == v@.subrange(0, i as int),
        decreases n - i,
    {
        push_char(&mut r, v[i]);
        proof {
            assert(v@.subrange(0, i as int).push(v@[i as int]) =~= v@.subrange(0, i + 1));
        }
        i = i + 1;
    }
    proof {
        assert(v@.subrange(0, n as int) =~= v@);
    }
    r
}

/// The white-space characters, as std's `char::is_whitespace` documents
/// them: the Unicode `White_Space` property.
pub open spec fn spec_white_space(c: char) -> bool {
    c == '\t' || c == '\n' || c == '\u{b}' || c == '\u{c}' || c == '\r' || c == ' ' || c
        == '\u{85}' || c == '\u{a0}' || c == '\u{1680}' || ('\u{2000}' <= c && c <= '\u{200a}')
        || c == '\u{2028}' || c == '\u{2029}' || c == '\u{202f}' || c == '\u{205f}' || c
        == '\u{3000}'
}

/// Is this a white-space character?
pub fn is_white_space(c: char) -> (r: bool)
    ensures
        r == spec_white_space(c),
{
    c == '\t' || c == '\n' || c == '\u{b}' || c == '\u{c}' || c == '\r' || c == ' ' || c
        == '\u{85}' || c == '\u{a0}' || c == '\u{1680}' || ('\u{2000}' <= c && c <= '\u{200a}')
        || c == '\u{2028}' || c == '\u{2029}' || c == '\u{202f}' || c == '\u{205f}' || c
        == '\u{3000}'
}

/// Character-by-character string equality.
pub fn str_eq(a: &str, b: &str) -> (r: bool)
    ensures
        r == (a@ == b@),
{
    let n = a.unicode_len();
    if n != b.unicode_len() {
        return false;
    }
    let mut i: usize = 0;
    while i < n
        invariant
            i <= n,
            n == a@.len(),
            n == b@.len(),
            forall|j: int| 0 <= j < i ==> a@[j] == b@[j],
        decreases n - i,
    {
        if a.get_char(i) != b.get_char(i) {
            return false;
        }
        i = i + 1;
    }
    proof {
        assert(a@ =~= b@);
    }
    true
}

/// The first sequence begins with the second.
pub open spec fn spec_starts_with(s: Seq<char>, p: Seq<char>) -> bool {
    s.len() >= p.len() && s.subrange(0, p.len() as int) == p
}

pub fn str_starts_with(s: &str, p: &str) -> (r: bool)
    ensures
        r == spec_starts_with(s@, p@),
{
    let pn = p.unicode_len();
    if s.unicode_len() < pn {
        return false;
    }
    let head = s.substring_char(0, pn);
    str_eq(head, p)
}

/// Concatenation of two string slices.
pub fn str_concat(a: &str, b: &str) -> (r: String)
    ensures
        r@ == a@ + b@,
{
    let mut r = String::from_str(a);
    r.append(b);
    r
}

/// The decimal digit character for one digit value.
pub open spec fn spec_digit_char(d: int) -> char {
    (('0' as u8) + d) as char
}

/// The decimal rendering of a number, most significant digit first.
pub open spec fn spec_dec(n: nat) -> Seq<char>
    decreases n,
{
    if n < 10 {
        seq![spec_digit_char(n as int)]
    } else {
        spec_dec(n / 10).push(spec_digit_char((n % 10) as int))
    }
}

/// Render a number in decimal.
pub fn usize_to_dec(n: usize) -> (r: String)
    ensures
        r@ == spec_dec(n as nat),
    decreases n,
{
    let d = (n % 10) as u8;
    let c = (('0' as u8) + d) as char;
    if n < 10 {
        let mut r = String::new();
        push_char(&mut r, c);
        proof {
            assert(r@ =~= seq![spec_digit_char(n as int)]);
        }
        r
    } else {
        let mut r = usize_to_dec(n / 10);
        push_char(&mut r, c);
        r
    }
}

/// Index of the first `'\n'`, or the length when there is none.
pub open spec fn spec_find_nl(s: Seq<char>) -> int
    decreases s.len(),
{
    if s.len() == 0 {
        0
    } else if s[0] == '\n' {
        0
    } else {
        1 + spec_find_nl(s.drop_first())
    }
}

/// A sequence whose first newline is known at position `k`.
pub proof fn lemma_find_nl_at(s: Seq<char>, k: int)
    requires
        0 <= k <= s.len(),
        forall|j: int| 0 <= j < k ==> s[j] != '\n',
        k < s.len() ==> s[k] == '\n',
    ensures
        spec_find_nl(s) == k,
    decreases s.len(),
{
    if s.len() > 0 && s[0] != '\n' {
        lemma_find_nl_at(s.drop_first(), k - 1);
    }
}

/// Remove one trailing carriage return, as `str::lines` does before a
/// newline.
pub open spec fn spec_strip_cr(l: Seq<char>) -> Seq<char> {
    if l.len() > 0 && l[l.len() - 1] == '\r' {
        l.drop_last()
    } else {
        l
    }
}

/// The lines of a text, with the conventions of `str::lines`: split at each
/// `'\n'`, strip one `'\r'` before it, and keep a final unterminated line
/// as it stands.
pub open spec fn spec_lines(s: Seq<char>) -> Seq<Seq<char>>
    decreases s.len(),
{
    if s.len() == 0 {
        Seq::empty()
    } else {
        let k = spec_find_nl(s);
        if 0 <= k < s.len() {
            seq![spec_strip_cr(s.subrange(0, k))] + spec_lines(s.subrange(k + 1, s.len() as int))
        } else {
            seq![s]
        }
    }
}

/// Split a text into its lines.
pub fn split_lines(s: &str) -> (r: Vec<String>)
    ensures
        r.deep_view() == spec_lines(s@),
{
    let n = s.unicode_len();
    let mut out: Vec<String> = Vec::new();
    let mut cur: Vec<char> = Vec::new();
    let mut i: usize = 0;
    let ghost mut line_start: int = 0;
    proof {
        assert(s@.subrange(0, n as int) =~= s@);
        assert(cur@ =~= s@.subrange(0, 0));
        assert(Seq::<Seq<char>>::empty() + spec_lines(s@) =~= spec_lines(s@));
    }
    while i < n
        invariant
            0 <= line_start <= i <= n,
            n == s@.len(),
            cur@ == s@.subrange(line_start, i as int),
            forall|j: int| line_start <= j < i ==> s@[j] != '\n',
            spec_lines(s@) == out.deep_view() + spec_lines(s@.subrange(line_start, n as int)),
        decreases n - i,
    {
        let c = s.get_char(i);
        if c == '\n' {
            let ghost prev_out = out.deep_view();
            let ghost cur_v = cur@;
            let ghost rest = s@.subrange(line_start, n as int);
            proof {
                lemma_find_nl_at(rest, i - line_start);
                assert(rest.subrange(0, i - line_start) =~= cur_v);
                assert(rest.subrange(i - line_start + 1, rest.len() as int) =~= s@.subrange(
                    i + 1,
                    n as int,
                ));
                assert(spec_lines(rest) == seq![spec_strip_cr(cur_v)] + spec_lines(
                    s@.subrange(i + 1, n as int),
                ));
            }
            let mut stripped = cur;
            if stripped.len() > 0 && stripped[stripped.len() - 1] == '\r' {
                stripped.pop();
                proof {
                    assert(stripped@ =~= spec_strip_cr(cur_v));
                }
            }
            let line = chars_to_string(&stripped);
            out.push(line);
            cur = Vec::new();
            proof {
                line_start = i + 1;
                assert(out.deep_view() =~= prev_out + seq![spec_strip_cr(cur_v)]);
                assert(cur@ =~= s@.subrange(line_start, i + 1));
                assert((prev_out + seq![spec_strip_cr(cur_v)]) + spec_lines(
                    s@.subrange(i + 1, n as int),
                ) =~= prev_out + (seq![spec_strip_cr(cur_v)] + spec_lines(
                    s@.subrange(i + 1, n as int),
                )));
            }
        } else {
            cur.push(c);
            proof {
                assert(cur@ =~= s@.subrange(line_start, i + 1));
            }
        }
        i = i + 1;
    }
    let ghost prev_out = out.deep_view();
    let ghost rest = s@.subrange(line_start, n as int);
    if cur.len() > 0 {
        proof {
            lemma_find_nl_at(rest, n - line_start);
            assert(rest =~= cur@);
            assert(spec_lines(rest) == seq![cur@]);
        }
        let line = chars_to_string(&cur);
        out.push(line);
        proof {
            assert(out.deep_view() =~= prev_out + seq![cur@]);
        }
    } else {
        proof {
            assert(rest =~= Seq::<char>::empty());
            assert(out.deep_view() =~= prev_out + spec_lines(rest));
        }
    }
    out
}

/// Texts joined with a separator between neighbours, none trailing.
pub open spec fn spec_join_sep(ls: Seq<Seq<char>>, sep: Seq<char>) -> Seq<char>
    decreases ls.len(),
{
    if ls.len() == 0 {
        Seq::empty()
    } else if ls.len() == 1 {
        ls[0]
    } else {
        ls[0] + sep + spec_join_sep(ls.drop_first(), sep)
    }
}

/// The lines joined back with single newlines, no trailing newline.
pub open spec fn spec_join_nl(ls: Seq<Seq<char>>) -> Seq<char> {
    spec_join_sep(ls, seq!['\n'])
}

/// Appending one more text to a joined text inserts one separator.
pub proof fn lemma_join_sep_push(ls: Seq<Seq<char>>, sep: Seq<char>, x: Seq<char>)
    requires
        ls.len() > 0,
    ensures
        spec_join_sep(ls.push(x), sep) == spec_join_sep(ls, sep) + sep + x,
    decreases ls.len(),
{
    if ls.len() == 1 {
        let p = ls.push(x);
        assert(p.drop_first() =~= seq![x]);
        assert(spec_join_sep(p.drop_first(), sep) == x);
        assert(spec_join_sep(p, sep) == ls[0] + sep + x);
    } else {
        lemma_join_sep_push(ls.drop_first(), sep, x);
        assert(ls.push(x).drop_first() =~= ls.drop_first().push(x));
        assert(ls[0] + sep + (spec_join_sep(ls.drop_first(), sep) + sep + x) =~= (ls[0] + sep
            + spec_join_sep(ls.drop_first(), sep)) + sep + x);
    }
}

/// Join texts with a separator.
pub fn join_sep(ls: &Vec<String>, sep: &str) -> (r: String)
    ensures
        r@ == spec_join_sep(ls.deep_view(), sep@),
{
    let n = ls.len();
    let mut r = String::new();
    if n == 0 {
        return r;
    }
    r.append(ls[0].as_str());
    proof {
        assert(ls.deep_view().subrange(0, 1).len() == 1);
        assert(ls.deep_view().subrange(0, 1)[0] == ls.deep_view()[0]);
    }
    let mut i: usize = 1;
    while i < n
        invariant
            1 <= i <= n,
            n == ls@.len(),
            n == ls.deep_view().len(),
            r@ == spec_join_sep(ls.deep_view().subrange(0, i as int), sep@),
        decreases n - i,
    {
        r.append(sep);
        r.append(ls[i].as_str());
        proof {
            let pre = ls.deep_view().subrange(0, i as int);
            lemma_join_sep_push(pre, sep@, ls.deep_view()[i as int]);
            assert(pre.push(ls.deep_view()[i as int]) =~= ls.deep_view().subrange(0, i + 1));
        }
        i = i + 1;
    }
    proof {
        assert(ls.deep_view().subrange(0, n as int) =~= ls.deep_view());
    }
    r
}

/// Join lines with single newlines.
pub fn join_lines(ls: &Vec<String>) -> (r: String)
    ensures
        r@ == spec_join_nl(ls.deep_view()),
{
    proof {
        reveal_strlit("\n");
        assert("\n"@ =~= seq!['\n']);
    }
    join_sep(ls, "\n")
}

} // verus!
