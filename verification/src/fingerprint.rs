//! Deterministic, order-sensitive content fingerprinting for change
//! detection: a 64-bit FNV-1a style hash over the characters of a text,
//! rendered as 16 lowercase hexadecimal characters.  A variant hashes only
//! the last N lines of a text, so that a growing scrollback buffer can be
//! polled cheaply.

use vstd::prelude::*;
use vstd::string::StrSliceExecFns;

use crate::strutil::{join_lines, push_char, spec_join_nl, spec_lines, split_lines};

verus! {

pub const FNV_OFFSET: u64 = 0xcbf29ce484222325;

pub const FNV_PRIME: u64 = 0x100000001b3;

/// One step of the hash: fold one character into the state.
pub open spec fn spec_fnv_step(h: u64, c: char) -> u64 {
    vstd::wrapping::u64_specs::wrapping_mul(h ^ (c as u64), FNV_PRIME)
}

/// The hash state after folding a whole text into `h`.
pub open spec fn spec_fnv_from(h: u64, s: Seq<char>) -> u64
    decreases s.len(),
{
    if s.len() == 0 {
        h
    } else {
        spec_fnv_from(spec_fnv_step(h, s[0]), s.drop_first())
    }
}

/// The 64-bit fingerprint of a text.
pub open spec fn spec_fnv64(s: Seq<char>) -> u64 {
    spec_fnv_from(FNV_OFFSET, s)
}

/// The hexadecimal digit character for a value below 16.
pub open spec fn spec_hex_digit(d: int) -> char {
    if d < 10 {
        (('0' as u8) + d) as char
    } else {
        (('a' as u8) + (d - 10)) as char
    }
}

/// A 64-bit value as 16 lowercase hexadecimal characters, high nibble first.
pub open spec fn spec_hex16(h: u64) -> Seq<char> {
    Seq::new(16, |i: int| spec_hex_digit(((h >> (4 * (15 - i)) as u64) & 0xf) as int))
}

/// The fingerprint of a text: its 64-bit hash as 16 lowercase hex characters.
pub open spec fn spec_fingerprint(s: Seq<char>) -> Seq<char> {
    spec_hex16(spec_fnv64(s))
}

/// The last `n` of the text's lines (all of them when there are fewer),
/// joined back with newlines: the part of a pane capture that tail
/// fingerprinting looks at.
pub open spec fn spec_tail_lines(s: Seq<char>, n: nat) -> Seq<Seq<char>> {
    let ls = spec_lines(s);
    if ls.len() <= n {
        ls
    } else {
        ls.subrange(ls.len() - n, ls.len() as int)
    }
}

/// The fingerprint of the last `n` lines of a text.
pub open spec fn spec_tail_fingerprint(s: Seq<char>, n: nat) -> Seq<char> {
    spec_fingerprint(spec_join_nl(spec_tail_lines(s, n)))
}

/// The 64-bit hash of a text, folded character by character.
pub fn fnv64(content: &str) -> (r: u64)
    ensures
        r == spec_fnv64(content@),
{
    let n = content.unicode_len();
    let mut h: u64 = FNV_OFFSET;
    let mut i: usize = 0;
    proof {
        assert(content@.subrange(0, n as int) =~= content@);
    }
    while i < n
        invariant
            i <= n,
            n == content@.len(),
            spec_fnv64(content@) == spec_fnv_from(h, content@.subrange(i as int, n as int)),
        decreases n - i,
    {
        let c = content.get_char(i);
        proof {
            let rest = content@.subrange(i as int, n as int);
            assert(rest.drop_first() =~= content@.subrange(i + 1, n as int));
            assert(spec_fnv_from(h, rest) == spec_fnv_from(
                spec_fnv_step(h, c),
                content@.subrange(i + 1, n as int),
            ));
        }
        h = (h ^ (c as u64)).wrapping_mul(FNV_PRIME);
        i = i + 1;
    }
    h
}

/// Render a 64-bit value as 16 lowercase hex characters.
pub fn to_hex16(h: u64) -> (r: String)
    ensures
        r@ == spec_hex16(h),
{
    let mut r = String::new();
    let mut i: usize = 0;
    while i < 16
        invariant
            i <= 16,
            r@ == spec_hex16(h).subrange(0, i as int),
        decreases 16 - i,
    {
        let shift: u64 = (4 * (15 - i)) as u64;
        let d: u64 = (h >> shift) & 0xf;
        proof {
            assert((h >> shift) & 0xf < 16) by (bit_vector);
        }
        let c: char = if d < 10 {
            (('0' as u8) + (d as u8)) as char
        } else {
            (('a' as u8) + ((d as u8) - 10)) as char
        };
        proof {
            assert(c == spec_hex_digit(d as int));
            assert(spec_hex16(h)[i as int] == c);
            assert(spec_hex16(h).subrange(0, i as int).push(c) =~= spec_hex16(h).subrange(
                0,
                i + 1,
            ));
        }
        push_char(&mut r, c);
        i = i + 1;
    }
    proof {
        assert(spec_hex16(h).subrange(0, 16) =~= spec_hex16(h));
    }
    r
}

/// Fingerprint a whole text for change detection.
pub fn hash_content(content: &str) -> (r: String)
    ensures
        r@ == spec_fingerprint(content@),
        r@.len() == 16,
{
    let h = fnv64(content);
    to_hex16(h)
}

/// Fingerprint only the last `n` lines of a text.  A buffer with fewer
/// than `n` lines is fingerprinted whole.
pub fn hash_last_lines(content: &str, n: usize) -> (r: String)
    ensures
        r@ == spec_tail_fingerprint(content@, n as nat),
        r@.len() == 16,
{
    let lines = split_lines(content);
    let start: usize = if lines.len() > n {
        lines.len() - n
    } else {
        0
    };
    let mut tail: Vec<String> = Vec::new();
    let mut i: usize = start;
    while i < lines.len()
        invariant
            start <= i <= lines@.len(),
            tail.deep_view() == lines.deep_view().subrange(start as int, i as int),
        decreases lines@.len() - i,
    {
        proof {
            assert(lines.deep_view().subrange(start as int, i as int).push(
                lines.deep_view()[i as int],
            ) =~= lines.deep_view().subrange(start as int, i + 1));
        }
        let line = lines[i].clone();
        tail.push(line);
        i = i + 1;
    }
    proof {
        assert(tail.deep_view() =~= spec_tail_lines(content@, n as nat));
    }
    let joined = join_lines(&tail);
    hash_content(joined.as_str())
}

/// Law: fingerprinting is deterministic and referentially transparent —
/// the fingerprint is a function of the text alone, so hashing the same
/// text twice yields the same 16-character value.
pub proof fn lemma_fingerprint_deterministic(a: Seq<char>, b: Seq<char>)
    requires
        a == b,
    ensures
        spec_fingerprint(a) == spec_fingerprint(b),
        spec_fingerprint(a).len() == 16,
{
}

/// Law: every character of a fingerprint is a lowercase hexadecimal digit.
pub proof fn lemma_fingerprint_hex_chars(s: Seq<char>)
    ensures
        spec_fingerprint(s).len() == 16,
        forall|i: int|
            0 <= i < 16 ==> (('0' <= #[trigger] spec_fingerprint(s)[i] <= '9') || ('a'
                <= spec_fingerprint(s)[i] <= 'f')),
{
    let h = spec_fnv64(s);
    assert forall|i: int|
        0 <= i < 16 implies (('0' <= #[trigger] spec_fingerprint(s)[i] <= '9') || ('a'
        <= spec_fingerprint(s)[i] <= 'f')) by {
        let sh = (4 * (15 - i)) as u64;
        assert((h >> sh) & 0xf < 16) by (bit_vector);
        let d = ((h >> sh) & 0xf) as int;
        assert(spec_fingerprint(s)[i] == spec_hex_digit(d));
    }
}

/// Law: only the last `n` lines of a text affect its tail fingerprint —
/// two buffers that agree on those lines fingerprint alike, whatever
/// earlier scrollback they carry.
pub proof fn lemma_tail_fingerprint_ignores_scrollback(a: Seq<char>, b: Seq<char>, n: nat)
    requires
        spec_tail_lines(a, n) == spec_tail_lines(b, n),
    ensures
        spec_tail_fingerprint(a, n) == spec_tail_fingerprint(b, n),
{
}

} // verus!
