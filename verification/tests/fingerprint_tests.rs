use context_pilot::fingerprint::{hash_content, hash_last_lines};
use context_pilot::tokens::estimate_tokens;

fn is_hex16(s: &str) -> bool {
    s.len() == 16 && s.chars().all(|c| c.is_ascii_hexdigit() && !c.is_ascii_uppercase())
}

#[test]
fn hashing_is_deterministic() {
    let a = hash_content("some panel content\nwith lines");
    let b = hash_content("some panel content\nwith lines");
    assert_eq!(a, b);
    assert!(is_hex16(&a));
}

#[test]
fn hashing_distinguishes_contents() {
    assert_ne!(hash_content("a"), hash_content("b"));
    assert_ne!(hash_content(""), hash_content(" "));
}

#[test]
fn hash_is_order_sensitive() {
    assert_ne!(hash_content("ab"), hash_content("ba"));
}

#[test]
fn empty_content_hashes() {
    let h = hash_content("");
    assert!(is_hex16(&h));
}

#[test]
fn last_lines_hash_ignores_scrollback() {
    let a = hash_last_lines("old scrollback\nmore old\ntail one\ntail two", 2);
    let b = hash_last_lines("completely different history\ntail one\ntail two", 2);
    assert_eq!(a, b);
}

#[test]
fn last_lines_hash_sees_tail_changes() {
    let a = hash_last_lines("same\ntail one\ntail two", 2);
    let b = hash_last_lines("same\ntail one\ntail three", 2);
    assert_ne!(a, b);
}

#[test]
fn last_lines_hash_short_buffer_uses_whole() {
    assert_eq!(hash_last_lines("only line", 2), hash_content("only line"));
    assert_eq!(hash_last_lines("a\nb", 5), hash_content("a\nb"));
}

#[test]
fn last_lines_hash_handles_crlf() {
    assert_eq!(hash_last_lines("x\r\ny\r\nz", 2), hash_last_lines("w\ny\nz", 2));
}

#[test]
fn token_estimate_small_values() {
    assert_eq!(estimate_tokens(""), 0);
    assert_eq!(estimate_tokens("hello"), 1);
    assert_eq!(estimate_tokens("abcd"), 1);
    assert_eq!(estimate_tokens("abcdef"), 2);
    assert_eq!(estimate_tokens("12345678"), 2);
}
