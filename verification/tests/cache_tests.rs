use context_pilot::cache::{
    refresh_file_cache, refresh_glob_cache, refresh_grep_cache, refresh_tmux_cache,
    refresh_tree_cache, CacheUpdate,
};
use context_pilot::fingerprint::{hash_content, hash_last_lines};

#[test]
fn file_refresh_emits_without_known_fingerprint() {
    let update = refresh_file_cache("P5".to_string(), "hello".to_string(), &None);
    match update {
        Some(CacheUpdate::FileContent { context_id, content, hash, token_count }) => {
            assert_eq!(context_id, "P5");
            assert_eq!(content, "hello");
            assert_eq!(hash, hash_content("hello"));
            assert_eq!(token_count, 1);
        }
        _ => panic!("expected a file update"),
    }
}

#[test]
fn file_refresh_skips_when_fingerprint_unchanged() {
    let known = Some(hash_content("hello"));
    let update = refresh_file_cache("P5".to_string(), "hello".to_string(), &known);
    assert!(update.is_none());
}

#[test]
fn file_refresh_emits_when_fingerprint_differs() {
    let known = Some(hash_content("old content"));
    let update = refresh_file_cache("P5".to_string(), "new content".to_string(), &known);
    assert!(update.is_some());
}

#[test]
fn tree_refresh_always_emits() {
    match refresh_tree_cache("P1".to_string(), "tree text".to_string()) {
        CacheUpdate::TreeContent { context_id, content, token_count } => {
            assert_eq!(context_id, "P1");
            assert_eq!(content, "tree text");
            assert_eq!(token_count, 2);
        }
        _ => panic!("expected a tree update"),
    }
}

#[test]
fn glob_refresh_always_emits() {
    match refresh_glob_cache("P2".to_string(), "a.rs\nb.rs".to_string()) {
        CacheUpdate::GlobContent { context_id, .. } => assert_eq!(context_id, "P2"),
        _ => panic!("expected a glob update"),
    }
}

#[test]
fn grep_refresh_always_emits() {
    match refresh_grep_cache("P3".to_string(), "match line".to_string()) {
        CacheUpdate::GrepContent { context_id, .. } => assert_eq!(context_id, "P3"),
        _ => panic!("expected a grep update"),
    }
}

#[test]
fn tmux_refresh_ignores_scrollback_growth() {
    let first = "line 1\nprompt $\nok";
    let known = Some(hash_last_lines(first, 2));
    let second = "line 1\nlots of new scrollback\nmore output\nprompt $\nok";
    let update = refresh_tmux_cache("P4".to_string(), second.to_string(), &known);
    assert!(update.is_none());
}

#[test]
fn tmux_refresh_emits_on_tail_change() {
    let known = Some(hash_last_lines("a\nb\nc", 2));
    let update = refresh_tmux_cache("P4".to_string(), "a\nb\nd".to_string(), &known);
    match update {
        Some(CacheUpdate::TmuxContent { context_id, content, last_lines_hash, .. }) => {
            assert_eq!(context_id, "P4");
            assert_eq!(content, "a\nb\nd");
            assert_eq!(last_lines_hash, hash_last_lines("a\nb\nd", 2));
        }
        _ => panic!("expected a tmux update"),
    }
}

#[test]
fn tmux_refresh_emits_without_known_fingerprint() {
    assert!(refresh_tmux_cache("P4".to_string(), "anything".to_string(), &None).is_some());
}
