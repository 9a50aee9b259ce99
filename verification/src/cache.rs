//! Background cache vocabulary and per-source refresh decisions.
//!
//! A refresh request carries just enough information to recompute one
//! context source without touching shared state; an update carries the
//! recomputed content, its fingerprint and its token cost.  The functions
//! here make the pure decision — whether a freshly computed content is
//! worth reporting, and what the update says — while reading files,
//! walking directories and capturing panes stays with the caller.

use vstd::prelude::*;

use crate::fingerprint::{hash_content, hash_last_lines, spec_fingerprint, spec_tail_fingerprint};
use crate::tokens::{estimate_tokens, spec_estimate_tokens};

verus! {

/// How many trailing lines of a terminal pane capture are fingerprinted.
pub const TMUX_TAIL_LINES: usize = 2;

/// A per-file description attached to tree listings.
pub struct TreeFileDescription {
    pub path: String,
    pub description: String,
}

/// Result of a background cache operation.
pub enum CacheUpdate {
    /// File content was read.
    FileContent { context_id: String, content: String, hash: String, token_count: usize },
    /// Tree content was generated.
    TreeContent { context_id: String, content: String, token_count: usize },
    /// Glob results were computed.
    GlobContent { context_id: String, content: String, token_count: usize },
    /// Grep results were computed.
    GrepContent { context_id: String, content: String, token_count: usize },
    /// Terminal pane content was captured.
    TmuxContent { context_id: String, content: String, last_lines_hash: String, token_count: usize },
}

/// Request for a background cache operation.
pub enum CacheRequest {
    /// Refresh a file's cache.
    RefreshFile { context_id: String, file_path: String, current_hash: Option<String> },
    /// Refresh the tree cache.
    RefreshTree {
        context_id: String,
        tree_filter: String,
        tree_open_folders: Vec<String>,
        tree_descriptions: Vec<TreeFileDescription>,
    },
    /// Refresh a glob cache.
    RefreshGlob { context_id: String, pattern: String, base_path: Option<String> },
    /// Refresh a grep cache.
    RefreshGrep {
        context_id: String,
        pattern: String,
        path: Option<String>,
        file_pattern: Option<String>,
    },
    /// Refresh a terminal pane cache.
    RefreshTmux { context_id: String, pane_id: String, current_last_lines_hash: Option<String> },
}

/// A freshly computed fingerprint matches the caller's known one.
pub open spec fn spec_known_matches(known: Option<Seq<char>>, fresh: Seq<char>) -> bool {
    match known {
        Some(h) => h == fresh,
        None => false,
    }
}

/// Decide a file refresh: emit an update exactly when the recomputed
/// fingerprint differs from the caller-supplied known fingerprint; with no
/// known fingerprint, always emit.
pub fn refresh_file_cache(context_id: String, content: String, current_hash: &Option<String>) -> (r:
    Option<CacheUpdate>)
    ensures
        r is None <==> spec_known_matches(current_hash.deep_view(), spec_fingerprint(content@)),
        r matches Some(u) ==> u matches CacheUpdate::FileContent {
            context_id: rid,
            content: rc,
            hash: rh,
            token_count: rt,
        } && rid == context_id && rc == content && rh@ == spec_fingerprint(content@) && rt
            == spec_estimate_tokens(content@.len()),
{
    let new_hash = hash_content(content.as_str());
    let changed = match current_hash {
        Some(h) => !crate::strutil::str_eq(h.as_str(), new_hash.as_str()),
        None => true,
    };
    if changed {
        let token_count = estimate_tokens(content.as_str());
        Some(CacheUpdate::FileContent { context_id, content, hash: new_hash, token_count })
    } else {
        None
    }
}

/// Build a tree update: tree listings are cheap to regenerate, so every
/// refresh emits, with no change detection.
pub fn refresh_tree_cache(context_id: String, content: String) -> (r: CacheUpdate)
    ensures
        r matches CacheUpdate::TreeContent { context_id: rid, content: rc, token_count: rt } && rid
            == context_id && rc == content && rt == spec_estimate_tokens(content@.len()),
{
    let token_count = estimate_tokens(content.as_str());
    CacheUpdate::TreeContent { context_id, content, token_count }
}

/// Build a glob update: always emits.
pub fn refresh_glob_cache(context_id: String, content: String) -> (r: CacheUpdate)
    ensures
        r matches CacheUpdate::GlobContent { context_id: rid, content: rc, token_count: rt } && rid
            == context_id && rc == content && rt == spec_estimate_tokens(content@.len()),
{
    let token_count = estimate_tokens(content.as_str());
    CacheUpdate::GlobContent { context_id, content, token_count }
}

/// Build a grep update: always emits.
pub fn refresh_grep_cache(context_id: String, content: String) -> (r: CacheUpdate)
    ensures
        r matches CacheUpdate::GrepContent { context_id: rid, content: rc, token_count: rt } && rid
            == context_id && rc == content && rt == spec_estimate_tokens(content@.len()),
{
    let token_count = estimate_tokens(content.as_str());
    CacheUpdate::GrepContent { context_id, content, token_count }
}

/// Decide a terminal pane refresh: fingerprint only the last two lines of
/// the capture, and emit an update exactly when that short fingerprint
/// differs from the known one.  Scrollback above the tail never triggers
/// an update.
pub fn refresh_tmux_cache(
    context_id: String,
    content: String,
    current_last_lines_hash: &Option<String>,
) -> (r: Option<CacheUpdate>)
    ensures
        r is None <==> spec_known_matches(
            current_last_lines_hash.deep_view(),
            spec_tail_fingerprint(content@, TMUX_TAIL_LINES as nat),
        ),
        r matches Some(u) ==> u matches CacheUpdate::TmuxContent {
            context_id: rid,
            content: rc,
            last_lines_hash: rh,
            token_count: rt,
        } && rid == context_id && rc == content && rh@ == spec_tail_fingerprint(
            content@,
            TMUX_TAIL_LINES as nat,
        ) && rt == spec_estimate_tokens(content@.len()),
{
    let new_hash = hash_last_lines(content.as_str(), TMUX_TAIL_LINES);
    let changed = match current_last_lines_hash {
        Some(h) => !crate::strutil::str_eq(h.as_str(), new_hash.as_str()),
        None => true,
    };
    if changed {
        let token_count = estimate_tokens(content.as_str());
        Some(
            CacheUpdate::TmuxContent {
                context_id,
                content,
                last_lines_hash: new_hash,
                token_count,
            },
        )
    } else {
        None
    }
}

} // verus!
