//! Execution of the small state-changing tools: marking a notification
//! processed, toggling git diff details, and deciding how a single text
//! edit applies.  Each tool reads its parameters from the invocation's
//! JSON input and answers with a correlated `ToolResult`.

use vstd::prelude::*;
use vstd::string::StrSliceExecFns;
use vstd::string::StringExecFns;

use crate::jsonio::{bool_under, json_tree_of, parse_json_tree, spec_bool_under, spec_str_under, str_under};
use crate::stream::{ToolResult, ToolUse};
use crate::strutil::{str_concat, str_eq};

verus! {

/// One notification of the spine panel.
pub struct Notification {
    pub id: String,
    pub processed: bool,
}

/// Mathematical model of a notification.
#[verifier::ext_equal]
pub ghost struct NotificationModel {
    pub id: Seq<char>,
    pub processed: bool,
}

impl View for Notification {
    type V = NotificationModel;

    open spec fn view(&self) -> NotificationModel {
        NotificationModel { id: self.id@, processed: self.processed }
    }
}

impl DeepView for Notification {
    type V = NotificationModel;

    open spec fn deep_view(&self) -> NotificationModel {
        self.view()
    }
}

/// Position of the first notification with the given id, or -1.
pub open spec fn spec_find_notification(ns: Seq<NotificationModel>, id: Seq<char>) -> int
    decreases ns.len(),
{
    if ns.len() == 0 {
        -1
    } else if ns[0].id == id {
        0
    } else {
        let r = spec_find_notification(ns.drop_first(), id);
        if r < 0 {
            -1
        } else {
            1 + r
        }
    }
}

/// How `spec_find_notification` behaves.
pub proof fn lemma_find_notification(ns: Seq<NotificationModel>, id: Seq<char>)
    ensures
        spec_find_notification(ns, id) == -1 ==> (forall|j: int|
            0 <= j < ns.len() ==> (#[trigger] ns[j].id) != id),
        spec_find_notification(ns, id) != -1 ==> 0 <= spec_find_notification(ns, id) < ns.len()
            && ns[spec_find_notification(ns, id)].id == id && (forall|j: int|
            0 <= j < spec_find_notification(ns, id) ==> (#[trigger] ns[j].id) != id),
        forall|j: int|
            0 <= j < ns.len() && (#[trigger] ns[j].id) == id ==> spec_find_notification(ns, id)
                != -1,
    decreases ns.len(),
{
    if ns.len() > 0 && ns[0].id != id {
        lemma_find_notification(ns.drop_first(), id);
        if spec_find_notification(ns, id) == -1 {
            assert forall|j: int| 0 <= j < ns.len() implies (#[trigger] ns[j].id) != id by {
                if j > 0 {
                    assert(ns.drop_first()[j - 1].id != id);
                }
            }
        }
        if spec_find_notification(ns, id) != -1 {
            let r = spec_find_notification(ns.drop_first(), id);
            assert(ns[1 + r] == ns.drop_first()[r]);
            assert forall|j: int| 0 <= j < 1 + r implies (#[trigger] ns[j].id) != id by {
                if j > 0 {
                    assert(ns.drop_first()[j - 1].id != id);
                }
            }
        }
        assert forall|j: int|
            0 <= j < ns.len() && (#[trigger] ns[j].id) == id implies spec_find_notification(ns, id)
            != -1 by {
            if j > 0 {
                assert(ns.drop_first()[j - 1].id == id);
            }
        }
    }
}

/// The notification table and answer after marking one id processed.
pub open spec fn spec_mark_processed(
    ns: Seq<NotificationModel>,
    id: Seq<char>,
) -> (Seq<NotificationModel>, Seq<char>, bool, bool) {
    let p = spec_find_notification(ns, id);
    if p < 0 {
        (ns, "Notification '"@ + id + "' not found"@, true, false)
    } else if ns[p].processed {
        (ns, "Notification "@ + id + " is already processed"@, false, false)
    } else {
        (
            ns.update(p, NotificationModel { processed: true, ..ns[p] }),
            "Marked notification "@ + id + " as processed"@,
            false,
            true,
        )
    }
}

/// Mark the notification with this id processed.  Returns the answer and
/// whether anything changed (so the caller can refresh the panel).
pub fn mark_processed_by_id(
    tool_use_id: &str,
    id: &str,
    notifications: &mut Vec<Notification>,
) -> (r: (ToolResult, bool))
    ensures
        ({
            let outcome = spec_mark_processed(old(notifications).deep_view(), id@);
            &&& final(notifications).deep_view() == outcome.0
            &&& r.0.tool_use_id@ == tool_use_id@
            &&& r.0.content@ == outcome.1
            &&& r.0.is_error == outcome.2
            &&& r.1 == outcome.3
        }),
{
    let ghost pre = notifications.deep_view();
    let n = notifications.len();
    let mut k: usize = 0;
    while k < n
        invariant
            k <= n,
            n == notifications@.len(),
            pre == notifications.deep_view(),
            pre == old(notifications).deep_view(),
            pre.len() == n,
            forall|j: int| 0 <= j < k ==> (#[trigger] pre[j].id) != id@,
        decreases n - k,
    {
        if str_eq(notifications[k].id.as_str(), id) {
            proof {
                lemma_find_notification(pre, id@);
                assert(pre[k as int].id == id@);
                let p = spec_find_notification(pre, id@);
                assert(p != -1);
                if p < k as int {
                    assert(pre[p].id == id@);
                }
                if p > k as int {
                    assert(pre[k as int].id != id@);
                }
            }
            if notifications[k].processed {
                let mut content = str_concat("Notification ", id);
                content.append(" is already processed");
                proof {
                    assert(content@ =~= "Notification "@ + id@ + " is already processed"@);
                }
                return (
                    ToolResult {
                        tool_use_id: String::from_str(tool_use_id),
                        content,
                        is_error: false,
                    },
                    false,
                );
            } else {
                let old_id = notifications[k].id.clone();
                notifications[k] = Notification { id: old_id, processed: true };
                let mut content = str_concat("Marked notification ", id);
                content.append(" as processed");
                proof {
                    assert(content@ =~= "Marked notification "@ + id@ + " as processed"@);
                    assert(notifications.deep_view() =~= pre.update(
                        k as int,
                        NotificationModel { processed: true, ..pre[k as int] },
                    ));
                }
                return (
                    ToolResult {
                        tool_use_id: String::from_str(tool_use_id),
                        content,
                        is_error: false,
                    },
                    true,
                );
            }
        }
        k = k + 1;
    }
    proof {
        lemma_find_notification(pre, id@);
        let p = spec_find_notification(pre, id@);
        if p != -1 {
            assert(pre[p].id == id@);
        }
    }
    let mut content = str_concat("Notification '", id);
    content.append("' not found");
    proof {
        assert(content@ =~= "Notification '"@ + id@ + "' not found"@);
    }
    (ToolResult { tool_use_id: String::from_str(tool_use_id), content, is_error: true }, false)
}

/// The `id` parameter of an invocation input, as its parsed tree
/// determines it.
pub open spec fn spec_id_param(input: Seq<char>) -> Option<Seq<char>> {
    match json_tree_of(input) {
        None => None,
        Some(t) => spec_str_under(t, "id"@),
    }
}

/// Execute the notification-mark-processed tool: read the `id` parameter
/// from the invocation input and mark that notification; without one,
/// answer the error and change nothing.
pub fn execute_mark_processed(tool: &ToolUse, notifications: &mut Vec<Notification>) -> (r: (
    ToolResult,
    bool,
))
    ensures
        r.0.tool_use_id@ == tool.id@,
        match spec_id_param(tool.input_json@) {
            None => final(notifications).deep_view() == old(notifications).deep_view()
                && r.0.content@ == "Missing required 'id' parameter"@ && r.0.is_error && !r.1,
            Some(id) => ({
                let outcome = spec_mark_processed(old(notifications).deep_view(), id);
                &&& final(notifications).deep_view() == outcome.0
                &&& r.0.content@ == outcome.1
                &&& r.0.is_error == outcome.2
                &&& r.1 == outcome.3
            }),
        },
{
    let id_value: Option<String> = match parse_json_tree(tool.input_json.as_str()) {
        Some(t) => match str_under(&t, "id") {
            Some(s) => Some(s.to_owned()),
            None => None,
        },
        None => None,
    };
    match id_value {
        Some(id) => mark_processed_by_id(tool.id.as_str(), id.as_str(), notifications),
        None => (
            ToolResult {
                tool_use_id: tool.id.clone(),
                content: String::from_str("Missing required 'id' parameter"),
                is_error: true,
            },
            false,
        ),
    }
}

/// The `show` parameter of an invocation input, as its parsed tree
/// determines it.
pub open spec fn spec_show_param(input: Seq<char>) -> Option<bool> {
    match json_tree_of(input) {
        None => None,
        Some(t) => spec_bool_under(t, "show"@),
    }
}

/// Execute the toggle-git-details tool: an explicit `show` parameter sets
/// the flag, a missing one flips it.  The caller marks the git panel
/// stale afterwards.
pub fn execute_toggle_details(tool: &ToolUse, git_show_diffs: &mut bool) -> (r: ToolResult)
    ensures
        r.tool_use_id@ == tool.id@,
        !r.is_error,
        *final(git_show_diffs) == (match spec_show_param(tool.input_json@) {
            Some(v) => v,
            None => !*old(git_show_diffs),
        }),
        r.content@ == (if *final(git_show_diffs) {
            "Git diff details enabled"@
        } else {
            "Git diff details disabled"@
        }),
{
    let show: Option<bool> = match parse_json_tree(tool.input_json.as_str()) {
        Some(t) => bool_under(&t, "show"),
        None => None,
    };
    let new_value = match show {
        Some(v) => v,
        None => !*git_show_diffs,
    };
    *git_show_diffs = new_value;
    let content = if new_value {
        String::from_str("Git diff details enabled")
    } else {
        String::from_str("Git diff details disabled")
    };
    ToolResult { tool_use_id: tool.id.clone(), content, is_error: false }
}

/// What applying one edit found.
pub enum EditResult {
    /// Exactly one match; roughly this many lines change.
    Success { lines_changed: usize },
    /// The old text does not occur.
    NoMatch,
    /// The old text occurs this often; the edit needs a unique match.
    MultipleMatches(usize),
}

/// Leftmost, non-overlapping occurrences of a pattern; an empty pattern
/// matches between every pair of characters.
pub open spec fn spec_count_matches(s: Seq<char>, p: Seq<char>) -> nat
    decreases s.len(),
{
    if p.len() == 0 {
        s.len() + 1
    } else if s.len() < p.len() {
        0
    } else if s.subrange(0, p.len() as int) == p {
        1 + spec_count_matches(s.subrange(p.len() as int, s.len() as int), p)
    } else {
        spec_count_matches(s.drop_first(), p)
    }
}

/// Count the non-overlapping occurrences of a pattern, capped only by the
/// text's length.
pub fn count_matches(s: &str, p: &str) -> (r: usize)
    requires
        p@.len() > 0 || s@.len() < usize::MAX,
    ensures
        r == spec_count_matches(s@, p@),
{
    let n = s.unicode_len();
    let plen = p.unicode_len();
    if plen == 0 {
        return n + 1;
    }
    let mut count: usize = 0;
    let mut i: usize = 0;
    proof {
        assert(s@.subrange(0, n as int) =~= s@);
    }
    while i < n
        invariant
            i <= n,
            n == s@.len(),
            plen == p@.len(),
            plen > 0,
            count <= i,
            count + spec_count_matches(s@.subrange(i as int, n as int), p@) == spec_count_matches(
                s@,
                p@,
            ),
        decreases n - i,
    {
        let ghost rest = s@.subrange(i as int, n as int);
        if plen <= n - i {
            let head = s.substring_char(i, i + plen);
            if str_eq(head, p) {
                proof {
                    assert(rest.subrange(0, plen as int) =~= s@.subrange(i as int, i + plen));
                    assert(rest.subrange(plen as int, rest.len() as int) =~= s@.subrange(
                        i + plen,
                        n as int,
                    ));
                }
                count = count + 1;
                i = i + plen;
            } else {
                proof {
                    assert(rest.subrange(0, plen as int) =~= s@.subrange(i as int, i + plen));
                    assert(rest.drop_first() =~= s@.subrange(i + 1, n as int));
                }
                i = i + 1;
            }
        } else {
            proof {
                assert(rest.len() < plen);
            }
            i = i + 1;
            proof {
                assert(s@.subrange(i as int, n as int).len() < plen);
            }
        }
    }
    proof {
        assert(s@.subrange(n as int, n as int).len() == 0);
    }
    count
}

/// Decide how one edit applies: it succeeds only on a unique match, and
/// the line estimate is the larger of the two texts' line counts.
pub fn apply_single_edit(content: &str, old_string: &str, new_string: &str) -> (r: EditResult)
    requires
        old_string@.len() > 0 || content@.len() < usize::MAX,
    ensures
        ({
            let c = spec_count_matches(content@, old_string@);
            match r {
                EditResult::NoMatch => c == 0,
                EditResult::MultipleMatches(k) => k == c && c > 1,
                EditResult::Success { lines_changed } => c == 1 && lines_changed == (if crate::strutil::spec_lines(
                    old_string@,
                ).len() >= crate::strutil::spec_lines(new_string@).len() {
                    crate::strutil::spec_lines(old_string@).len()
                } else {
                    crate::strutil::spec_lines(new_string@).len()
                }),
            }
        }),
{
    let match_count = count_matches(content, old_string);
    if match_count == 0 {
        EditResult::NoMatch
    } else if match_count > 1 {
        EditResult::MultipleMatches(match_count)
    } else {
        let old_lines = crate::strutil::split_lines(old_string);
        let new_lines = crate::strutil::split_lines(new_string);
        let lines_changed = if old_lines.len() >= new_lines.len() {
            old_lines.len()
        } else {
            new_lines.len()
        };
        proof {
            assert(old_lines@.len() == old_lines.deep_view().len());
            assert(new_lines@.len() == new_lines.deep_view().len());
        }
        EditResult::Success { lines_changed }
    }
}

} // verus!
