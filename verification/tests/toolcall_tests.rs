use context_pilot::stream::ToolUse;
use context_pilot::toolcalls::{
    apply_single_edit, count_matches, execute_mark_processed, execute_toggle_details, EditResult,
    Notification,
};

fn tool(id: &str, input_json: &str) -> ToolUse {
    ToolUse { id: id.to_string(), name: "test_tool".to_string(), input_json: input_json.to_string() }
}

#[test]
fn marking_an_unprocessed_notification() {
    let mut ns = vec![
        Notification { id: "n1".to_string(), processed: false },
        Notification { id: "n2".to_string(), processed: false },
    ];
    let (result, touched) = execute_mark_processed(&tool("t1", "{\"id\":\"n2\"}"), &mut ns);
    assert!(!result.is_error);
    assert_eq!(result.tool_use_id, "t1");
    assert_eq!(result.content, "Marked notification n2 as processed");
    assert!(touched);
    assert!(!ns[0].processed);
    assert!(ns[1].processed);
}

#[test]
fn marking_an_already_processed_notification() {
    let mut ns = vec![Notification { id: "n1".to_string(), processed: true }];
    let (result, touched) = execute_mark_processed(&tool("t1", "{\"id\":\"n1\"}"), &mut ns);
    assert!(!result.is_error);
    assert_eq!(result.content, "Notification n1 is already processed");
    assert!(!touched);
}

#[test]
fn marking_an_unknown_notification_fails() {
    let mut ns = vec![Notification { id: "n1".to_string(), processed: false }];
    let (result, touched) = execute_mark_processed(&tool("t1", "{\"id\":\"nope\"}"), &mut ns);
    assert!(result.is_error);
    assert_eq!(result.content, "Notification 'nope' not found");
    assert!(!touched);
    assert!(!ns[0].processed);
}

#[test]
fn marking_without_id_parameter_fails() {
    let mut ns = Vec::new();
    let (result, touched) = execute_mark_processed(&tool("t1", "{}"), &mut ns);
    assert!(result.is_error);
    assert_eq!(result.content, "Missing required 'id' parameter");
    assert!(!touched);
}

#[test]
fn toggle_details_sets_explicitly() {
    let mut flag = false;
    let r = execute_toggle_details(&tool("t1", "{\"show\":true}"), &mut flag);
    assert!(flag);
    assert_eq!(r.content, "Git diff details enabled");
    let r2 = execute_toggle_details(&tool("t1", "{\"show\":false}"), &mut flag);
    assert!(!flag);
    assert_eq!(r2.content, "Git diff details disabled");
}

#[test]
fn toggle_details_flips_without_parameter() {
    let mut flag = false;
    let r = execute_toggle_details(&tool("t1", "{}"), &mut flag);
    assert!(flag);
    assert_eq!(r.content, "Git diff details enabled");
    let r2 = execute_toggle_details(&tool("t1", "{}"), &mut flag);
    assert!(!flag);
    assert_eq!(r2.content, "Git diff details disabled");
}

#[test]
fn counting_matches_is_non_overlapping() {
    assert_eq!(count_matches("aaa", "aa"), 1);
    assert_eq!(count_matches("aaaa", "aa"), 2);
    assert_eq!(count_matches("abcabc", "abc"), 2);
    assert_eq!(count_matches("abc", "zz"), 0);
    assert_eq!(count_matches("abc", ""), 4);
}

#[test]
fn single_edit_outcomes() {
    assert!(matches!(apply_single_edit("abc", "zz", "q"), EditResult::NoMatch));
    assert!(matches!(
        apply_single_edit("xx yy xx", "xx", "q"),
        EditResult::MultipleMatches(2)
    ));
    match apply_single_edit("one\ntwo\nthree", "two", "2a\n2b") {
        EditResult::Success { lines_changed } => assert_eq!(lines_changed, 2),
        _ => panic!("expected success"),
    }
}
