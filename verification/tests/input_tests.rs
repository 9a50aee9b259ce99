use context_pilot::clicks::{handle_left_click, handle_sidebar_click, ClickAction, SIDEBAR_WIDTH};
use context_pilot::listedit::{detect_list_action, next_alpha_marker, ListAction};

#[test]
fn clicks_outside_the_sidebar_do_nothing() {
    let flags = vec![false, false];
    assert_eq!(handle_left_click(SIDEBAR_WIDTH, 2, &flags), ClickAction::Ignore);
    assert_eq!(handle_left_click(200, 2, &flags), ClickAction::Ignore);
    assert_eq!(handle_left_click(0, 2, &flags), ClickAction::SelectContext(0));
}

#[test]
fn sidebar_rows_map_to_contexts() {
    let flags = vec![false, false, false];
    assert_eq!(handle_sidebar_click(1, 0, &flags), ClickAction::Ignore);
    assert_eq!(handle_sidebar_click(1, 1, &flags), ClickAction::Ignore);
    assert_eq!(handle_sidebar_click(1, 2, &flags), ClickAction::SelectContext(0));
    assert_eq!(handle_sidebar_click(1, 4, &flags), ClickAction::SelectContext(2));
    assert_eq!(handle_sidebar_click(1, 5, &flags), ClickAction::Ignore);
}

#[test]
fn separator_row_is_dead_and_rows_below_shift() {
    let flags = vec![true, true, false];
    assert_eq!(handle_sidebar_click(1, 2, &flags), ClickAction::SelectContext(0));
    assert_eq!(handle_sidebar_click(1, 3, &flags), ClickAction::SelectContext(1));
    assert_eq!(handle_sidebar_click(1, 4, &flags), ClickAction::Ignore);
    assert_eq!(handle_sidebar_click(1, 5, &flags), ClickAction::SelectContext(2));
    assert_eq!(handle_sidebar_click(1, 6, &flags), ClickAction::Ignore);
}

#[test]
fn all_fixed_contexts_need_no_separator() {
    let flags = vec![true, true];
    assert_eq!(handle_sidebar_click(1, 3, &flags), ClickAction::SelectContext(1));
    assert_eq!(handle_sidebar_click(1, 4, &flags), ClickAction::Ignore);
}

fn continue_text(r: Option<ListAction>) -> String {
    match r {
        Some(ListAction::Continue(s)) => s,
        other => panic!("expected a continuation, got {:?}", other.map(|_| ())),
    }
}

#[test]
fn plain_lines_submit() {
    assert!(detect_list_action("hello").is_none());
    assert!(detect_list_action("").is_none());
    assert!(detect_list_action("some text\n").is_none());
    assert!(detect_list_action("- done item\n").is_none());
}

#[test]
fn unordered_lists_continue_with_their_prefix() {
    assert_eq!(continue_text(detect_list_action("- item")), "\n- ");
    assert_eq!(continue_text(detect_list_action("* item")), "\n* ");
    assert_eq!(continue_text(detect_list_action("  - indented")), "\n  - ");
    assert_eq!(continue_text(detect_list_action("first line\n- second")), "\n- ");
}

#[test]
fn empty_list_items_are_removed() {
    assert!(matches!(detect_list_action("- "), Some(ListAction::RemoveItem)));
    assert!(matches!(detect_list_action("* "), Some(ListAction::RemoveItem)));
    assert!(matches!(detect_list_action("1. "), Some(ListAction::RemoveItem)));
    assert!(matches!(detect_list_action("a. "), Some(ListAction::RemoveItem)));
    assert!(matches!(detect_list_action("  B. "), Some(ListAction::RemoveItem)));
}

#[test]
fn numbered_lists_count_up() {
    assert_eq!(continue_text(detect_list_action("1. first")), "\n2. ");
    assert_eq!(continue_text(detect_list_action("9. ninth")), "\n10. ");
    assert_eq!(continue_text(detect_list_action("  3. indented")), "\n  4. ");
}

#[test]
fn lettered_lists_advance() {
    assert_eq!(continue_text(detect_list_action("a. first")), "\nb. ");
    assert_eq!(continue_text(detect_list_action("z. last")), "\naa. ");
    assert_eq!(continue_text(detect_list_action("A. first")), "\nB. ");
    assert_eq!(continue_text(detect_list_action("Z. last")), "\nAA. ");
}

#[test]
fn markers_advance_alphabetically() {
    assert_eq!(next_alpha_marker("a"), "b");
    assert_eq!(next_alpha_marker("y"), "z");
    assert_eq!(next_alpha_marker("z"), "aa");
    assert_eq!(next_alpha_marker("A"), "B");
    assert_eq!(next_alpha_marker("Z"), "AA");
}

#[test]
fn odd_markers_do_not_continue() {
    assert!(detect_list_action(". text").is_none());
    assert!(detect_list_action("aB. mixed case").is_none());
    assert!(detect_list_action("1a. mixed kinds").is_none());
}
