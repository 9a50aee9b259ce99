use context_pilot::project::{
    messages_to_api, messages_to_grok, tools_to_grok, ApiMessage, ContentBlock, ContextItem,
    Message, MessageStatus, MessageType, ToolDefinition,
};
use context_pilot::stream::{ToolResult, ToolUse};

fn text_message(id: &str, role: &str, content: &str) -> Message {
    Message {
        id: id.to_string(),
        role: role.to_string(),
        message_type: MessageType::TextMessage,
        status: MessageStatus::Full,
        content: content.to_string(),
        tl_dr: None,
        tool_uses: Vec::new(),
        tool_results: Vec::new(),
    }
}

fn tool_call_message(id: &str, tool_use_id: &str, name: &str, input_json: &str) -> Message {
    Message {
        id: id.to_string(),
        role: "assistant".to_string(),
        message_type: MessageType::ToolCall,
        status: MessageStatus::Full,
        content: String::new(),
        tl_dr: None,
        tool_uses: vec![ToolUse {
            id: tool_use_id.to_string(),
            name: name.to_string(),
            input_json: input_json.to_string(),
        }],
        tool_results: Vec::new(),
    }
}

fn tool_result_message(id: &str, tool_use_id: &str, content: &str) -> Message {
    Message {
        id: id.to_string(),
        role: "user".to_string(),
        message_type: MessageType::ToolResult,
        status: MessageStatus::Full,
        content: String::new(),
        tl_dr: None,
        tool_uses: Vec::new(),
        tool_results: vec![ToolResult {
            tool_use_id: tool_use_id.to_string(),
            content: content.to_string(),
            is_error: false,
        }],
    }
}

fn has_tool_use_block(out: &[ApiMessage], id: &str) -> bool {
    out.iter().any(|m| {
        m.content.iter().any(|b| matches!(b, ContentBlock::ToolUse { id: bid, .. } if bid == id))
    })
}

#[test]
fn orphan_tool_call_is_dropped() {
    let messages = vec![
        text_message("m1", "user", "hi"),
        tool_call_message("m2", "tc1", "search", "{}"),
    ];
    let out = messages_to_api(&messages, &Vec::new(), false);
    assert!(!has_tool_use_block(&out, "tc1"));
}

#[test]
fn answered_tool_call_is_kept() {
    let messages = vec![
        text_message("m1", "user", "hi"),
        tool_call_message("m2", "tc1", "search", "{\"q\":1}"),
        tool_result_message("m3", "tc1", "found it"),
    ];
    let out = messages_to_api(&messages, &Vec::new(), false);
    assert!(has_tool_use_block(&out, "tc1"));
}

#[test]
fn deleted_tool_result_does_not_ground_a_call() {
    let mut result = tool_result_message("m3", "tc1", "found it");
    result.status = MessageStatus::Deleted;
    let messages = vec![
        text_message("m1", "user", "hi"),
        tool_call_message("m2", "tc1", "search", "{}"),
        result,
    ];
    let out = messages_to_api(&messages, &Vec::new(), false);
    assert!(!has_tool_use_block(&out, "tc1"));
}

#[test]
fn deleted_and_empty_messages_are_skipped() {
    let mut deleted = text_message("m1", "user", "secret");
    deleted.status = MessageStatus::Deleted;
    let empty = text_message("m2", "user", "");
    let messages = vec![deleted, empty, text_message("m3", "user", "kept")];
    let out = messages_to_api(&messages, &Vec::new(), false);
    assert_eq!(out.len(), 1);
    match &out[0].content[0] {
        ContentBlock::Text { text } => assert_eq!(text, "[m3]: kept"),
        _ => panic!("expected text"),
    }
}

#[test]
fn summarized_message_substitutes_summary() {
    let mut m = text_message("m1", "assistant", "very long original text");
    m.status = MessageStatus::Summarized;
    m.tl_dr = Some("short".to_string());
    let out = messages_to_api(&vec![m], &Vec::new(), false);
    match &out[0].content[0] {
        ContentBlock::Text { text } => assert_eq!(text, "[m1]: short"),
        _ => panic!("expected text"),
    }
}

#[test]
fn first_user_message_carries_context() {
    let items = vec![
        ContextItem::new("notes".to_string(), "remember this".to_string()),
        ContextItem::new("empty one".to_string(), String::new()),
    ];
    let messages = vec![
        text_message("m1", "user", "question"),
        text_message("m2", "user", "follow-up"),
    ];
    let out = messages_to_api(&messages, &items, false);
    match &out[0].content[0] {
        ContentBlock::Text { text } => {
            assert_eq!(text, "## notes\nremember this\n\n[m1]: question");
        }
        _ => panic!("expected text"),
    }
    match &out[1].content[0] {
        ContentBlock::Text { text } => assert_eq!(text, "[m2]: follow-up"),
        _ => panic!("expected text"),
    }
}

#[test]
fn context_prefixes_first_user_message_even_after_assistant() {
    let items = vec![ContextItem::new("notes".to_string(), "remember this".to_string())];
    let messages = vec![
        text_message("m1", "assistant", "welcome"),
        text_message("m2", "user", "question"),
    ];
    let out = messages_to_api(&messages, &items, false);
    match &out[0].content[0] {
        ContentBlock::Text { text } => assert_eq!(text, "[m1]: welcome"),
        _ => panic!("expected text"),
    }
    match &out[1].content[0] {
        ContentBlock::Text { text } => {
            assert_eq!(text, "## notes\nremember this\n\n[m2]: question");
        }
        _ => panic!("expected text"),
    }
}

#[test]
fn tool_results_do_not_consume_the_context_prefix() {
    let items = vec![ContextItem::new("notes".to_string(), "remember this".to_string())];
    let messages = vec![
        tool_call_message("m1", "tc1", "search", "{}"),
        tool_result_message("m2", "tc1", "ok"),
        text_message("m3", "user", "question"),
    ];
    let out = messages_to_api(&messages, &items, false);
    let last = out.last().expect("a message");
    match &last.content[0] {
        ContentBlock::Text { text } => {
            assert_eq!(text, "## notes\nremember this\n\n[m3]: question");
        }
        _ => panic!("expected text"),
    }
}

#[test]
fn tool_call_merges_into_previous_assistant_message() {
    let messages = vec![
        text_message("m1", "assistant", "let me check"),
        tool_call_message("m2", "tc1", "search", "{}"),
        tool_result_message("m3", "tc1", "ok"),
    ];
    let out = messages_to_api(&messages, &Vec::new(), false);
    assert_eq!(out[0].role, "assistant");
    assert_eq!(out[0].content.len(), 2);
    assert!(matches!(&out[0].content[0], ContentBlock::Text { .. }));
    assert!(matches!(&out[0].content[1], ContentBlock::ToolUse { .. }));
}

#[test]
fn tool_result_blocks_carry_message_id_prefix() {
    let messages = vec![
        tool_call_message("m1", "tc1", "search", "{}"),
        tool_result_message("m2", "tc1", "the outcome"),
    ];
    let out = messages_to_api(&messages, &Vec::new(), false);
    let result_msg = out.iter().find(|m| m.role == "user").expect("a user message");
    match &result_msg.content[0] {
        ContentBlock::ToolResult { tool_use_id, content } => {
            assert_eq!(tool_use_id, "tc1");
            assert_eq!(content, "[m2]: the outcome");
        }
        _ => panic!("expected a tool result block"),
    }
}

#[test]
fn null_tool_input_degrades_to_empty_object() {
    let messages = vec![
        tool_call_message("m1", "tc1", "search", "null"),
        tool_result_message("m2", "tc1", "ok"),
    ];
    let out = messages_to_api(&messages, &Vec::new(), false);
    let call_msg = &out[0];
    match &call_msg.content[0] {
        ContentBlock::ToolUse { input_json, .. } => assert_eq!(input_json, "{}"),
        _ => panic!("expected a tool use block"),
    }
}

#[test]
fn include_last_keeps_in_flight_tool_uses() {
    let mut last = text_message("m1", "assistant", "working");
    last.tool_uses.push(ToolUse {
        id: "tc9".to_string(),
        name: "run".to_string(),
        input_json: "{}".to_string(),
    });
    let out = messages_to_api(&vec![last], &Vec::new(), true);
    assert!(has_tool_use_block(&out, "tc9"));
}

#[test]
fn grok_projection_opens_with_system_message() {
    let out = messages_to_grok(
        &vec![text_message("m1", "user", "hi")],
        &Vec::new(),
        &None,
        &None,
        "base prompt",
    );
    assert_eq!(out[0].role, "system");
    assert_eq!(out[0].content.as_deref(), Some("base prompt"));
    assert_eq!(out[1].role, "user");
    assert_eq!(out[1].content.as_deref(), Some("[m1]: hi"));
}

#[test]
fn grok_projection_honors_override_and_cleanup() {
    let out = messages_to_grok(
        &Vec::new(),
        &Vec::new(),
        &Some("custom".to_string()),
        &Some("old stuff".to_string()),
        "base prompt",
    );
    assert_eq!(out[0].content.as_deref(), Some("custom"));
    assert_eq!(out[1].role, "user");
    assert_eq!(
        out[1].content.as_deref(),
        Some("Please clean up the context to reduce token usage:\n\nold stuff"),
    );
}

#[test]
fn grok_projection_unrolls_tool_results() {
    let messages = vec![tool_result_message("m2", "tc1", "saw it")];
    let out = messages_to_grok(&messages, &Vec::new(), &None, &None, "s");
    assert_eq!(out[1].role, "tool");
    assert_eq!(out[1].content.as_deref(), Some("[m2]: saw it"));
    assert_eq!(out[1].tool_call_id.as_deref(), Some("tc1"));
}

#[test]
fn grok_projection_replays_answered_tool_calls() {
    let messages = vec![
        tool_call_message("m1", "tc1", "search", "{\"q\":2}"),
        tool_result_message("m2", "tc1", "found"),
    ];
    let out = messages_to_grok(&messages, &Vec::new(), &None, &None, "s");
    assert_eq!(out[1].role, "assistant");
    let calls = out[1].tool_calls.as_ref().expect("tool calls");
    assert_eq!(calls[0].id, "tc1");
    assert_eq!(calls[0].call_type, "function");
    assert_eq!(calls[0].name, "search");
    assert_eq!(calls[0].arguments, "{\"q\":2}");
}

#[test]
fn grok_projection_drops_orphaned_tool_calls() {
    let messages = vec![
        text_message("m1", "user", "hi"),
        tool_call_message("m2", "tc1", "search", "{}"),
    ];
    let out = messages_to_grok(&messages, &Vec::new(), &None, &None, "s");
    assert!(out.iter().all(|m| m.tool_calls.is_none()));
}

#[test]
fn grok_projection_drops_tool_calls_answered_only_by_deleted_results() {
    let mut result = tool_result_message("m3", "tc1", "found");
    result.status = MessageStatus::Deleted;
    let messages = vec![tool_call_message("m2", "tc1", "search", "{}"), result];
    let out = messages_to_grok(&messages, &Vec::new(), &None, &None, "s");
    assert!(out.iter().all(|m| m.tool_calls.is_none()));
}

#[test]
fn grok_context_joins_on_first_user_message_only() {
    let items = vec![ContextItem::new("a".to_string(), "x".to_string())];
    let messages = vec![
        text_message("m1", "user", "first"),
        text_message("m2", "user", "second"),
    ];
    let out = messages_to_grok(&messages, &items, &None, &None, "s");
    assert_eq!(out[1].content.as_deref(), Some("## a\nx\n\n[m1]: first"));
    assert_eq!(out[2].content.as_deref(), Some("[m2]: second"));
}

#[test]
fn disabled_tools_are_filtered() {
    let tools = vec![
        ToolDefinition {
            id: "alpha".to_string(),
            description: "first".to_string(),
            enabled: true,
            parameters_json: "{}".to_string(),
        },
        ToolDefinition {
            id: "beta".to_string(),
            description: "second".to_string(),
            enabled: false,
            parameters_json: "{}".to_string(),
        },
    ];
    let out = tools_to_grok(&tools);
    assert_eq!(out.len(), 1);
    assert_eq!(out[0].name, "alpha");
    assert_eq!(out[0].tool_type, "function");
}
