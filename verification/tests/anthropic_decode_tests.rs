use context_pilot::anthropic::{map_model_for_oauth, oauth_token_usable, ApiCheckResult, AnthropicAccum, AnthropicClient};
use context_pilot::stream::StreamEvent;

#[test]
fn single_tool_call_stream_decodes() {
    let mut d = AnthropicAccum::new();
    let e1 = d.decode_line(
        "data: {\"type\":\"content_block_delta\",\"delta\":{\"type\":\"text_delta\",\"text\":\"Hello\"}}",
    );
    assert_eq!(e1.len(), 1);
    match &e1[0] {
        StreamEvent::Chunk(t) => assert_eq!(t, "Hello"),
        _ => panic!("expected a chunk"),
    }
    let e2 = d.decode_line(
        "data: {\"type\":\"content_block_start\",\"content_block\":{\"type\":\"tool_use\",\"id\":\"t1\",\"name\":\"search\"}}",
    );
    assert!(e2.is_empty());
    for part in ["{\"q\":", "\"x\"", "}"] {
        let payload = format!(
            "data: {{\"type\":\"content_block_delta\",\"delta\":{{\"type\":\"input_json_delta\",\"partial_json\":\"{}\"}}}}",
            part.replace('\\', "\\\\").replace('"', "\\\"")
        );
        let e = d.decode_line(&payload);
        assert!(e.is_empty());
    }
    let e3 = d.decode_line("data: {\"type\":\"content_block_stop\"}");
    assert_eq!(e3.len(), 1);
    match &e3[0] {
        StreamEvent::ToolUse(t) => {
            assert_eq!(t.id, "t1");
            assert_eq!(t.name, "search");
            assert_eq!(t.input_json, "{\"q\":\"x\"}");
        }
        _ => panic!("expected a tool use"),
    }
    let e4 = d.decode_line(
        "data: {\"type\":\"message_delta\",\"usage\":{\"input_tokens\":12,\"output_tokens\":7}}",
    );
    assert!(e4.is_empty());
    let e5 = d.decode_line("data: {\"type\":\"message_stop\"}");
    assert!(e5.is_empty());
    match d.finish() {
        StreamEvent::Done { input_tokens, output_tokens } => {
            assert_eq!(input_tokens, 12);
            assert_eq!(output_tokens, 7);
        }
        _ => panic!("expected a done event"),
    }
}

#[test]
fn unterminated_tool_call_emits_nothing() {
    let mut d = AnthropicAccum::new();
    d.decode_line(
        "data: {\"type\":\"content_block_start\",\"content_block\":{\"type\":\"tool_use\",\"id\":\"t1\",\"name\":\"search\"}}",
    );
    d.decode_line(
        "data: {\"type\":\"content_block_delta\",\"delta\":{\"type\":\"input_json_delta\",\"partial_json\":\"{\"}}",
    );
    let done = d.decode_line("data: [DONE]");
    assert!(done.is_empty());
    match d.finish() {
        StreamEvent::Done { input_tokens, output_tokens } => {
            assert_eq!(input_tokens, 0);
            assert_eq!(output_tokens, 0);
        }
        _ => panic!("expected a done event"),
    }
}

#[test]
fn new_block_start_replaces_open_accumulator() {
    let mut d = AnthropicAccum::new();
    d.decode_line(
        "data: {\"type\":\"content_block_start\",\"content_block\":{\"type\":\"tool_use\",\"id\":\"t1\",\"name\":\"first\"}}",
    );
    d.decode_line(
        "data: {\"type\":\"content_block_delta\",\"delta\":{\"type\":\"input_json_delta\",\"partial_json\":\"{\\\"a\\\":1\"}}",
    );
    d.decode_line(
        "data: {\"type\":\"content_block_start\",\"content_block\":{\"type\":\"tool_use\",\"id\":\"t2\",\"name\":\"second\"}}",
    );
    let evs = d.decode_line("data: {\"type\":\"content_block_stop\"}");
    assert_eq!(evs.len(), 1);
    match &evs[0] {
        StreamEvent::ToolUse(t) => {
            assert_eq!(t.id, "t2");
            assert_eq!(t.name, "second");
            assert_eq!(t.input_json, "{}");
        }
        _ => panic!("expected a tool use"),
    }
}

#[test]
fn malformed_accumulated_arguments_degrade_to_empty_object() {
    let mut d = AnthropicAccum::new();
    d.decode_line(
        "data: {\"type\":\"content_block_start\",\"content_block\":{\"type\":\"tool_use\",\"id\":\"t1\",\"name\":\"search\"}}",
    );
    d.decode_line(
        "data: {\"type\":\"content_block_delta\",\"delta\":{\"type\":\"input_json_delta\",\"partial_json\":\"{\\\"q\\\":\"}}",
    );
    let evs = d.decode_line("data: {\"type\":\"content_block_stop\"}");
    assert_eq!(evs.len(), 1);
    match &evs[0] {
        StreamEvent::ToolUse(t) => assert_eq!(t.input_json, "{}"),
        _ => panic!("expected a tool use"),
    }
}

#[test]
fn non_data_and_malformed_lines_are_skipped() {
    let mut d = AnthropicAccum::new();
    assert!(d.decode_line("event: ping").is_empty());
    assert!(d.decode_line("").is_empty());
    assert!(d.decode_line("data: {not valid json").is_empty());
    let evs = d.decode_line(
        "data: {\"type\":\"content_block_delta\",\"delta\":{\"type\":\"text_delta\",\"text\":\"ok\"}}",
    );
    assert_eq!(evs.len(), 1);
}

#[test]
fn lines_after_done_are_ignored() {
    let mut d = AnthropicAccum::new();
    d.decode_line("data: [DONE]");
    let evs = d.decode_line(
        "data: {\"type\":\"content_block_delta\",\"delta\":{\"type\":\"text_delta\",\"text\":\"late\"}}",
    );
    assert!(evs.is_empty());
}

#[test]
fn model_aliases_remap_under_oauth() {
    assert_eq!(map_model_for_oauth("opus-4-5"), "sonnet-3-5-20241022");
    assert_eq!(map_model_for_oauth("opus-4-5-latest"), "sonnet-3-5-20241022");
    assert_eq!(map_model_for_oauth("sonnet-4-5"), "sonnet-3-5-20241022");
    assert_eq!(map_model_for_oauth("sonnet-4-5-latest"), "sonnet-3-5-20241022");
    assert_eq!(map_model_for_oauth("haiku-4-5"), "haiku-3-5-20241022");
    assert_eq!(map_model_for_oauth("haiku-4-5-latest"), "haiku-3-5-20241022");
    assert_eq!(map_model_for_oauth("sonnet-3-5-20241022"), "sonnet-3-5-20241022");
    assert_eq!(map_model_for_oauth("anything-else"), "anything-else");
}

#[test]
fn token_usability_follows_expiry() {
    assert!(oauth_token_usable(1000, 999));
    assert!(oauth_token_usable(1000, 1000));
    assert!(!oauth_token_usable(1000, 1001));
}

#[test]
fn client_holds_supplied_token() {
    let c = AnthropicClient::new(Some("SECRET-REDACTED".to_string()));
    assert_eq!(c.access_token.as_deref(), Some("SECRET-REDACTED"));
    let none = AnthropicClient::new(None);
    assert!(none.access_token.is_none());
}

#[test]
fn api_check_outcomes() {
    let missing = ApiCheckResult::missing_token();
    assert!(!missing.auth_ok && !missing.streaming_ok && !missing.tools_ok);
    assert_eq!(missing.error.as_deref(), Some("OAuth token not found or expired"));

    let failed = ApiCheckResult::auth_failed(Some("connection refused".to_string()));
    assert!(!failed.auth_ok);
    assert_eq!(failed.error.as_deref(), Some("connection refused"));

    let failed_plain = ApiCheckResult::auth_failed(None);
    assert_eq!(failed_plain.error.as_deref(), Some("Auth failed"));

    let ok = ApiCheckResult::after_auth(true, false);
    assert!(ok.auth_ok && ok.streaming_ok && !ok.tools_ok);
    assert!(ok.error.is_none());
}
