use context_pilot::grok::{GrokAccum, GrokClient};
use context_pilot::stream::StreamEvent;

#[test]
fn chunk_then_done_stream() {
    let mut d = GrokAccum::new();
    let e1 = d.decode_line("data: {\"choices\":[{\"delta\":{\"content\":\"Hi\"}}]}");
    assert_eq!(e1.len(), 1);
    match &e1[0] {
        StreamEvent::Chunk(t) => assert_eq!(t, "Hi"),
        _ => panic!("expected a chunk"),
    }
    let e2 = d.decode_line("data: [DONE]");
    assert!(e2.is_empty());
    match d.finish() {
        StreamEvent::Done { input_tokens, output_tokens } => {
            assert_eq!(input_tokens, 0);
            assert_eq!(output_tokens, 0);
        }
        _ => panic!("expected a done event"),
    }
}

#[test]
fn two_slots_interleaved_flush_on_finish() {
    let mut d = GrokAccum::new();
    assert!(d
        .decode_line(
            "data: {\"choices\":[{\"delta\":{\"tool_calls\":[{\"index\":0,\"id\":\"c0\",\"function\":{\"name\":\"alpha\",\"arguments\":\"{\\\"a\\\":\"}}]}}]}",
        )
        .is_empty());
    assert!(d
        .decode_line(
            "data: {\"choices\":[{\"delta\":{\"tool_calls\":[{\"index\":1,\"id\":\"c1\",\"function\":{\"name\":\"beta\",\"arguments\":\"{\\\"b\\\":\"}}]}}]}",
        )
        .is_empty());
    assert!(d
        .decode_line(
            "data: {\"choices\":[{\"delta\":{\"tool_calls\":[{\"index\":0,\"function\":{\"arguments\":\"1}\"}}]}}]}",
        )
        .is_empty());
    assert!(d
        .decode_line(
            "data: {\"choices\":[{\"delta\":{\"tool_calls\":[{\"index\":1,\"function\":{\"arguments\":\"2}\"}}]}}]}",
        )
        .is_empty());
    let evs = d.decode_line("data: {\"choices\":[{\"delta\":{},\"finish_reason\":\"tool_calls\"}]}");
    assert_eq!(evs.len(), 2);
    match (&evs[0], &evs[1]) {
        (StreamEvent::ToolUse(a), StreamEvent::ToolUse(b)) => {
            assert_eq!(a.id, "c0");
            assert_eq!(a.name, "alpha");
            assert_eq!(a.input_json, "{\"a\":1}");
            assert_eq!(b.id, "c1");
            assert_eq!(b.name, "beta");
            assert_eq!(b.input_json, "{\"b\":2}");
        }
        _ => panic!("expected two tool uses"),
    }
}

#[test]
fn unflushed_slot_emits_nothing() {
    let mut d = GrokAccum::new();
    d.decode_line(
        "data: {\"choices\":[{\"delta\":{\"tool_calls\":[{\"index\":0,\"id\":\"c0\",\"function\":{\"name\":\"alpha\",\"arguments\":\"{\"}}]}}]}",
    );
    let done = d.decode_line("data: [DONE]");
    assert!(done.is_empty());
    match d.finish() {
        StreamEvent::Done { .. } => {}
        _ => panic!("expected a done event"),
    }
}

#[test]
fn slot_without_id_or_name_is_dropped_on_flush() {
    let mut d = GrokAccum::new();
    d.decode_line(
        "data: {\"choices\":[{\"delta\":{\"tool_calls\":[{\"index\":0,\"function\":{\"arguments\":\"{}\"}}]}}]}",
    );
    let evs = d.decode_line("data: {\"choices\":[{\"delta\":{},\"finish_reason\":\"stop\"}]}");
    assert!(evs.is_empty());
}

#[test]
fn malformed_slot_arguments_degrade_to_empty_object() {
    let mut d = GrokAccum::new();
    d.decode_line(
        "data: {\"choices\":[{\"delta\":{\"tool_calls\":[{\"index\":0,\"id\":\"c0\",\"function\":{\"name\":\"alpha\",\"arguments\":\"{\\\"a\\\":\"}}]}}]}",
    );
    let evs = d.decode_line("data: {\"choices\":[{\"delta\":{},\"finish_reason\":\"stop\"}]}");
    assert_eq!(evs.len(), 1);
    match &evs[0] {
        StreamEvent::ToolUse(t) => assert_eq!(t.input_json, "{}"),
        _ => panic!("expected a tool use"),
    }
}

#[test]
fn usage_figures_are_latched() {
    let mut d = GrokAccum::new();
    d.decode_line(
        "data: {\"choices\":[{\"delta\":{\"content\":\"x\"}}],\"usage\":{\"prompt_tokens\":3,\"completion_tokens\":1}}",
    );
    d.decode_line(
        "data: {\"choices\":[{\"delta\":{\"content\":\"y\"}}],\"usage\":{\"prompt_tokens\":3,\"completion_tokens\":2}}",
    );
    d.decode_line("data: [DONE]");
    match d.finish() {
        StreamEvent::Done { input_tokens, output_tokens } => {
            assert_eq!(input_tokens, 3);
            assert_eq!(output_tokens, 2);
        }
        _ => panic!("expected a done event"),
    }
}

#[test]
fn empty_content_emits_no_chunk() {
    let mut d = GrokAccum::new();
    let evs = d.decode_line("data: {\"choices\":[{\"delta\":{\"content\":\"\"}}]}");
    assert!(evs.is_empty());
}

#[test]
fn payload_without_choices_is_skipped() {
    let mut d = GrokAccum::new();
    let evs = d.decode_line("data: {\"usage\":{\"prompt_tokens\":9}}");
    assert!(evs.is_empty());
    d.decode_line("data: [DONE]");
    match d.finish() {
        StreamEvent::Done { input_tokens, .. } => assert_eq!(input_tokens, 0),
        _ => panic!("expected a done event"),
    }
}

#[test]
fn grok_client_holds_supplied_key() {
    let c = GrokClient::new(Some("SECRET-REDACTED".to_string()));
    assert_eq!(c.api_key.as_deref(), Some("SECRET-REDACTED"));
    assert!(GrokClient::new(None).api_key.is_none());
}
