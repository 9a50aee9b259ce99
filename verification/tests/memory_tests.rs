use context_pilot::memory::{format_memories_for_context, MemoryImportance, MemoryItem};

fn memory(id: &str, tl_dr: &str, contents: &str, importance: MemoryImportance) -> MemoryItem {
    MemoryItem {
        id: id.to_string(),
        tl_dr: tl_dr.to_string(),
        contents: contents.to_string(),
        importance,
        labels: Vec::new(),
    }
}

#[test]
fn empty_store_renders_placeholder() {
    assert_eq!(format_memories_for_context(&Vec::new(), &Vec::new()), "No memories");
}

#[test]
fn memories_sort_by_importance_stably() {
    let memories = vec![
        memory("m1", "first low", "", MemoryImportance::Low),
        memory("m2", "urgent", "", MemoryImportance::Critical),
        memory("m3", "second low", "", MemoryImportance::Low),
        memory("m4", "soon", "", MemoryImportance::High),
    ];
    let text = format_memories_for_context(&memories, &Vec::new());
    assert_eq!(
        text,
        "[m2] urgent (critical)\n[m4] soon (high)\n[m1] first low (low)\n[m3] second low (low)",
    );
}

#[test]
fn open_memories_show_their_contents() {
    let memories = vec![
        memory("m1", "recipe", "two eggs\none cup flour", MemoryImportance::Medium),
        memory("m2", "closed note", "hidden body", MemoryImportance::Medium),
    ];
    let open = vec!["m1".to_string()];
    let text = format_memories_for_context(&memories, &open);
    assert_eq!(
        text,
        "[m1] recipe (medium)\ntwo eggs\none cup flour\n\n[m2] closed note (medium)",
    );
}

#[test]
fn labels_render_in_brackets() {
    let mut m = memory("m1", "tagged", "", MemoryImportance::High);
    m.labels = vec!["build".to_string(), "ci".to_string()];
    let text = format_memories_for_context(&vec![m], &Vec::new());
    assert_eq!(text, "[m1] tagged (high) [build, ci]");
}

#[test]
fn open_memory_without_contents_stays_closed_form() {
    let memories = vec![memory("m1", "empty body", "", MemoryImportance::Low)];
    let open = vec!["m1".to_string()];
    let text = format_memories_for_context(&memories, &open);
    assert_eq!(text, "[m1] empty body (low)");
}
