use context_pilot::config::{
    context_icon, panel_name, ContextIcons, DefaultSeed, IconsConfig, MessageIcons, PanelNames,
    PanelPrompts, PromptsConfig, StatusIcons, TodoIcons,
};
use context_pilot::constants::{
    ctx_git, ctx_tree, main_system, msg_error, msg_user, status_deleted, tldr_min_tokens,
    todo_done, MAX_RESPONSE_TOKENS,
};

fn sample_icons() -> IconsConfig {
    IconsConfig {
        messages: MessageIcons {
            user: "U".to_string(),
            assistant: "A".to_string(),
            tool_call: "C".to_string(),
            tool_result: "R".to_string(),
            error: "E".to_string(),
        },
        context: ContextIcons {
            system: "sy".to_string(),
            conversation: "co".to_string(),
            tree: "tr".to_string(),
            todo: "td".to_string(),
            memory: "me".to_string(),
            overview: "ov".to_string(),
            file: "fi".to_string(),
            glob: "gl".to_string(),
            grep: "gr".to_string(),
            tmux: "tm".to_string(),
            git: "gi".to_string(),
            scratchpad: "sc".to_string(),
        },
        status: StatusIcons {
            full: "F".to_string(),
            summarized: "S".to_string(),
            deleted: "D".to_string(),
        },
        todo: TodoIcons {
            pending: "p".to_string(),
            in_progress: "i".to_string(),
            done: "d".to_string(),
        },
    }
}

fn sample_prompts() -> PromptsConfig {
    PromptsConfig {
        default_seed: DefaultSeed {
            id: "seed".to_string(),
            name: "Seed".to_string(),
            description: "the seed".to_string(),
            content: "be helpful".to_string(),
        },
        tldr_prompt: "summarize".to_string(),
        tldr_min_tokens: 120,
        panel: PanelPrompts {
            header: "h".to_string(),
            timestamp: "t".to_string(),
            timestamp_unknown: "tu".to_string(),
            footer: "f".to_string(),
            footer_msg_line: "fl".to_string(),
            footer_msg_header: "fh".to_string(),
            footer_ack: "fa".to_string(),
        },
    }
}

#[test]
fn icon_lookup_by_context_kind() {
    let icons = sample_icons();
    assert_eq!(context_icon(&icons.context, "tree"), "tr");
    assert_eq!(context_icon(&icons.context, "todo"), "td");
    assert_eq!(context_icon(&icons.context, "tmux"), "tm");
    assert_eq!(context_icon(&icons.context, "system"), "sy");
    assert_eq!(context_icon(&icons.context, "memory"), "me");
    assert_eq!(context_icon(&icons.context, "scratchpad"), "sc");
    assert_eq!(context_icon(&icons.context, "something else"), "?");
}

#[test]
fn panel_name_lookup_by_context_kind() {
    let panels = PanelNames {
        system: "System".to_string(),
        conversation: "Chat".to_string(),
        tree: "Tree".to_string(),
        todo: "Todo".to_string(),
        memory: "Memory".to_string(),
        overview: "Overview".to_string(),
        git: "Git".to_string(),
        scratchpad: "Scratch".to_string(),
    };
    assert_eq!(panel_name(&panels, "conversation"), "Chat");
    assert_eq!(panel_name(&panels, "git"), "Git");
    assert_eq!(panel_name(&panels, "file"), "Unknown");
}

#[test]
fn accessors_read_their_fields() {
    let icons = sample_icons();
    assert_eq!(msg_user(&icons), "U");
    assert_eq!(msg_error(&icons), "E");
    assert_eq!(ctx_tree(&icons), "tr");
    assert_eq!(ctx_git(&icons), "gi");
    assert_eq!(status_deleted(&icons), "D");
    assert_eq!(todo_done(&icons), "d");
    let prompts = sample_prompts();
    assert_eq!(main_system(&prompts), "be helpful");
    assert_eq!(tldr_min_tokens(&prompts), 120);
    assert_eq!(MAX_RESPONSE_TOKENS, 4096);
}
