//! Configuration data for prompts, icons and UI strings.  The values are
//! loaded from configuration files by the surrounding application and
//! handed in as explicit, constructed-once objects; nothing here is
//! global state.

use vstd::prelude::*;
use vstd::string::StrSliceExecFns;

use crate::strutil::str_eq;

verus! {

broadcast use vstd::string::group_string_axioms;

/// Prompt texts and summarization settings.
pub struct PromptsConfig {
    pub default_seed: DefaultSeed,
    pub tldr_prompt: String,
    pub tldr_min_tokens: usize,
    pub panel: PanelPrompts,
}

/// The built-in seed prompt.
pub struct DefaultSeed {
    pub id: String,
    pub name: String,
    pub description: String,
    pub content: String,
}

/// Texts that frame a panel when it is rendered into context.
pub struct PanelPrompts {
    pub header: String,
    pub timestamp: String,
    pub timestamp_unknown: String,
    pub footer: String,
    pub footer_msg_line: String,
    pub footer_msg_header: String,
    pub footer_ack: String,
}

/// All icon groups.
pub struct IconsConfig {
    pub messages: MessageIcons,
    pub context: ContextIcons,
    pub status: StatusIcons,
    pub todo: TodoIcons,
}

/// Icons for message roles and outcomes.
pub struct MessageIcons {
    pub user: String,
    pub assistant: String,
    pub tool_call: String,
    pub tool_result: String,
    pub error: String,
}

/// Icons for context source kinds.
pub struct ContextIcons {
    pub system: String,
    pub conversation: String,
    pub tree: String,
    pub todo: String,
    pub memory: String,
    pub overview: String,
    pub file: String,
    pub glob: String,
    pub grep: String,
    pub tmux: String,
    pub git: String,
    pub scratchpad: String,
}

/// Icons for message lifecycle status.
pub struct StatusIcons {
    pub full: String,
    pub summarized: String,
    pub deleted: String,
}

/// Icons for todo-item status.
pub struct TodoIcons {
    pub pending: String,
    pub in_progress: String,
    pub done: String,
}

/// All UI strings.
pub struct UiConfig {
    pub panels: PanelNames,
    pub tool_categories: ToolCategories,
    pub status_bar: StatusBarLabels,
    pub sidebar: SidebarLabels,
    pub commands: Vec<(String, CommandConfig)>,
    pub panel_titles: PanelTitles,
    pub labels: CommonLabels,
}

/// Default display names of the fixed panels.
pub struct PanelNames {
    pub system: String,
    pub conversation: String,
    pub tree: String,
    pub todo: String,
    pub memory: String,
    pub overview: String,
    pub git: String,
    pub scratchpad: String,
}

/// Descriptions of the tool categories.
pub struct ToolCategories {
    pub file: String,
    pub tree: String,
    pub console: String,
    pub context: String,
    pub todo: String,
    pub memory: String,
    pub git: String,
    pub scratchpad: String,
}

/// Status-bar labels.
pub struct StatusBarLabels {
    pub streaming: String,
    pub loading_files: String,
    pub summarizing: String,
    pub loading: String,
    pub ready: String,
}

/// Sidebar labels and help lines.
pub struct SidebarLabels {
    pub context_header: String,
    pub page_indicator: String,
    pub help: SidebarHelp,
}

/// The sidebar help lines.
pub struct SidebarHelp {
    pub tab: String,
    pub arrows: String,
    pub ctrl_p: String,
    pub ctrl_q: String,
}

/// One command-palette entry.
pub struct CommandConfig {
    pub label: String,
    pub description: String,
    pub keywords: Vec<String>,
}

/// Panel titles by context kind.
pub struct PanelTitles {
    pub file: String,
    pub conversation: String,
    pub conversation_streaming: String,
    pub git: String,
    pub glob: String,
    pub grep: String,
    pub memory: String,
    pub overview: String,
    pub scratchpad: String,
    pub system: String,
    pub tmux: String,
    pub todo: String,
    pub tree: String,
}

/// Assorted shared labels.
pub struct CommonLabels {
    pub loading: String,
    pub no_content: String,
    pub no_memories: String,
    pub not_git_repo: String,
    pub branch: String,
    pub branches: String,
    pub working_tree_clean: String,
}

/// The icon for a context kind named by its identifier; `"?"` for an
/// unknown kind.
pub fn context_icon<'a>(icons: &'a ContextIcons, context_type: &str) -> (r: &'a str)
    ensures
        context_type@ == "system"@ ==> r@ == icons.system@,
        context_type@ == "conversation"@ ==> r@ == icons.conversation@,
        context_type@ == "tree"@ ==> r@ == icons.tree@,
        context_type@ == "todo"@ ==> r@ == icons.todo@,
        context_type@ == "memory"@ ==> r@ == icons.memory@,
        context_type@ == "overview"@ ==> r@ == icons.overview@,
        context_type@ == "file"@ ==> r@ == icons.file@,
        context_type@ == "glob"@ ==> r@ == icons.glob@,
        context_type@ == "grep"@ ==> r@ == icons.grep@,
        context_type@ == "tmux"@ ==> r@ == icons.tmux@,
        context_type@ == "git"@ ==> r@ == icons.git@,
        context_type@ == "scratchpad"@ ==> r@ == icons.scratchpad@,
        !(context_type@ == "system"@ || context_type@ == "conversation"@ || context_type@
            == "tree"@ || context_type@ == "todo"@ || context_type@ == "memory"@ || context_type@
            == "overview"@ || context_type@ == "file"@ || context_type@ == "glob"@ || context_type@
            == "grep"@ || context_type@ == "tmux"@ || context_type@ == "git"@ || context_type@
            == "scratchpad"@) ==> r@ == "?"@,
{
    proof {
        reveal_strlit("system");
        reveal_strlit("conversation");
        reveal_strlit("tree");
        reveal_strlit("todo");
        reveal_strlit("memory");
        reveal_strlit("overview");
        reveal_strlit("file");
        reveal_strlit("glob");
        reveal_strlit("grep");
        reveal_strlit("tmux");
        reveal_strlit("git");
        reveal_strlit("scratchpad");
        assert("system"@.len() == 6);
        assert("conversation"@.len() == 12);
        assert("tree"@.len() == 4);
        assert("todo"@.len() == 4);
        assert("memory"@.len() == 6);
        assert("overview"@.len() == 8);
        assert("file"@.len() == 4);
        assert("glob"@.len() == 4);
        assert("grep"@.len() == 4);
        assert("tmux"@.len() == 4);
        assert("git"@.len() == 3);
        assert("scratchpad"@.len() == 10);
        assert("system"@[0] == 's' && "memory"@[0] == 'm');
        assert("tree"@[0] == 't' && "tree"@[1] == 'r');
        assert("todo"@[0] == 't' && "todo"@[1] == 'o');
        assert("tmux"@[0] == 't' && "tmux"@[1] == 'm');
        assert("file"@[0] == 'f');
        assert("glob"@[0] == 'g' && "glob"@[1] == 'l');
        assert("grep"@[0] == 'g' && "grep"@[1] == 'r');
    }
    if str_eq(context_type, "system") {
        icons.system.as_str()
    } else if str_eq(context_type, "conversation") {
        icons.conversation.as_str()
    } else if str_eq(context_type, "tree") {
        icons.tree.as_str()
    } else if str_eq(context_type, "todo") {
        icons.todo.as_str()
    } else if str_eq(context_type, "memory") {
        icons.memory.as_str()
    } else if str_eq(context_type, "overview") {
        icons.overview.as_str()
    } else if str_eq(context_type, "file") {
        icons.file.as_str()
    } else if str_eq(context_type, "glob") {
        icons.glob.as_str()
    } else if str_eq(context_type, "grep") {
        icons.grep.as_str()
    } else if str_eq(context_type, "tmux") {
        icons.tmux.as_str()
    } else if str_eq(context_type, "git") {
        icons.git.as_str()
    } else if str_eq(context_type, "scratchpad") {
        icons.scratchpad.as_str()
    } else {
        "?"
    }
}

/// The default panel name for a context kind named by its identifier;
/// `"Unknown"` for an unknown kind.
pub fn panel_name<'a>(panels: &'a PanelNames, context_type: &str) -> (r: &'a str)
    ensures
        context_type@ == "system"@ ==> r@ == panels.system@,
        context_type@ == "conversation"@ ==> r@ == panels.conversation@,
        context_type@ == "tree"@ ==> r@ == panels.tree@,
        context_type@ == "todo"@ ==> r@ == panels.todo@,
        context_type@ == "memory"@ ==> r@ == panels.memory@,
        context_type@ == "overview"@ ==> r@ == panels.overview@,
        context_type@ == "git"@ ==> r@ == panels.git@,
        context_type@ == "scratchpad"@ ==> r@ == panels.scratchpad@,
        !(context_type@ == "system"@ || context_type@ == "conversation"@ || context_type@
            == "tree"@ || context_type@ == "todo"@ || context_type@ == "memory"@ || context_type@
            == "overview"@ || context_type@ == "git"@ || context_type@ == "scratchpad"@) ==> r@
            == "Unknown"@,
{
    proof {
        reveal_strlit("system");
        reveal_strlit("conversation");
        reveal_strlit("tree");
        reveal_strlit("todo");
        reveal_strlit("memory");
        reveal_strlit("overview");
        reveal_strlit("git");
        reveal_strlit("scratchpad");
        assert("system"@.len() == 6);
        assert("conversation"@.len() == 12);
        assert("tree"@.len() == 4);
        assert("todo"@.len() == 4);
        assert("memory"@.len() == 6);
        assert("overview"@.len() == 8);
        assert("git"@.len() == 3);
        assert("scratchpad"@.len() == 10);
        assert("system"@[0] == 's' && "memory"@[0] == 'm');
        assert("tree"@[0] == 't' && "tree"@[1] == 'r');
        assert("todo"@[0] == 't' && "todo"@[1] == 'o');
    }
    if str_eq(context_type, "system") {
        panels.system.as_str()
    } else if str_eq(context_type, "conversation") {
        panels.conversation.as_str()
    } else if str_eq(context_type, "tree") {
        panels.tree.as_str()
    } else if str_eq(context_type, "todo") {
        panels.todo.as_str()
    } else if str_eq(context_type, "memory") {
        panels.memory.as_str()
    } else if str_eq(context_type, "overview") {
        panels.overview.as_str()
    } else if str_eq(context_type, "git") {
        panels.git.as_str()
    } else if str_eq(context_type, "scratchpad") {
        panels.scratchpad.as_str()
    } else {
        "Unknown"
    }
}

} // verus!
