//! Fixed numeric limits of the client, and accessor functions over the
//! configuration objects, one per configured text, mirroring how the
//! rest of the system names them.

use vstd::prelude::*;
use vstd::string::StrSliceExecFns;

use crate::config::{IconsConfig, PromptsConfig, UiConfig};

verus! {

/// Maximum tokens for a main response.
pub const MAX_RESPONSE_TOKENS: u32 = 4096;

/// Maximum tokens for a summarization response.
pub const MAX_TLDR_TOKENS: u32 = 100;

/// Deprecation timer for glob panels, in milliseconds.
pub const GLOB_DEPRECATION_MS: u64 = 30000;

/// Deprecation timer for grep panels, in milliseconds.
pub const GREP_DEPRECATION_MS: u64 = 30000;

/// Deprecation timer for terminal panes, in milliseconds.
pub const TMUX_DEPRECATION_MS: u64 = 1000;

/// Refresh interval for git status, in milliseconds.
pub const GIT_STATUS_REFRESH_MS: u64 = 5000;

/// Maximum number of retries for API errors.
pub const MAX_API_RETRIES: u32 = 3;

/// The icon for user messages.
pub fn msg_user<'a>(icons: &'a IconsConfig) -> (r: &'a str)
    ensures
        r@ == icons.messages.user@,
{
    icons.messages.user.as_str()
}

/// The icon for assistant messages.
pub fn msg_assistant<'a>(icons: &'a IconsConfig) -> (r: &'a str)
    ensures
        r@ == icons.messages.assistant@,
{
    icons.messages.assistant.as_str()
}

/// The icon for tool-call messages.
pub fn msg_tool_call<'a>(icons: &'a IconsConfig) -> (r: &'a str)
    ensures
        r@ == icons.messages.tool_call@,
{
    icons.messages.tool_call.as_str()
}

/// The icon for tool-result messages.
pub fn msg_tool_result<'a>(icons: &'a IconsConfig) -> (r: &'a str)
    ensures
        r@ == icons.messages.tool_result@,
{
    icons.messages.tool_result.as_str()
}

/// The icon for failed tool results.
pub fn msg_error<'a>(icons: &'a IconsConfig) -> (r: &'a str)
    ensures
        r@ == icons.messages.error@,
{
    icons.messages.error.as_str()
}

/// The icon for system context sources.
pub fn ctx_system<'a>(icons: &'a IconsConfig) -> (r: &'a str)
    ensures
        r@ == icons.context.system@,
{
    icons.context.system.as_str()
}

/// The icon for conversation context sources.
pub fn ctx_conversation<'a>(icons: &'a IconsConfig) -> (r: &'a str)
    ensures
        r@ == icons.context.conversation@,
{
    icons.context.conversation.as_str()
}

/// The icon for tree context sources.
pub fn ctx_tree<'a>(icons: &'a IconsConfig) -> (r: &'a str)
    ensures
        r@ == icons.context.tree@,
{
    icons.context.tree.as_str()
}

/// The icon for todo context sources.
pub fn ctx_todo<'a>(icons: &'a IconsConfig) -> (r: &'a str)
    ensures
        r@ == icons.context.todo@,
{
    icons.context.todo.as_str()
}

/// The icon for memory context sources.
pub fn ctx_memory<'a>(icons: &'a IconsConfig) -> (r: &'a str)
    ensures
        r@ == icons.context.memory@,
{
    icons.context.memory.as_str()
}

/// The icon for overview context sources.
pub fn ctx_overview<'a>(icons: &'a IconsConfig) -> (r: &'a str)
    ensures
        r@ == icons.context.overview@,
{
    icons.context.overview.as_str()
}

/// The icon for file context sources.
pub fn ctx_file<'a>(icons: &'a IconsConfig) -> (r: &'a str)
    ensures
        r@ == icons.context.file@,
{
    icons.context.file.as_str()
}

/// The icon for glob context sources.
pub fn ctx_glob<'a>(icons: &'a IconsConfig) -> (r: &'a str)
    ensures
        r@ == icons.context.glob@,
{
    icons.context.glob.as_str()
}

/// The icon for grep context sources.
pub fn ctx_grep<'a>(icons: &'a IconsConfig) -> (r: &'a str)
    ensures
        r@ == icons.context.grep@,
{
    icons.context.grep.as_str()
}

/// The icon for tmux context sources.
pub fn ctx_tmux<'a>(icons: &'a IconsConfig) -> (r: &'a str)
    ensures
        r@ == icons.context.tmux@,
{
    icons.context.tmux.as_str()
}

/// The icon for git context sources.
pub fn ctx_git<'a>(icons: &'a IconsConfig) -> (r: &'a str)
    ensures
        r@ == icons.context.git@,
{
    icons.context.git.as_str()
}

/// The icon for scratchpad context sources.
pub fn ctx_scratchpad<'a>(icons: &'a IconsConfig) -> (r: &'a str)
    ensures
        r@ == icons.context.scratchpad@,
{
    icons.context.scratchpad.as_str()
}

/// The icon for full messages.
pub fn status_full<'a>(icons: &'a IconsConfig) -> (r: &'a str)
    ensures
        r@ == icons.status.full@,
{
    icons.status.full.as_str()
}

/// The icon for summarized messages.
pub fn status_summarized<'a>(icons: &'a IconsConfig) -> (r: &'a str)
    ensures
        r@ == icons.status.summarized@,
{
    icons.status.summarized.as_str()
}

/// The icon for deleted messages.
pub fn status_deleted<'a>(icons: &'a IconsConfig) -> (r: &'a str)
    ensures
        r@ == icons.status.deleted@,
{
    icons.status.deleted.as_str()
}

/// The icon for pending todo items.
pub fn todo_pending<'a>(icons: &'a IconsConfig) -> (r: &'a str)
    ensures
        r@ == icons.todo.pending@,
{
    icons.todo.pending.as_str()
}

/// The icon for in progress todo items.
pub fn todo_in_progress<'a>(icons: &'a IconsConfig) -> (r: &'a str)
    ensures
        r@ == icons.todo.in_progress@,
{
    icons.todo.in_progress.as_str()
}

/// The icon for done todo items.
pub fn todo_done<'a>(icons: &'a IconsConfig) -> (r: &'a str)
    ensures
        r@ == icons.todo.done@,
{
    icons.todo.done.as_str()
}

/// The description of the file tool category.
pub fn file_desc<'a>(ui: &'a UiConfig) -> (r: &'a str)
    ensures
        r@ == ui.tool_categories.file@,
{
    ui.tool_categories.file.as_str()
}

/// The description of the tree tool category.
pub fn tree_desc<'a>(ui: &'a UiConfig) -> (r: &'a str)
    ensures
        r@ == ui.tool_categories.tree@,
{
    ui.tool_categories.tree.as_str()
}

/// The description of the console tool category.
pub fn console_desc<'a>(ui: &'a UiConfig) -> (r: &'a str)
    ensures
        r@ == ui.tool_categories.console@,
{
    ui.tool_categories.console.as_str()
}

/// The description of the context tool category.
pub fn context_desc<'a>(ui: &'a UiConfig) -> (r: &'a str)
    ensures
        r@ == ui.tool_categories.context@,
{
    ui.tool_categories.context.as_str()
}

/// The description of the todo tool category.
pub fn todo_desc<'a>(ui: &'a UiConfig) -> (r: &'a str)
    ensures
        r@ == ui.tool_categories.todo@,
{
    ui.tool_categories.todo.as_str()
}

/// The description of the memory tool category.
pub fn memory_desc<'a>(ui: &'a UiConfig) -> (r: &'a str)
    ensures
        r@ == ui.tool_categories.memory@,
{
    ui.tool_categories.memory.as_str()
}

/// The description of the git tool category.
pub fn git_desc<'a>(ui: &'a UiConfig) -> (r: &'a str)
    ensures
        r@ == ui.tool_categories.git@,
{
    ui.tool_categories.git.as_str()
}

/// The description of the scratchpad tool category.
pub fn scratchpad_desc<'a>(ui: &'a UiConfig) -> (r: &'a str)
    ensures
        r@ == ui.tool_categories.scratchpad@,
{
    ui.tool_categories.scratchpad.as_str()
}

/// The identifier of the built-in seed prompt.
pub fn default_seed_id<'a>(prompts: &'a PromptsConfig) -> (r: &'a str)
    ensures
        r@ == prompts.default_seed.id@,
{
    prompts.default_seed.id.as_str()
}

/// The name of the built-in seed prompt.
pub fn default_seed_name<'a>(prompts: &'a PromptsConfig) -> (r: &'a str)
    ensures
        r@ == prompts.default_seed.name@,
{
    prompts.default_seed.name.as_str()
}

/// The description of the built-in seed prompt.
pub fn default_seed_desc<'a>(prompts: &'a PromptsConfig) -> (r: &'a str)
    ensures
        r@ == prompts.default_seed.description@,
{
    prompts.default_seed.description.as_str()
}

/// The text of the built-in seed prompt.
pub fn default_seed_content<'a>(prompts: &'a PromptsConfig) -> (r: &'a str)
    ensures
        r@ == prompts.default_seed.content@,
{
    prompts.default_seed.content.as_str()
}

/// The system prompt of a main conversation turn.
pub fn main_system<'a>(prompts: &'a PromptsConfig) -> (r: &'a str)
    ensures
        r@ == prompts.default_seed.content@,
{
    prompts.default_seed.content.as_str()
}

/// The prompt used to summarize a message.
pub fn tldr_prompt<'a>(prompts: &'a PromptsConfig) -> (r: &'a str)
    ensures
        r@ == prompts.tldr_prompt@,
{
    prompts.tldr_prompt.as_str()
}

/// The header framing a panel rendered into context.
pub fn panel_header<'a>(prompts: &'a PromptsConfig) -> (r: &'a str)
    ensures
        r@ == prompts.panel.header@,
{
    prompts.panel.header.as_str()
}

/// The timestamp line of a rendered panel.
pub fn panel_timestamp<'a>(prompts: &'a PromptsConfig) -> (r: &'a str)
    ensures
        r@ == prompts.panel.timestamp@,
{
    prompts.panel.timestamp.as_str()
}

/// The timestamp line of a never-refreshed panel.
pub fn panel_timestamp_unknown<'a>(prompts: &'a PromptsConfig) -> (r: &'a str)
    ensures
        r@ == prompts.panel.timestamp_unknown@,
{
    prompts.panel.timestamp_unknown.as_str()
}

/// The footer framing a rendered panel.
pub fn panel_footer<'a>(prompts: &'a PromptsConfig) -> (r: &'a str)
    ensures
        r@ == prompts.panel.footer@,
{
    prompts.panel.footer.as_str()
}

/// The per-message line of a panel footer.
pub fn panel_footer_msg_line<'a>(prompts: &'a PromptsConfig) -> (r: &'a str)
    ensures
        r@ == prompts.panel.footer_msg_line@,
{
    prompts.panel.footer_msg_line.as_str()
}

/// The message-list header of a panel footer.
pub fn panel_footer_msg_header<'a>(prompts: &'a PromptsConfig) -> (r: &'a str)
    ensures
        r@ == prompts.panel.footer_msg_header@,
{
    prompts.panel.footer_msg_header.as_str()
}

/// The acknowledgement line of a panel footer.
pub fn panel_footer_ack<'a>(prompts: &'a PromptsConfig) -> (r: &'a str)
    ensures
        r@ == prompts.panel.footer_ack@,
{
    prompts.panel.footer_ack.as_str()
}

/// The smallest message, in tokens, that summarization bothers with.
pub fn tldr_min_tokens(prompts: &PromptsConfig) -> (r: usize)
    ensures
        r == prompts.tldr_min_tokens,
{
    prompts.tldr_min_tokens
}

} // verus!
