//! The session state: one value threaded through every transition of the
//! generation-review loop.

use crate::constants::DEFAULT_CONTEXT;
use vstd::prelude::*;

verus! {

/// Which backend model the next generation asks for.
#[derive(Clone, Copy, Debug, PartialEq, Eq, Structural)]
pub enum ModelChoice {
    Fast,
    Smart,
}

/// Application context holding state throughout the commit generation
/// workflow.
pub struct AppContext {
    /// The current candidate commit message.
    pub commit_description: String,
    /// Whether to generate multi-line commit messages.
    pub multi_line: bool,
    /// Number of context lines for the unified diff.
    pub context_lines: u32,
    /// One-shot request for stronger backend reasoning on the next
    /// generation.
    pub think_hard: bool,
    /// Extra user-provided context for the prompt.
    pub prompt_extra: String,
    /// Whether the next loop iteration calls the backend again.
    pub regenerate: bool,
    /// Count of automatic regenerations forced by the length gate.
    pub auto_reroll_count: u64,
    /// Count of consecutive user-requested regenerations.
    pub manual_reroll_count: u64,
    /// True once the user has edited the text by hand; a human-authored
    /// message is never auto-rejected.
    pub user_edited: bool,
    /// The model the next generation uses.
    pub model: ModelChoice,
    /// Print the prompt sent to the backend.
    pub debug_prompt: bool,
    /// Print the raw backend response.
    pub debug_response: bool,
}

impl AppContext {
    /// Create a fresh session state: fallback message in place, single-line
    /// mode, default diff context, nothing pending but a first generation.
    pub fn new(debug_prompt: bool, debug_response: bool) -> (ctx: AppContext)
        ensures
            ctx.commit_description@ == "bug fixes and/or improvements"@,
            ctx.multi_line == false,
            ctx.context_lines == DEFAULT_CONTEXT,
            ctx.think_hard == false,
            ctx.prompt_extra@ == Seq::<char>::empty(),
            ctx.regenerate == true,
            ctx.auto_reroll_count == 0,
            ctx.manual_reroll_count == 0,
            ctx.user_edited == false,
            ctx.model == ModelChoice::Fast,
            ctx.debug_prompt == debug_prompt,
            ctx.debug_response == debug_response,
    {
        AppContext {
            commit_description: String::from_str("bug fixes and/or improvements"),
            multi_line: false,
            context_lines: DEFAULT_CONTEXT,
            think_hard: false,
            prompt_extra: String::new(),
            regenerate: true,
            auto_reroll_count: 0,
            manual_reroll_count: 0,
            user_edited: false,
            model: ModelChoice::Fast,
            debug_prompt,
            debug_response,
        }
    }
}

} // verus!
