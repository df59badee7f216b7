//! The transitions of the generation-review loop. Each handler mutates the
//! session state and reports what the surrounding loop must do next; the
//! surrounding application performs the I/O the decision calls for and
//! feeds the result back in.

use crate::constants::{
    DEFAULT_CONTEXT, DIFF_SIZE_MAXIMUM_BYTES, DIFF_SIZE_WARNING_BYTES, LESS_CONTEXT,
    MAX_AUTO_REROLLS, MAX_LINE_LENGTH,
};
use crate::context::{AppContext, ModelChoice};
use crate::text::{
    any_line_longer_than, contains_ci, first_line, has_long_line, has_sub, lines_of,
    lower_char_exec, lower_seq, trim, trim_spec,
};
use vstd::prelude::*;

verus! {

/// What the length gate decided for the current text.
#[derive(Clone, Copy, Debug, PartialEq, Eq, Structural)]
pub enum GateOutcome {
    /// The text was edited by hand; no gating applies.
    Skipped,
    /// Every line fits the limit.
    Clean,
    /// A line exceeds the limit; a regeneration was scheduled.
    Retry,
    /// A line exceeds the limit but the retry budget is spent; the
    /// violation is final and the loop falls through to the user.
    FinalViolation,
}

/// One keystroke choice of the review menu.
#[derive(Clone, Copy, Debug, PartialEq, Eq, Structural)]
pub enum MenuChoice {
    Accept,
    Decline,
    Reroll,
    ToggleShort,
    ToggleLong,
    Edit,
    ExtraContext,
}

/// What the loop must do after a transition handler ran.
#[derive(Clone, Copy, Debug, PartialEq, Eq, Structural)]
pub enum SessionStep {
    /// Terminal: stage if needed and commit the current text.
    Commit,
    /// Terminal: leave without committing, with a non-zero exit.
    Abort,
    /// Obtain revised message text from the user, then apply it.
    NeedEditedText,
    /// Obtain a new extra-context line from the user, then apply it.
    NeedExtraContext,
    /// Nothing more to do this iteration; run the loop again.
    Continue,
}

impl AppContext {
    /// Pick the model for the coming attempt: any retry, automatic or
    /// manual, escalates to the stronger model.
    pub fn select_model_for_attempt(&mut self)
        ensures
            *final(self) == (AppContext {
                model: final(self).model,
                ..*old(self)
            }),
            final(self).model == if old(self).manual_reroll_count > 0
                || old(self).auto_reroll_count > 0 {
                ModelChoice::Smart
            } else {
                old(self).model
            },
    {
        if self.manual_reroll_count > 0 || self.auto_reroll_count > 0 {
            self.model = ModelChoice::Smart;
        }
    }

    /// Take in the outcome of one generation attempt. A produced text
    /// replaces the current one unless it is blank; a failed or skipped
    /// attempt leaves the text alone. Whatever happened, the one-shot
    /// escalation is spent, the model falls back to the fast one, and the
    /// next iteration regenerates by default.
    ///
    /// Returns whether the candidate text was replaced.
    pub fn absorb_generation(&mut self, outcome: Option<String>) -> (replaced: bool)
        ensures
            *final(self) == (AppContext {
                commit_description: final(self).commit_description,
                user_edited: final(self).user_edited,
                model: ModelChoice::Fast,
                regenerate: true,
                think_hard: false,
                ..*old(self)
            }),
            match outcome {
                Some(desc) => {
                    if trim_spec(desc@).len() == 0 {
                        &&& !replaced
                        &&& final(self).commit_description == old(self).commit_description
                        &&& final(self).user_edited == old(self).user_edited
                    } else {
                        &&& replaced
                        &&& final(self).commit_description == desc
                        &&& final(self).user_edited == false
                    }
                },
                None => {
                    &&& !replaced
                    &&& final(self).commit_description == old(self).commit_description
                    &&& final(self).user_edited == old(self).user_edited
                },
            },
    {
        let mut replaced = false;
        match outcome {
            Some(desc) => {
                let t = trim(desc.as_str());
                if t.as_str().unicode_len() == 0 {
                    // blank generation: keep the previous text
                } else {
                    self.commit_description = desc;
                    self.user_edited = false;
                    replaced = true;
                }
            },
            None => {},
        }
        self.model = ModelChoice::Fast;
        self.regenerate = true;
        self.think_hard = false;
        replaced
    }

    /// The local validation gate. A hand-edited text is never gated. An
    /// over-long line schedules one automatic regeneration and escalates,
    /// until the retry budget is spent; then the violation is final and
    /// the loop falls through to the user. A fully clean pass resets the
    /// budget.
    pub fn length_gate(&mut self) -> (g: GateOutcome)
        ensures
            *final(self) == (AppContext {
                think_hard: final(self).think_hard,
                regenerate: final(self).regenerate,
                auto_reroll_count: final(self).auto_reroll_count,
                ..*old(self)
            }),
            old(self).user_edited ==> g == GateOutcome::Skipped && *final(self) == *old(self),
            !old(self).user_edited && !has_long_line(
                old(self).commit_description@,
                MAX_LINE_LENGTH as nat,
            ) ==> {
                &&& g == GateOutcome::Clean
                &&& *final(self) == (AppContext { auto_reroll_count: 0, ..*old(self) })
            },
            !old(self).user_edited && has_long_line(
                old(self).commit_description@,
                MAX_LINE_LENGTH as nat,
            ) && old(self).auto_reroll_count < MAX_AUTO_REROLLS ==> {
                &&& g == GateOutcome::Retry
                &&& *final(self) == (AppContext {
                    auto_reroll_count: (old(self).auto_reroll_count + 1) as u64,
                    think_hard: true,
                    regenerate: true,
                    ..*old(self)
                })
            },
            !old(self).user_edited && has_long_line(
                old(self).commit_description@,
                MAX_LINE_LENGTH as nat,
            ) && old(self).auto_reroll_count >= MAX_AUTO_REROLLS ==> {
                &&& g == GateOutcome::FinalViolation
                &&& *final(self) == (AppContext { auto_reroll_count: 0, ..*old(self) })
            },
            old(self).auto_reroll_count >= MAX_AUTO_REROLLS ==> g != GateOutcome::Retry,
    {
        if self.user_edited {
            return GateOutcome::Skipped;
        }
        if any_line_longer_than(self.commit_description.as_str(), MAX_LINE_LENGTH) {
            if self.auto_reroll_count >= MAX_AUTO_REROLLS {
                self.auto_reroll_count = 0;
                return GateOutcome::FinalViolation;
            }
            self.auto_reroll_count = self.auto_reroll_count + 1;
            self.think_hard = true;
            self.regenerate = true;
            return GateOutcome::Retry;
        }
        self.auto_reroll_count = 0;
        GateOutcome::Clean
    }

    /// React to one menu choice. Choices that need further input from the
    /// user return a request for it; the loop obtains the text and calls
    /// [`AppContext::apply_edit`] or [`AppContext::apply_extra_context`].
    pub fn apply_choice(&mut self, choice: MenuChoice) -> (step: SessionStep)
        ensures
            choice == MenuChoice::Accept ==> step == SessionStep::Commit
                && *final(self) == *old(self),
            choice == MenuChoice::Decline ==> step == SessionStep::Abort
                && *final(self) == *old(self),
            choice == MenuChoice::Reroll ==> {
                &&& step == SessionStep::Continue
                &&& *final(self) == (AppContext {
                    think_hard: true,
                    regenerate: true,
                    manual_reroll_count: final(self).manual_reroll_count,
                    ..*old(self)
                })
                &&& final(self).manual_reroll_count == if old(self).manual_reroll_count
                    == u64::MAX {
                    u64::MAX as u64
                } else {
                    (old(self).manual_reroll_count + 1) as u64
                }
            },
            choice == MenuChoice::ToggleShort ==> {
                &&& step == SessionStep::Continue
                &&& *final(self) == (AppContext {
                    multi_line: false,
                    commit_description: final(self).commit_description,
                    regenerate: false,
                    manual_reroll_count: 0,
                    ..*old(self)
                })
                &&& final(self).commit_description@ == lines_of(
                    old(self).commit_description@,
                )[0]
            },
            choice == MenuChoice::ToggleLong ==> {
                &&& step == SessionStep::Continue
                &&& *final(self) == (AppContext {
                    multi_line: true,
                    think_hard: true,
                    regenerate: true,
                    ..*old(self)
                })
            },
            choice == MenuChoice::Edit ==> step == SessionStep::NeedEditedText && *final(self)
                == *old(self),
            choice == MenuChoice::ExtraContext ==> step == SessionStep::NeedExtraContext
                && *final(self) == *old(self),
    {
        match choice {
            MenuChoice::Accept => SessionStep::Commit,
            MenuChoice::Decline => SessionStep::Abort,
            MenuChoice::Reroll => {
                self.think_hard = true;
                self.regenerate = true;
                if self.manual_reroll_count < u64::MAX {
                    self.manual_reroll_count = self.manual_reroll_count + 1;
                }
                SessionStep::Continue
            },
            MenuChoice::ToggleShort => {
                self.multi_line = false;
                self.commit_description = first_line(self.commit_description.as_str());
                self.regenerate = false;
                self.manual_reroll_count = 0;
                SessionStep::Continue
            },
            MenuChoice::ToggleLong => {
                self.multi_line = true;
                self.think_hard = true;
                self.regenerate = true;
                SessionStep::Continue
            },
            MenuChoice::Edit => SessionStep::NeedEditedText,
            MenuChoice::ExtraContext => SessionStep::NeedExtraContext,
        }
    }

    /// Take in the text the user's editor returned. A blank result is a
    /// cancellation and aborts the whole run without committing; anything
    /// else becomes the message, marked as human-authored, with no
    /// regeneration and the manual-retry streak ended.
    pub fn apply_edit(&mut self, text: String) -> (step: SessionStep)
        ensures
            trim_spec(text@).len() == 0 ==> step == SessionStep::Abort
                && *final(self) == *old(self),
            trim_spec(text@).len() != 0 ==> {
                &&& step == SessionStep::Continue
                &&& *final(self) == (AppContext {
                    commit_description: final(self).commit_description,
                    user_edited: true,
                    regenerate: false,
                    manual_reroll_count: 0,
                    ..*old(self)
                })
                &&& final(self).commit_description@ == trim_spec(text@)
            },
    {
        let t = trim(text.as_str());
        if t.as_str().unicode_len() == 0 {
            return SessionStep::Abort;
        }
        self.commit_description = t;
        self.user_edited = true;
        self.regenerate = false;
        self.manual_reroll_count = 0;
        SessionStep::Continue
    }

    /// Take in a new extra-context line. An unchanged line ends the
    /// manual-retry streak and regenerates nothing; a changed line is
    /// stored and schedules a regeneration.
    pub fn apply_extra_context(&mut self, text: String) -> (step: SessionStep)
        ensures
            step == SessionStep::Continue,
            trim_spec(text@) == old(self).prompt_extra@ ==> *final(self) == (AppContext {
                regenerate: false,
                manual_reroll_count: 0,
                ..*old(self)
            }),
            trim_spec(text@) != old(self).prompt_extra@ ==> {
                &&& *final(self) == (AppContext {
                    prompt_extra: final(self).prompt_extra,
                    regenerate: true,
                    manual_reroll_count: 0,
                    ..*old(self)
                })
                &&& final(self).prompt_extra@ == trim_spec(text@)
            },
    {
        let t = trim(text.as_str());
        let unchanged = crate::text::str_eq(t.as_str(), self.prompt_extra.as_str());
        self.manual_reroll_count = 0;
        if unchanged {
            self.regenerate = false;
        } else {
            self.prompt_extra = t;
            self.regenerate = true;
        }
        SessionStep::Continue
    }
}

/// The advisory warning on the message mentioning the backend by name,
/// in any casing.
pub fn mentions_backend(text: &str) -> (r: bool)
    ensures
        r == has_sub(lower_seq(text@), "llm"@),
{
    proof {
        reveal_strlit("llm");
    }
    contains_ci(text, "llm")
}

/// What to do with a diff of the given size: use it, retry with less
/// context, refuse it, or warn and ask the user.
#[derive(Clone, Copy, Debug, PartialEq, Eq, Structural)]
pub enum DiffDecision {
    Use,
    RetryLessContext,
    TooLarge,
    WarnAndConfirm,
}

/// Decide what to do with a diff of `diff_len` bytes obtained with
/// `context_lines` lines of context.
pub fn diff_size_decision(diff_len: usize, context_lines: u32) -> (d: DiffDecision)
    ensures
        diff_len <= DIFF_SIZE_WARNING_BYTES ==> d == DiffDecision::Use,
        diff_len > DIFF_SIZE_WARNING_BYTES && context_lines == DEFAULT_CONTEXT ==> d
            == DiffDecision::RetryLessContext,
        diff_len > DIFF_SIZE_WARNING_BYTES && context_lines != DEFAULT_CONTEXT && diff_len
            > DIFF_SIZE_MAXIMUM_BYTES ==> d == DiffDecision::TooLarge,
        diff_len > DIFF_SIZE_WARNING_BYTES && context_lines != DEFAULT_CONTEXT && diff_len
            <= DIFF_SIZE_MAXIMUM_BYTES ==> d == DiffDecision::WarnAndConfirm,
{
    if diff_len <= DIFF_SIZE_WARNING_BYTES {
        DiffDecision::Use
    } else if context_lines == DEFAULT_CONTEXT {
        DiffDecision::RetryLessContext
    } else if diff_len > DIFF_SIZE_MAXIMUM_BYTES {
        DiffDecision::TooLarge
    } else {
        DiffDecision::WarnAndConfirm
    }
}

/// The reduced context to retry with.
pub fn reduced_context() -> (r: u32)
    ensures
        r == LESS_CONTEXT,
{
    LESS_CONTEXT
}

/// The menu line offered to the user, depending on the current format
/// mode.
pub fn menu_label(multi_line: bool) -> (r: String)
    ensures
        multi_line ==> r@ == "[Y]ES/[n]o/[r]eroll/[s]hort/[e]dit/[p]rompt"@,
        !multi_line ==> r@ == "[Y]ES/[n]o/[r]eroll/[l]ong/[e]dit/[p]rompt"@,
{
    if multi_line {
        String::from_str("[Y]ES/[n]o/[r]eroll/[s]hort/[e]dit/[p]rompt")
    } else {
        String::from_str("[Y]ES/[n]o/[r]eroll/[l]ong/[e]dit/[p]rompt")
    }
}

/// Map one pressed key to a menu choice, if the key is on the menu in the
/// current mode. The comparison is case-insensitive; the format toggle
/// offered depends on the mode.
pub fn menu_choice_for_key(key: char, multi_line: bool) -> (r: Option<MenuChoice>)
    ensures
        r == menu_choice_for_key_spec(crate::text::lower_char(key), multi_line),
{
    let k = lower_char_exec(key);
    if k == 'y' {
        Some(MenuChoice::Accept)
    } else if k == 'n' {
        Some(MenuChoice::Decline)
    } else if k == 'r' {
        Some(MenuChoice::Reroll)
    } else if k == 's' && multi_line {
        Some(MenuChoice::ToggleShort)
    } else if k == 'l' && !multi_line {
        Some(MenuChoice::ToggleLong)
    } else if k == 'e' {
        Some(MenuChoice::Edit)
    } else if k == 'p' {
        Some(MenuChoice::ExtraContext)
    } else {
        None
    }
}

/// The menu mapping on an already lower-cased key.
pub open spec fn menu_choice_for_key_spec(k: char, multi_line: bool) -> Option<MenuChoice> {
    if k == 'y' {
        Some(MenuChoice::Accept)
    } else if k == 'n' {
        Some(MenuChoice::Decline)
    } else if k == 'r' {
        Some(MenuChoice::Reroll)
    } else if k == 's' && multi_line {
        Some(MenuChoice::ToggleShort)
    } else if k == 'l' && !multi_line {
        Some(MenuChoice::ToggleLong)
    } else if k == 'e' {
        Some(MenuChoice::Edit)
    } else if k == 'p' {
        Some(MenuChoice::ExtraContext)
    } else {
        None
    }
}

} // verus!
