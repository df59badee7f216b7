//! Fixed limits and budgets of the assistant.

use vstd::prelude::*;

verus! {

/// Hard per-line length limit for commit messages, in characters.
pub const MAX_LINE_LENGTH: usize = 72;

/// Soft lower bound of the advised line length, inside the hard limit.
pub const MIN_SAFE_LINE_LENGTH: usize = 50;

/// Soft upper bound of the advised line length, inside the hard limit.
pub const MAX_SAFE_LINE_LENGTH: usize = 68;

/// How many files are listed before the remainder is summarised.
pub const MAX_FILES_TO_SHOW: usize = 10;

/// Cap on automatic regenerations triggered by the length gate.
pub const MAX_AUTO_REROLLS: u64 = 3;

/// Manual-reroll count above which the strongest reasoning directive is used.
pub const ULTRATHINK_THRESHOLD: u64 = 2;

/// Default number of context lines in the unified diff.
pub const DEFAULT_CONTEXT: u32 = 3;

/// Reduced context used when the diff is too large.
pub const LESS_CONTEXT: u32 = 1;

/// Diff size beyond which the user is warned (or context is reduced).
pub const DIFF_SIZE_WARNING_BYTES: usize = 50 * 1024;

/// Diff size beyond which the run is refused.
pub const DIFF_SIZE_MAXIMUM_BYTES: usize = 100 * 1024;

/// Wall-clock budget for one backend invocation, in seconds.
pub const BACKEND_TIMEOUT_SECS: u64 = 30;

} // verus!
