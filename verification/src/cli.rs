//! The command-line options of the host process, as plain values. The
//! surrounding application parses the real argument list and hands the
//! result over in this shape.

use crate::api::ForceMethod;
use vstd::prelude::*;

verus! {

/// The flags of one run: two debugging switches and the invocation-method
/// override. The two force flags of the command line are mutually
/// exclusive and arrive folded into one choice.
#[derive(Clone, Copy, Debug)]
pub struct Cli {
    /// Print the prompt sent to the backend.
    pub debug_prompt: bool,
    /// Print the full JSON response of the backend.
    pub debug_response: bool,
    /// Forced invocation method, if any.
    pub force_method: ForceMethod,
}

} // verus!
