//! Constants of the MCP command-line client.
use vstd::prelude::*;

verus! {

/// Default model name.
pub const DEFAULT_MODEL: &'static str = "llama2";

/// Exit code of a successful run.
pub const EXIT_SUCCESS: i32 = 0;

/// Exit code of a failed run.
pub const EXIT_ERROR: i32 = 1;

} // verus!
