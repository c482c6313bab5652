//! Command executor for TTY.
//!
//! The executable side of this type spawns a shell under the `script`
//! utility so that the probed command believes it talks to a terminal.
//! Spawning is process I/O and lives outside the verified library; only the
//! type and its default shell are defined here.

use vstd::prelude::*;

verus! {

/// Default shell to use.
pub const DEFAULT_SHELL: &'static str = "sh";

/// Command wrapper.
#[derive(Debug)]
pub struct TtyCommand;

} // verus!
