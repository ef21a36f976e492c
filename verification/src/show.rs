//! The hidden `show` command of the edge agent.

use vstd::prelude::*;

verus! {

/// The `show` command and what it is to show.
#[derive(Debug)]
pub struct ShowCli {
    pub task: ShowTaskCli,
}

/// What the `show` command does.
#[derive(Debug, Clone, Copy, PartialEq, Eq, Structural)]
pub enum ShowTaskCli {
    /// Show network interfaces.
    Interfaces,
    /// Create an empty bridge.
    CreateDummy,
    /// Copy the CAN parameters of one interface onto another.
    WriteCanParams,
}

} // verus!
