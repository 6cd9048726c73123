use vstd::prelude::*;

verus! {

/// The commands of the first command set, without layouts, closing
/// workspaces or full screen.
#[derive(Debug, Clone, Copy, PartialEq, Eq, Structural)]
pub enum WmCommands {
    Move,
    Focus,
    Resize,
    Quit,
    Kill,
    Restart,
    MoveToWorkspace,
    GoToWorkspace,
    MoveToWorkspaceAndFollow,
    Exec,
}

} // verus!
