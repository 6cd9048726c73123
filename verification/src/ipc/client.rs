//! The events that the client commands of the IPC library send.
use vstd::prelude::*;

use crate::ipc::action_event::WmActionEvent;
use crate::ipc::commands::{command_named, invalid_command_message, WmCommands};
use crate::text::{all_ascii, ascii_lower, decimal, lowercase, to_decimal};

verus! {

/// What sending a command named `name` with argument text `arg` hands over:
/// the event, or the message of the refused name.
pub open spec fn sent_event_spec(r: Result<WmActionEvent, String>, name: Seq<char>, arg: Seq<char>) -> bool {
    match command_named(lowercase(name)) {
        Some(c) => r is Ok && r->Ok_0.command == c && r->Ok_0.args is Some
            && r->Ok_0.args->Some_0@ == arg,
        None => r is Err && r->Err_0@ == invalid_command_message(name),
    }
}

/// The event that asks the window manager to go to workspace `index`.
pub fn switch_workspace(index: usize) -> (r: Result<WmActionEvent, String>)
    ensures
        sent_event_spec(r, "gotoworkspace"@, decimal(index as nat)),
        r is Ok && r->Ok_0.command == WmCommands::GoToWorkspace,
{
    let r = WmActionEvent::new("gotoworkspace", Some(to_decimal(index as u64)));
    proof {
        lemma_go_to_name();
    }
    r
}

/// The event that asks the window manager to go to the next workspace.
pub fn next_workspace() -> (r: Result<WmActionEvent, String>)
    ensures
        sent_event_spec(r, "gotoworkspace"@, "next"@),
        r is Ok && r->Ok_0.command == WmCommands::GoToWorkspace,
{
    let r = WmActionEvent::new("gotoworkspace", Some(String::from_str("next")));
    proof {
        lemma_go_to_name();
    }
    r
}

/// The name `gotoworkspace` is ASCII and already lowercase.
proof fn lemma_go_to_name()
    ensures
        all_ascii("gotoworkspace"@),
        "gotoworkspace"@.map_values(|c: char| ascii_lower(c)) == "gotoworkspace"@,
        command_named("gotoworkspace"@) == Some(WmCommands::GoToWorkspace),
{
    reveal_strlit("gotoworkspace");
    reveal_strlit("move");
    reveal_strlit("focus");
    reveal_strlit("resize");
    reveal_strlit("quit");
    reveal_strlit("kill");
    reveal_strlit("restart");
    reveal_strlit("layout");
    reveal_strlit("movetoworkspace");
    assert("gotoworkspace"@.map_values(|c: char| ascii_lower(c)) =~= "gotoworkspace"@);
}

/// The event that asks the window manager to go to the previous workspace
/// (its argument is `prev`, which the window manager's navigation parser
/// does not accept).
pub fn prev_workspace() -> (r: Result<WmActionEvent, String>)
    ensures
        sent_event_spec(r, "gotoworkspace"@, "prev"@),
        r is Ok && r->Ok_0.command == WmCommands::GoToWorkspace,
{
    let r = WmActionEvent::new("gotoworkspace", Some(String::from_str("prev")));
    proof {
        lemma_go_to_name();
    }
    r
}

} // verus!
