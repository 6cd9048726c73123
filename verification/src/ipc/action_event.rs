use vstd::prelude::*;

use crate::ipc::commands::{command_named, invalid_command_message, WmCommands};
use crate::text::{all_ascii, ascii_lower, lowercase};

verus! {

/// A command for the window manager together with its optional argument.
#[derive(Debug, Clone)]
pub struct WmActionEvent {
    pub command: WmCommands,
    pub args: Option<String>,
}

impl WmActionEvent {
    /// Builds an event from a command name (any case) and its argument.
    pub fn new(command: &str, args: Option<String>) -> (r: Result<WmActionEvent, String>)
        ensures
            match command_named(lowercase(command@)) {
                Some(c) => r is Ok && r->Ok_0.command == c && r->Ok_0.args == args,
                None => r is Err && r->Err_0@ == invalid_command_message(command@),
            },
            all_ascii(command@) ==> lowercase(command@) == command@.map_values(
                |c: char| ascii_lower(c),
            ),
    {
        let parsed_command = match WmCommands::try_from(command) {
            Ok(parsed_command) => parsed_command,
            Err(msg) => {
                return Err(msg);
            },
        };
        Ok(WmActionEvent { command: parsed_command, args })
    }

    /// The text that the event is shown as: the command, then the argument if
    /// there is one.
    pub fn describe(&self) -> (r: String)
        ensures
            r@ == describe_event(self.command, match self.args {
                Some(a) => Some(a@),
                None => None,
            }),
    {
        let mut s = String::from_str("Command: ");
        s.append(command_label(self.command));
        match &self.args {
            Some(a) => {
                s.append(", Args: ");
                s.append(a.as_str());
            },
            None => {},
        }
        s
    }
}

/// The name of a command as the window manager shows it.
pub open spec fn command_label_spec(c: WmCommands) -> Seq<char> {
    match c {
        WmCommands::Move => "Move"@,
        WmCommands::Focus => "Focus"@,
        WmCommands::Resize => "Resize"@,
        WmCommands::Quit => "Quit"@,
        WmCommands::Kill => "Kill"@,
        WmCommands::Restart => "Restart"@,
        WmCommands::Layout => "Layout"@,
        WmCommands::MoveToWorkspace => "MoveToWorkspace"@,
        WmCommands::GoToWorkspace => "GoToWorkspace"@,
        WmCommands::MoveToWorkspaceAndFollow => "MoveToWorkspaceAndFollow"@,
        WmCommands::QuitWorkspace => "QuitWorkspace"@,
        WmCommands::Exec => "Exec"@,
        WmCommands::Fullscreen => "Fullscreen"@,
    }
}

/// The description of an event with the given command and argument text.
pub open spec fn describe_event(c: WmCommands, args: Option<Seq<char>>) -> Seq<char> {
    match args {
        Some(a) => "Command: "@ + command_label_spec(c) + ", Args: "@ + a,
        None => "Command: "@ + command_label_spec(c),
    }
}

fn command_label(c: WmCommands) -> (r: &'static str)
    ensures
        r@ == command_label_spec(c),
{
    match c {
        WmCommands::Move => "Move",
        WmCommands::Focus => "Focus",
        WmCommands::Resize => "Resize",
        WmCommands::Quit => "Quit",
        WmCommands::Kill => "Kill",
        WmCommands::Restart => "Restart",
        WmCommands::Layout => "Layout",
        WmCommands::MoveToWorkspace => "MoveToWorkspace",
        WmCommands::GoToWorkspace => "GoToWorkspace",
        WmCommands::MoveToWorkspaceAndFollow => "MoveToWorkspaceAndFollow",
        WmCommands::QuitWorkspace => "QuitWorkspace",
        WmCommands::Exec => "Exec",
        WmCommands::Fullscreen => "Fullscreen",
    }
}

} // verus!
