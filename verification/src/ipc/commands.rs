use vstd::prelude::*;

use crate::text::{all_ascii, ascii_lower, lowercase, str_eq, to_lowercase};

verus! {

/// A command that a key binding or a client can ask the window manager for.
#[derive(Debug, Clone, Copy, PartialEq, Eq, Structural)]
pub enum WmCommands {
    Move,
    Focus,
    Resize,
    Quit,
    Kill,
    Restart,
    Layout,
    MoveToWorkspace,
    GoToWorkspace,
    MoveToWorkspaceAndFollow,
    QuitWorkspace,
    Exec,
    Fullscreen,
}

/// The command that a lowercase name stands for.
pub open spec fn command_named(name: Seq<char>) -> Option<WmCommands> {
    if name == "move"@ {
        Some(WmCommands::Move)
    } else if name == "focus"@ {
        Some(WmCommands::Focus)
    } else if name == "resize"@ {
        Some(WmCommands::Resize)
    } else if name == "quit"@ {
        Some(WmCommands::Quit)
    } else if name == "kill"@ {
        Some(WmCommands::Kill)
    } else if name == "restart"@ {
        Some(WmCommands::Restart)
    } else if name == "layout"@ {
        Some(WmCommands::Layout)
    } else if name == "movetoworkspace"@ {
        Some(WmCommands::MoveToWorkspace)
    } else if name == "gotoworkspace"@ {
        Some(WmCommands::GoToWorkspace)
    } else if name == "movetoworkspaceandfollow"@ {
        Some(WmCommands::MoveToWorkspaceAndFollow)
    } else if name == "exec"@ {
        Some(WmCommands::Exec)
    } else if name == "fullscreen"@ {
        Some(WmCommands::Fullscreen)
    } else {
        None
    }
}

/// The message of a refused command name.
pub open spec fn invalid_command_message(value: Seq<char>) -> Seq<char> {
    value + " is not a valid command"@
}

impl WmCommands {
    /// The command of an already lowercased name.
    pub fn from_lowercase(name: &str) -> (r: Option<WmCommands>)
        ensures
            r == command_named(name@),
    {
        if str_eq(name, "move") {
            Some(WmCommands::Move)
        } else if str_eq(name, "focus") {
            Some(WmCommands::Focus)
        } else if str_eq(name, "resize") {
            Some(WmCommands::Resize)
        } else if str_eq(name, "quit") {
            Some(WmCommands::Quit)
        } else if str_eq(name, "kill") {
            Some(WmCommands::Kill)
        } else if str_eq(name, "restart") {
            Some(WmCommands::Restart)
        } else if str_eq(name, "layout") {
            Some(WmCommands::Layout)
        } else if str_eq(name, "movetoworkspace") {
            Some(WmCommands::MoveToWorkspace)
        } else if str_eq(name, "gotoworkspace") {
            Some(WmCommands::GoToWorkspace)
        } else if str_eq(name, "movetoworkspaceandfollow") {
            Some(WmCommands::MoveToWorkspaceAndFollow)
        } else if str_eq(name, "exec") {
            Some(WmCommands::Exec)
        } else if str_eq(name, "fullscreen") {
            Some(WmCommands::Fullscreen)
        } else {
            None
        }
    }

    /// Parses a command name, ignoring case.
    pub fn try_from(value: &str) -> (r: Result<WmCommands, String>)
        ensures
            match command_named(lowercase(value@)) {
                Some(c) => r == Ok::<WmCommands, String>(c),
                None => r is Err && r->Err_0@ == invalid_command_message(value@),
            },
            all_ascii(value@) ==> lowercase(value@) == value@.map_values(|c: char| ascii_lower(c)),
    {
        let lower = to_lowercase(value);
        match WmCommands::from_lowercase(lower.as_str()) {
            Some(c) => Ok(c),
            None => {
                let mut msg = String::from_str(value);
                msg.append(" is not a valid command");
                Err(msg)
            },
        }
    }
}

} // verus!
