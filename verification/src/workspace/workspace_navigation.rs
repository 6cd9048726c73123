use vstd::prelude::*;

use crate::text::{lowercase, parse_single_digit, single_digit, str_eq, to_lowercase};
use crate::workspace::parse_error::ParseError;

verus! {

/// Where a workspace command goes.
#[derive(Debug, Clone, Copy, PartialEq, Eq, Structural)]
pub enum WorkspaceNavigation {
    /// The lowest workspace number not in use.
    NextFree,
    /// The next higher workspace, wrapping around to the lowest.
    Next,
    /// The next lower workspace, wrapping around to the highest.
    Previous,
    /// The workspace with this number.
    Number(u16),
}

/// The navigation that a lowercase word stands for.
pub open spec fn navigation_named(name: Seq<char>) -> Option<WorkspaceNavigation> {
    if name == "next"@ {
        Some(WorkspaceNavigation::Next)
    } else if name == "previous"@ {
        Some(WorkspaceNavigation::Previous)
    } else if name == "next_free"@ {
        Some(WorkspaceNavigation::NextFree)
    } else {
        None
    }
}

/// The message of a refused navigation argument.
pub open spec fn invalid_navigation_message(value: Seq<char>) -> Seq<char> {
    value + " is not a valid option for traversing workspaces"@
}

/// The message of a navigation argument that could not be parsed.
pub open spec fn unparsable_argument_message(value: Seq<char>) -> Seq<char> {
    "Argumet '"@ + value + "' could not be parsed"@
}

/// The message of a missing navigation argument.
pub open spec fn missing_argument_message() -> Seq<char> {
    "No argument was passed"@
}

/// What parsing a navigation argument gives, where `lower` is the argument
/// lowercased.
pub open spec fn navigation_parse(value: Seq<char>, lower: Seq<char>) -> Option<WorkspaceNavigation> {
    match single_digit(value) {
        Some(d) => Some(WorkspaceNavigation::Number(d)),
        None => navigation_named(lower),
    }
}

impl WorkspaceNavigation {
    /// The navigation of an already lowercased word.
    pub fn from_lowercase(name: &str) -> (r: Option<WorkspaceNavigation>)
        ensures
            r == navigation_named(name@),
    {
        if str_eq(name, "next") {
            Some(WorkspaceNavigation::Next)
        } else if str_eq(name, "previous") {
            Some(WorkspaceNavigation::Previous)
        } else if str_eq(name, "next_free") {
            Some(WorkspaceNavigation::NextFree)
        } else {
            None
        }
    }

    /// Parses a navigation argument: a single digit is a workspace number,
    /// otherwise one of `next`, `previous`, `next_free` in any case.
    pub fn try_from(value: &str) -> (r: Result<WorkspaceNavigation, String>)
        ensures
            match navigation_parse(value@, lowercase(value@)) {
                Some(n) => r == Ok::<WorkspaceNavigation, String>(n),
                None => r is Err && r->Err_0@ == invalid_navigation_message(value@),
            },
    {
        if let Some(d) = parse_single_digit(value) {
            return Ok(WorkspaceNavigation::Number(d));
        }
        let lower = to_lowercase(value);
        match WorkspaceNavigation::from_lowercase(lower.as_str()) {
            Some(n) => Ok(n),
            None => {
                let mut msg = String::from_str(value);
                msg.append(" is not a valid option for traversing workspaces");
                Err(msg)
            },
        }
    }

    /// Parses the optional argument of a workspace command.
    pub fn parse_workspace_navigation(args_option: Option<String>) -> (r: Result<
        WorkspaceNavigation,
        ParseError,
    >)
        ensures
            match args_option {
                None => r is Err && r->Err_0.details() == missing_argument_message(),
                Some(a) => match navigation_parse(a@, lowercase(a@)) {
                    Some(n) => r is Ok && r->Ok_0 == n,
                    None => r is Err && r->Err_0.details() == unparsable_argument_message(a@),
                },
            },
    {
        if let Some(args) = args_option {
            match WorkspaceNavigation::try_from(args.as_str()) {
                Ok(arg) => Ok(arg),
                Err(_) => {
                    let mut msg = String::from_str("Argumet '");
                    msg.append(args.as_str());
                    msg.append("' could not be parsed");
                    Err(ParseError::new(msg))
                },
            }
        } else {
            Err(ParseError::new(String::from_str("No argument was passed")))
        }
    }

    /// Whether going to this target creates the workspace when it is missing.
    pub open spec fn is_create_if_not_exists_spec(&self) -> bool {
        *self is NextFree || *self is Number
    }

    /// Whether going to this target creates the workspace when it is missing.
    pub fn is_create_if_not_exists(&self) -> (r: bool)
        ensures
            r == self.is_create_if_not_exists_spec(),
    {
        match self {
            WorkspaceNavigation::NextFree => true,
            WorkspaceNavigation::Number(_) => true,
            _ => false,
        }
    }
}

} // verus!
