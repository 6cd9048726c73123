use vstd::prelude::*;

use crate::text::{lowercase, parse_single_digit, single_digit, str_eq, to_lowercase};
use crate::workspace::parse_error::ParseError;
use crate::workspace::workspace_navigation::{
    invalid_navigation_message, missing_argument_message, unparsable_argument_message,
};

verus! {

/// Where a workspace command of the earlier command set goes.
#[derive(Debug, Clone, Copy, PartialEq, Eq, Structural)]
pub enum EnumWorkspaceNavigation {
    Next,
    Previous,
    Number(u16),
}

/// What parsing an argument of the earlier command set gives, where `lower`
/// is the argument lowercased.
pub open spec fn enum_navigation_parse(value: Seq<char>, lower: Seq<char>) -> Option<
    EnumWorkspaceNavigation,
> {
    match single_digit(value) {
        Some(d) => Some(EnumWorkspaceNavigation::Number(d)),
        None => if lower == "next"@ {
            Some(EnumWorkspaceNavigation::Next)
        } else if lower == "previous"@ {
            Some(EnumWorkspaceNavigation::Previous)
        } else {
            None
        },
    }
}

impl EnumWorkspaceNavigation {
    /// Parses a single digit as a workspace number, otherwise `next` or
    /// `previous` in any case.
    pub fn try_from(value: &str) -> (r: Result<EnumWorkspaceNavigation, String>)
        ensures
            match enum_navigation_parse(value@, lowercase(value@)) {
                Some(n) => r == Ok::<EnumWorkspaceNavigation, String>(n),
                None => r is Err && r->Err_0@ == invalid_navigation_message(value@),
            },
    {
        if let Some(d) = parse_single_digit(value) {
            return Ok(EnumWorkspaceNavigation::Number(d));
        }
        let lower = to_lowercase(value);
        if str_eq(lower.as_str(), "next") {
            Ok(EnumWorkspaceNavigation::Next)
        } else if str_eq(lower.as_str(), "previous") {
            Ok(EnumWorkspaceNavigation::Previous)
        } else {
            let mut msg = String::from_str(value);
            msg.append(" is not a valid option for traversing workspaces");
            Err(msg)
        }
    }

    /// Parses the optional argument of a workspace command.
    pub fn parse_enum_workspace_navigation(args_option: Option<String>) -> (r: Result<
        EnumWorkspaceNavigation,
        ParseError,
    >)
        ensures
            match args_option {
                None => r is Err && r->Err_0.details() == missing_argument_message(),
                Some(a) => match enum_navigation_parse(a@, lowercase(a@)) {
                    Some(n) => r is Ok && r->Ok_0 == n,
                    None => r is Err && r->Err_0.details() == unparsable_argument_message(a@),
                },
            },
    {
        if let Some(args) = args_option {
            match EnumWorkspaceNavigation::try_from(args.as_str()) {
                Ok(arg) => Ok(arg),
                Err(_) => {
                    let mut msg = String::from_str("Argumet '");
                    msg.append(args.as_str());
                    msg.append("' could not be parsed");
                    Err(ParseError::new(msg))
                },
            }
        } else {
            Err(ParseError::new(String::from_str("No argument was passed")))
        }
    }
}

} // verus!
