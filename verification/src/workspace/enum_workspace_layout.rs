use vstd::prelude::*;

use crate::text::{lowercase, str_eq, to_lowercase};
use crate::workspace::workspace_layout::invalid_layout_message;

verus! {

/// The striped layouts that a layout argument can name.
#[derive(Debug, Clone, Copy, PartialEq, Eq, Structural)]
pub enum EnumWorkspaceLayout {
    VerticalStriped,
    HorizontalStriped,
}

/// The striped layout that a lowercase name stands for.
pub open spec fn striped_layout_named(name: Seq<char>) -> Option<EnumWorkspaceLayout> {
    if name == "vertical"@ {
        Some(EnumWorkspaceLayout::VerticalStriped)
    } else if name == "horizontal"@ {
        Some(EnumWorkspaceLayout::HorizontalStriped)
    } else {
        None
    }
}

impl EnumWorkspaceLayout {
    /// Parses a striped layout name, ignoring case.
    pub fn try_from(value: &str) -> (r: Result<EnumWorkspaceLayout, String>)
        ensures
            match striped_layout_named(lowercase(value@)) {
                Some(l) => r == Ok::<EnumWorkspaceLayout, String>(l),
                None => r is Err && r->Err_0@ == invalid_layout_message(value@),
            },
    {
        let lower = to_lowercase(value);
        if str_eq(lower.as_str(), "vertical") {
            Ok(EnumWorkspaceLayout::VerticalStriped)
        } else if str_eq(lower.as_str(), "horizontal") {
            Ok(EnumWorkspaceLayout::HorizontalStriped)
        } else {
            let mut msg = String::from_str(value);
            msg.append(" is not a valid layout");
            Err(msg)
        }
    }
}

} // verus!
