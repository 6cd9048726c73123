use vstd::prelude::*;

use crate::text::{lowercase, str_eq, to_lowercase};

verus! {

/// How the windows of a workspace are arranged.
#[derive(Debug, Clone, Copy, PartialEq, Eq, Structural)]
pub enum WorkspaceLayout {
    /// Side by side, each as high as the workspace.
    VerticalStriped,
    /// Stacked, each as wide as the workspace.
    HorizontalStriped,
    /// Columns of two windows.
    Tiled,
}

/// The layout that a lowercase name stands for.
pub open spec fn layout_named(name: Seq<char>) -> Option<WorkspaceLayout> {
    if name == "vertical"@ {
        Some(WorkspaceLayout::VerticalStriped)
    } else if name == "horizontal"@ {
        Some(WorkspaceLayout::HorizontalStriped)
    } else if name == "tiled"@ {
        Some(WorkspaceLayout::Tiled)
    } else {
        None
    }
}

/// The name a layout is reported under.
pub open spec fn layout_label(l: WorkspaceLayout) -> Seq<char> {
    match l {
        WorkspaceLayout::VerticalStriped => "vertical_striped"@,
        WorkspaceLayout::HorizontalStriped => "horizontal_striped"@,
        WorkspaceLayout::Tiled => "tiled"@,
    }
}

/// The layout that follows `l` when the layouts are cycled.
pub open spec fn next_layout_of(l: WorkspaceLayout) -> WorkspaceLayout {
    match l {
        WorkspaceLayout::HorizontalStriped => WorkspaceLayout::VerticalStriped,
        WorkspaceLayout::VerticalStriped => WorkspaceLayout::Tiled,
        WorkspaceLayout::Tiled => WorkspaceLayout::HorizontalStriped,
    }
}

/// Cycling through the layouts comes back to the first after three steps,
/// and visits every layout on the way.
pub proof fn lemma_layout_cycle(l: WorkspaceLayout)
    ensures
        next_layout_of(next_layout_of(next_layout_of(l))) == l,
        next_layout_of(l) != l,
        next_layout_of(next_layout_of(l)) != l,
{
}

/// The message of a refused layout name.
pub open spec fn invalid_layout_message(value: Seq<char>) -> Seq<char> {
    value + " is not a valid layout"@
}

impl WorkspaceLayout {
    /// The name the layout is shown under.
    pub fn to_string(&self) -> (r: String)
        ensures
            r@ == layout_label(*self),
    {
        match self {
            WorkspaceLayout::VerticalStriped => String::from_str("vertical_striped"),
            WorkspaceLayout::HorizontalStriped => String::from_str("horizontal_striped"),
            WorkspaceLayout::Tiled => String::from_str("tiled"),
        }
    }

    /// The layout of an already lowercased name.
    pub fn from_lowercase(name: &str) -> (r: Option<WorkspaceLayout>)
        ensures
            r == layout_named(name@),
    {
        if str_eq(name, "vertical") {
            Some(WorkspaceLayout::VerticalStriped)
        } else if str_eq(name, "horizontal") {
            Some(WorkspaceLayout::HorizontalStriped)
        } else if str_eq(name, "tiled") {
            Some(WorkspaceLayout::Tiled)
        } else {
            None
        }
    }

    /// Parses a layout name, ignoring case.
    pub fn try_from(value: &str) -> (r: Result<WorkspaceLayout, String>)
        ensures
            match layout_named(lowercase(value@)) {
                Some(l) => r == Ok::<WorkspaceLayout, String>(l),
                None => r is Err && r->Err_0@ == invalid_layout_message(value@),
            },
    {
        let lower = to_lowercase(value);
        match WorkspaceLayout::from_lowercase(lower.as_str()) {
            Some(l) => Ok(l),
            None => {
                let mut msg = String::from_str(value);
                msg.append(" is not a valid layout");
                Err(msg)
            },
        }
    }

    /// The layout that follows this one when the layouts are cycled.
    pub fn next(&self) -> (r: WorkspaceLayout)
        ensures
            r == next_layout_of(*self),
    {
        match self {
            WorkspaceLayout::HorizontalStriped => WorkspaceLayout::VerticalStriped,
            WorkspaceLayout::VerticalStriped => WorkspaceLayout::Tiled,
            WorkspaceLayout::Tiled => WorkspaceLayout::HorizontalStriped,
        }
    }
}

} // verus!
