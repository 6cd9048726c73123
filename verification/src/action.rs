//! The requests that the window manager's decisions leave for the X server.
use vstd::prelude::*;

verus! {

/// One request to the X server, in the order the decisions produce them.
#[derive(Debug, Clone, Copy, PartialEq, Eq, Structural)]
pub enum XAction {
    /// Move and resize a window.
    Configure { window: u32, x: i32, y: i32, width: u32, height: u32 },
    /// Show a window.
    MapWindow { window: u32 },
    /// Hide a window.
    UnmapWindow { window: u32 },
    /// Give a window the input focus.
    Focus { window: u32 },
    /// Disconnect the client that owns a window.
    Kill { window: u32 },
    /// Ask a window to close itself (`WM_DELETE_WINDOW`).
    SoftKill { window: u32 },
    /// Hold back the requests of other clients until the next `UngrabServer`.
    GrabServer,
    /// Let the requests of other clients through again.
    UngrabServer,
}

/// A rectangle on the screen.
#[derive(Debug, Clone, Copy, PartialEq, Eq, Structural)]
pub struct Bounds {
    pub x: i32,
    pub y: i32,
    pub width: u32,
    pub height: u32,
}

/// Whether `ks` lists every element of `dom` exactly once.
pub open spec fn lists_once<K>(ks: Seq<K>, dom: Set<K>) -> bool {
    ks.no_duplicates() && ks.to_set() == dom
}

/// A request to hide each listed window, in order.
pub open spec fn unmap_all(ks: Seq<u32>) -> Seq<XAction> {
    ks.map_values(|k: u32| XAction::UnmapWindow { window: k })
}

/// The given requests with the server held for them alone.
pub open spec fn grabbed(inner: Seq<XAction>) -> Seq<XAction> {
    seq![XAction::GrabServer] + inner + seq![XAction::UngrabServer]
}

/// Hiding window `w` with the server held.
pub open spec fn hidden(w: u32) -> Seq<XAction> {
    grabbed(seq![XAction::UnmapWindow { window: w }])
}

/// For each listed window, in order, a request to hide it and one to
/// disconnect its client.
pub open spec fn unmap_and_kill_all(ks: Seq<u32>) -> Seq<XAction>
    decreases ks.len(),
{
    if ks.len() == 0 {
        Seq::empty()
    } else {
        unmap_and_kill_all(ks.drop_last()) + seq![
            XAction::UnmapWindow { window: ks.last() },
            XAction::Kill { window: ks.last() },
        ]
    }
}

} // verus!
