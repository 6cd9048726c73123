use vstd::prelude::*;

pub mod action;
pub mod auxiliary;
pub mod config;
pub mod eventhandler;
pub mod ipc;
pub mod keybindings;
pub mod logging;
pub mod research;
pub mod screeninfo;
pub mod text;
pub mod util;
pub mod windowmanager;
pub mod windowstate;
pub mod workspace;

verus! {

/// Errors of the window manager as a whole.
#[derive(Debug)]
pub enum Error {
    GrabKey(String),
    Unknown(String),
}

impl Error {
    /// The text that the error is shown as.
    pub fn message(&self) -> (r: String)
        ensures
            r@ == match self {
                Error::GrabKey(s) => "grab_key failed: "@ + s@,
                Error::Unknown(s) => "unknown: "@ + s@,
            },
    {
        match self {
            Error::GrabKey(s) => {
                let mut m = String::from_str("grab_key failed: ");
                m.append(s.as_str());
                m
            },
            Error::Unknown(s) => {
                let mut m = String::from_str("unknown: ");
                m.append(s.as_str());
                m
            },
        }
    }
}

} // verus!
