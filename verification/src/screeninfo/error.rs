use vstd::prelude::*;

verus! {

/// Why a window or the focus could not be moved between workspaces.
#[derive(Debug)]
pub struct MoveError {
    reason: String,
}

impl MoveError {
    /// An error with the given reason.
    pub fn new(reason: String) -> (r: MoveError)
        ensures
            r.reason() == reason@,
    {
        MoveError { reason }
    }

    /// The reason of the error.
    pub closed spec fn reason(&self) -> Seq<char> {
        self.reason@
    }

    /// The text the error is shown as.
    pub fn message(&self) -> (r: String)
        ensures
            r@ == "MoveError: "@ + self.reason(),
    {
        let mut s = String::from_str("MoveError: ");
        s.append(self.reason.as_str());
        s
    }
}

/// Why a workspace could not be closed.
#[derive(Debug)]
pub struct QuitError {
    reason: String,
}

impl QuitError {
    /// An error with the given reason.
    pub fn new(reason: String) -> (r: QuitError)
        ensures
            r.reason() == reason@,
    {
        QuitError { reason }
    }

    /// The reason of the error.
    pub closed spec fn reason(&self) -> Seq<char> {
        self.reason@
    }

    /// The text the error is shown as.
    pub fn message(&self) -> (r: String)
        ensures
            r@ == "QuitError: "@ + self.reason(),
    {
        let mut s = String::from_str("QuitError: ");
        s.append(self.reason.as_str());
        s
    }
}

} // verus!
