use vstd::prelude::*;

use crate::text::{lowercase, str_eq, to_lowercase};

verus! {

/// A direction to move the focus or a window in.
#[derive(Debug, Clone, Copy, PartialEq, Eq, Structural)]
pub enum Movement {
    Left,
    Right,
    Up,
    Down,
}

/// The direction that a lowercase word stands for.
pub open spec fn movement_named(name: Seq<char>) -> Option<Movement> {
    if name == "left"@ {
        Some(Movement::Left)
    } else if name == "right"@ {
        Some(Movement::Right)
    } else if name == "up"@ {
        Some(Movement::Up)
    } else if name == "down"@ {
        Some(Movement::Down)
    } else {
        None
    }
}

/// The message of a refused direction.
pub open spec fn invalid_movement_message(value: Seq<char>) -> Seq<char> {
    value + " is not a valid movement"@
}

impl Movement {
    /// The direction of an already lowercased word.
    pub fn from_lowercase(name: &str) -> (r: Option<Movement>)
        ensures
            r == movement_named(name@),
    {
        if str_eq(name, "left") {
            Some(Movement::Left)
        } else if str_eq(name, "right") {
            Some(Movement::Right)
        } else if str_eq(name, "up") {
            Some(Movement::Up)
        } else if str_eq(name, "down") {
            Some(Movement::Down)
        } else {
            None
        }
    }

    /// Parses a direction, ignoring case.
    pub fn try_from(value: &str) -> (r: Result<Movement, String>)
        ensures
            match movement_named(lowercase(value@)) {
                Some(m) => r == Ok::<Movement, String>(m),
                None => r is Err && r->Err_0@ == invalid_movement_message(value@),
            },
    {
        let lower = to_lowercase(value);
        match Movement::from_lowercase(lower.as_str()) {
            Some(m) => Ok(m),
            None => {
                let mut msg = String::from_str(value);
                msg.append(" is not a valid movement");
                Err(msg)
            },
        }
    }
}

} // verus!
