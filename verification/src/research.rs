//! A small practice function for debugging sessions.
use vstd::prelude::*;

use crate::text::{decimal, push_decimal};

verus! {

/// The decimal notation of an integer, with a minus sign when negative.
pub open spec fn signed_decimal(v: int) -> Seq<char> {
    if v < 0 {
        "-"@ + decimal((-v) as nat)
    } else {
        decimal(v as nat)
    }
}

/// The sum of `x` and `y` taken as an `i32`, in decimal notation.
pub fn somefunc(x: i32, y: u64) -> (r: String)
    requires
        i32::MIN <= x + (y as i32) <= i32::MAX,
    ensures
        r@ == signed_decimal(x + (y as i32)),
{
    let result: i32 = x + y as i32;
    let mut s = String::new();
    if result < 0 {
        s.append("-");
        let magnitude: u64 = (-(result as i64)) as u64;
        push_decimal(&mut s, magnitude);
        proof {
            reveal_strlit("-");
        }
        assert(s@ =~= "-"@ + decimal(magnitude as nat));
    } else {
        push_decimal(&mut s, result as u64);
        assert(s@ =~= decimal(result as nat));
    }
    s
}

} // verus!
