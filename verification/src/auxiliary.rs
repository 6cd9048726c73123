//! Helpers for running the user's commands.
use vstd::prelude::*;

use crate::config::commands::texts;
use crate::keybindings::{split_words, words_of};

verus! {

/// Words joined with single spaces.
pub open spec fn join_words(ws: Seq<Seq<char>>) -> Seq<char>
    decreases ws.len(),
{
    if ws.len() == 0 {
        Seq::empty()
    } else if ws.len() == 1 {
        ws[0]
    } else {
        join_words(ws.drop_last()) + " "@ + ws.last()
    }
}

/// The program and the single argument that a user command line runs: its
/// first word, and the other words joined with single spaces. None for a
/// line without words.
pub fn user_command(args: &str) -> (r: Option<(String, String)>)
    ensures
        ({
            let ws = words_of(args@);
            match r {
                Some(p) => ws.len() > 0 && p.0@ == ws[0] && p.1@ == join_words(ws.drop_first()),
                None => ws.len() == 0,
            }
        }),
{
    let words = split_words(args);
    let ghost ws = texts(words@);
    if words.len() == 0 {
        return None;
    }
    assert(ws[0] == words@[0]@);
    let command = words[0].clone();
    let mut rest = String::new();
    let mut i: usize = 1;
    proof {
        reveal_strlit(" ");
        assert(ws.drop_first().take(0) =~= Seq::<Seq<char>>::empty());
        assert(rest@ =~= join_words(ws.drop_first().take(0)));
    }
    while i < words.len()
        invariant
            1 <= i <= words@.len(),
            ws == texts(words@),
            rest@ == join_words(ws.drop_first().take(i - 1)),
        decreases words@.len() - i,
    {
        let ghost before = ws.drop_first().take(i - 1);
        let ghost after = ws.drop_first().take(i as int);
        assert(after.drop_last() =~= before);
        assert(after.last() == words@[i as int]@);
        if i > 1 {
            rest.append(" ");
        }
        rest.append(words[i].as_str());
        proof {
            reveal_strlit(" ");
            if i == 1 {
                assert(rest@ =~= join_words(after));
            } else {
                assert(rest@ =~= join_words(after));
            }
        }
        i = i + 1;
    }
    assert(ws.drop_first().take(i - 1) =~= ws.drop_first());
    Some((command, rest))
}

} // verus!
