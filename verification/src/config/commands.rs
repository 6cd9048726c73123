//! The key bindings of the configuration.
use vstd::prelude::*;

use crate::ipc::commands::WmCommands;
use crate::text::{replace, replace_all};

verus! {

/// The text of an optional string.
pub open spec fn opt_text(o: Option<String>) -> Option<Seq<char>> {
    match o {
        Some(s) => Some(s@),
        None => None,
    }
}

/// The texts of a list of strings.
pub open spec fn texts(v: Seq<String>) -> Seq<Seq<char>> {
    v.map_values(|s: String| s@)
}

/// One command of a key binding and its optional argument.
#[derive(Debug)]
pub struct WmCommandArgument {
    pub command: WmCommands,
    pub args: Option<String>,
}

/// A key binding: the keys to press and the commands they run.
#[derive(Debug)]
pub struct WmCommand {
    pub keys: Vec<String>,
    pub commands: Vec<WmCommandArgument>,
}

/// A key binding repeated for each value of a list: every `$VAR` in its keys
/// and arguments stands for the value.
#[derive(Debug)]
pub struct IterCmd {
    pub iter: Vec<String>,
    pub command: WmCommand,
}

/// A command and the text of its argument.
pub type ArgumentModel = (WmCommands, Option<Seq<char>>);

/// A key binding as texts.
pub struct CommandModel {
    pub keys: Seq<Seq<char>>,
    pub commands: Seq<ArgumentModel>,
}

/// A repeated key binding as texts.
pub struct IterModel {
    pub iter: Seq<Seq<char>>,
    pub command: CommandModel,
}

impl View for WmCommandArgument {
    type V = ArgumentModel;

    open spec fn view(&self) -> ArgumentModel {
        (self.command, opt_text(self.args))
    }
}

impl View for WmCommand {
    type V = CommandModel;

    open spec fn view(&self) -> CommandModel {
        CommandModel {
            keys: texts(self.keys@),
            commands: self.commands@.map_values(|a: WmCommandArgument| a@),
        }
    }
}

impl View for IterCmd {
    type V = IterModel;

    open spec fn view(&self) -> IterModel {
        IterModel { iter: texts(self.iter@), command: self.command@ }
    }
}

/// `s` with every `$VAR` replaced by `v`.
pub open spec fn subst(s: Seq<char>, v: Seq<char>) -> Seq<char> {
    replace_all(s, "$VAR"@, v)
}

/// The keys with every `$VAR` replaced by `v`.
pub open spec fn subst_keys(keys: Seq<Seq<char>>, v: Seq<char>) -> Seq<Seq<char>> {
    keys.map_values(|k: Seq<char>| subst(k, v))
}

/// The arguments with every `$VAR` replaced by `v`.
pub open spec fn subst_arguments(args: Seq<ArgumentModel>, v: Seq<char>) -> Seq<ArgumentModel> {
    args.map_values(|a: ArgumentModel| subst_argument(a, v))
}

/// The argument with every `$VAR` replaced by `v`.
pub open spec fn subst_argument(a: ArgumentModel, v: Seq<char>) -> ArgumentModel {
    (
        a.0,
        match a.1 {
            Some(s) => Some(subst(s, v)),
            None => None,
        },
    )
}

/// The key binding with every `$VAR` in its keys and arguments replaced by `v`.
pub open spec fn subst_command(c: CommandModel, v: Seq<char>) -> CommandModel {
    CommandModel { keys: subst_keys(c.keys, v), commands: subst_arguments(c.commands, v) }
}

/// The key bindings that a repeated key binding stands for, one per value.
pub open spec fn expand_one(ic: IterModel) -> Seq<CommandModel> {
    ic.iter.map_values(|v: Seq<char>| subst_command(ic.command, v))
}

/// The key bindings that repeated key bindings stand for, in order.
pub open spec fn expand_all(ics: Seq<IterModel>) -> Seq<CommandModel>
    decreases ics.len(),
{
    if ics.len() == 0 {
        Seq::empty()
    } else {
        expand_all(ics.drop_last()) + expand_one(ics.last())
    }
}

/// A copy of a list of strings.
pub fn copy_strings(v: &Vec<String>) -> (r: Vec<String>)
    ensures
        texts(r@) == texts(v@),
{
    let mut r: Vec<String> = Vec::new();
    let n = v.len();
    let mut i: usize = 0;
    while i < n
        invariant
            n == v@.len(),
            i <= n,
            r@.len() == i,
            forall|k: int| 0 <= k < i ==> #[trigger] r@[k]@ == v@[k]@,
        decreases n - i,
    {
        r.push(v[i].clone());
        i = i + 1;
    }
    assert(texts(r@) =~= texts(v@));
    r
}

/// A copy of an optional string.
pub fn copy_opt(o: &Option<String>) -> (r: Option<String>)
    ensures
        opt_text(r) == opt_text(*o),
{
    match o {
        Some(s) => Some(s.clone()),
        None => None,
    }
}

impl WmCommandArgument {
    /// A copy of the argument.
    pub fn duplicate(&self) -> (r: WmCommandArgument)
        ensures
            r@ == self@,
    {
        WmCommandArgument { command: self.command, args: copy_opt(&self.args) }
    }

    /// The argument with every `$VAR` replaced by `v`.
    pub fn substituted(&self, v: &str) -> (r: WmCommandArgument)
        ensures
            r@ == subst_argument(self@, v@),
    {
        proof {
            reveal_strlit("$VAR");
        }
        let args = match &self.args {
            Some(a) => Some(replace(a.as_str(), "$VAR", v)),
            None => None,
        };
        WmCommandArgument { command: self.command, args }
    }
}

impl WmCommand {
    /// The key binding with every `$VAR` in its keys and arguments replaced
    /// by `v`.
    pub fn substituted(&self, v: &str) -> (r: WmCommand)
        ensures
            r@ == subst_command(self@, v@),
    {
        proof {
            reveal_strlit("$VAR");
        }
        let mut keys: Vec<String> = Vec::new();
        let n = self.keys.len();
        let mut i: usize = 0;
        while i < n
            invariant
                n == self.keys@.len(),
                i <= n,
                "$VAR"@ =~= seq!['$', 'V', 'A', 'R'],
                keys@.len() == i,
                forall|k: int| 0 <= k < i ==> #[trigger] keys@[k]@ == subst(self.keys@[k]@, v@),
            decreases n - i,
        {
            keys.push(replace(self.keys[i].as_str(), "$VAR", v));
            i = i + 1;
        }
        let mut commands: Vec<WmCommandArgument> = Vec::new();
        let m = self.commands.len();
        let mut j: usize = 0;
        while j < m
            invariant
                m == self.commands@.len(),
                j <= m,
                commands@.len() == j,
                forall|k: int| 0 <= k < j ==> #[trigger] commands@[k]@ == subst_argument(
                    self.commands@[k]@,
                    v@,
                ),
            decreases m - j,
        {
            commands.push(self.commands[j].substituted(v));
            j = j + 1;
        }
        let r = WmCommand { keys, commands };
        assert(r@.keys =~= subst_command(self@, v@).keys);
        assert(r@.commands =~= subst_command(self@, v@).commands);
        r
    }
}

} // verus!
