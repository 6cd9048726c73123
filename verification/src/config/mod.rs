//! The configuration of the window manager.
pub mod commands;

use vstd::prelude::*;

use crate::ipc::commands::WmCommands;
use crate::workspace::workspace_layout::WorkspaceLayout;
use self::commands::{
    expand_all, expand_one, texts, CommandModel, IterCmd, IterModel, WmCommand, WmCommandArgument,
};

verus! {

/// The border width when the configuration names none.
pub const DEFAULT_BORDER_WIDTH: u32 = 3;

/// The gap between windows when the configuration names none.
pub const DEFAULT_GAP: u32 = 10;

/// The settings of the window manager.
#[derive(Debug)]
pub struct Config {
    pub cmds: Vec<WmCommand>,
    pub iter_cmds: Vec<IterCmd>,
    pub exec_once: Vec<String>,
    pub exec_always: Vec<String>,
    pub border_width: u32,
    pub border_color: String,
    pub border_focus_color: String,
    pub gap: u32,
    pub default_layout: WorkspaceLayout,
}

/// The key bindings as texts.
pub open spec fn command_models(v: Seq<WmCommand>) -> Seq<CommandModel> {
    v.map_values(|c: WmCommand| c@)
}

/// The repeated key bindings as texts.
pub open spec fn iter_models(v: Seq<IterCmd>) -> Seq<IterModel> {
    v.map_values(|c: IterCmd| c@)
}

/// The key binding that the configuration has when it names none: Alt+t
/// starts `kitty`.
pub open spec fn default_command_model() -> CommandModel {
    CommandModel {
        keys: seq!["A"@, "t"@],
        commands: seq![(WmCommands::Exec, Some("kitty"@))],
    }
}

/// The default key bindings.
pub fn default_cmds() -> (r: Vec<WmCommand>)
    ensures
        command_models(r@) == seq![default_command_model()],
{
    let keys = vec![String::from_str("A"), String::from_str("t")];
    let commands = vec![
        WmCommandArgument { command: WmCommands::Exec, args: Some(String::from_str("kitty")) },
    ];
    let c = WmCommand { keys, commands };
    assert(c@.keys =~= default_command_model().keys);
    assert(c@.commands =~= default_command_model().commands);
    let r = vec![c];
    assert(command_models(r@) =~= seq![default_command_model()]);
    r
}

/// The default repeated key bindings: none.
pub fn default_icmds() -> (r: Vec<IterCmd>)
    ensures
        r@.len() == 0,
{
    Vec::new()
}

/// The default commands to run at start: none.
pub fn default_exec() -> (r: Vec<String>)
    ensures
        r@.len() == 0,
{
    Vec::new()
}

/// The default commands to run at every start and restart: none.
pub fn default_exec_always() -> (r: Vec<String>)
    ensures
        r@.len() == 0,
{
    Vec::new()
}

/// The border width when the configuration names none.
pub fn default_border_width() -> (r: u32)
    ensures
        r == DEFAULT_BORDER_WIDTH,
{
    DEFAULT_BORDER_WIDTH
}

/// White.
pub fn default_border_color() -> (r: String)
    ensures
        r@ == "0xFFFFFF"@,
{
    String::from_str("0xFFFFFF")
}

/// Black.
pub fn default_border_focus_color() -> (r: String)
    ensures
        r@ == "0x000000"@,
{
    String::from_str("0x000000")
}

/// The gap between windows when the configuration names none.
pub fn default_gap() -> (r: u32)
    ensures
        r == DEFAULT_GAP,
{
    DEFAULT_GAP
}

/// The layout of new workspaces when the configuration names none.
pub fn default_default_layout() -> (r: WorkspaceLayout)
    ensures
        r == WorkspaceLayout::VerticalStriped,
{
    WorkspaceLayout::VerticalStriped
}

/// What an optional argument of the configuration file reads as: missing,
/// empty and `None` all mean no argument.
pub open spec fn normalized_argument(args: Option<Seq<char>>) -> Option<Seq<char>> {
    match args {
        Some(a) => if a.len() == 0 || a == "None"@ {
            None
        } else {
            Some(a)
        },
        None => None,
    }
}

/// Reads an optional argument of the configuration file: missing, empty and
/// `None` all mean no argument.
pub fn normalize_optional_string(args: Option<String>) -> (r: Option<String>)
    ensures
        commands::opt_text(r) == normalized_argument(commands::opt_text(args)),
{
    match args {
        Some(a) => {
            if a.as_str().unicode_len() == 0 || crate::text::str_eq(a.as_str(), "None") {
                None
            } else {
                Some(a)
            }
        },
        None => None,
    }
}

/// The files that the configuration is looked for in, in order: the given
/// file, then `./config.yml` when `with_local`, then the user's and the
/// system's configuration file.
pub open spec fn config_paths_spec(source_file: Option<Seq<char>>, home: Seq<char>, with_local: bool) -> Seq<
    Seq<char>,
> {
    let given = match source_file {
        Some(f) => seq![f],
        None => Seq::empty(),
    };
    let local = if with_local {
        seq!["./config.yml"@]
    } else {
        Seq::empty()
    };
    given + local + seq![home + "/.config/oxide/config.yml"@, "/etc/oxide/config.yml"@]
}

/// The files that the configuration is looked for in, in order: the given
/// file, then `./config.yml` when `with_local` (in debug builds), then the
/// user's configuration under `home`, then the system's.
pub fn config_paths(source_file: Option<&str>, home: &str, with_local: bool) -> (r: Vec<String>)
    ensures
        texts(r@) == config_paths_spec(
            match source_file {
                Some(f) => Some(f@),
                None => None,
            },
            home@,
            with_local,
        ),
{
    let mut paths: Vec<String> = Vec::new();
    if let Some(f) = source_file {
        paths.push(String::from_str(f));
    }
    if with_local {
        paths.push(String::from_str("./config.yml"));
    }
    let mut home_config = String::from_str(home);
    home_config.append("/.config/oxide/config.yml");
    paths.push(home_config);
    paths.push(String::from_str("/etc/oxide/config.yml"));
    let ghost given = match source_file {
        Some(f) => seq![f@],
        None => Seq::<Seq<char>>::empty(),
    };
    let ghost local = if with_local {
        seq!["./config.yml"@]
    } else {
        Seq::<Seq<char>>::empty()
    };
    assert(texts(paths@) =~= given + local + seq![home@ + "/.config/oxide/config.yml"@, "/etc/oxide/config.yml"@]);
    paths
}

impl Config {
    /// The configuration when there is no configuration file.
    pub fn default() -> (r: Config)
        ensures
            command_models(r.cmds@) == seq![default_command_model()],
            r.iter_cmds@.len() == 0,
            r.exec_once@.len() == 0,
            r.exec_always@.len() == 0,
            r.border_width == DEFAULT_BORDER_WIDTH,
            r.border_color@ == "0xFFFFFF"@,
            r.border_focus_color@ == "0x000000"@,
            r.gap == DEFAULT_GAP,
            r.default_layout == WorkspaceLayout::VerticalStriped,
    {
        Config {
            cmds: default_cmds(),
            iter_cmds: default_icmds(),
            exec_once: default_exec(),
            exec_always: default_exec_always(),
            border_width: default_border_width(),
            border_color: default_border_color(),
            border_focus_color: default_border_focus_color(),
            gap: default_gap(),
            default_layout: default_default_layout(),
        }
    }

    /// Appends the key bindings that the repeated key bindings stand for:
    /// for each repeated binding in order, one binding per value, with
    /// every `$VAR` in its keys and arguments replaced by the value.
    pub fn parse_iter_cmds(&mut self)
        ensures
            command_models(final(self).cmds@) == command_models(old(self).cmds@) + expand_all(
                iter_models(old(self).iter_cmds@),
            ),
            iter_models(final(self).iter_cmds@) == iter_models(old(self).iter_cmds@),
            texts(final(self).exec_once@) == texts(old(self).exec_once@),
            texts(final(self).exec_always@) == texts(old(self).exec_always@),
            final(self).border_width == old(self).border_width,
            final(self).border_color@ == old(self).border_color@,
            final(self).border_focus_color@ == old(self).border_focus_color@,
            final(self).gap == old(self).gap,
            final(self).default_layout == old(self).default_layout,
    {
        let ghost base = command_models(self.cmds@);
        let ghost ics = iter_models(self.iter_cmds@);
        let n = self.iter_cmds.len();
        let mut i: usize = 0;
        while i < n
            invariant
                n == self.iter_cmds@.len(),
                i <= n,
                ics == iter_models(self.iter_cmds@),
                ics == iter_models(old(self).iter_cmds@),
                command_models(self.cmds@) == base + expand_all(ics.take(i as int)),
                texts(self.exec_once@) == texts(old(self).exec_once@),
                texts(self.exec_always@) == texts(old(self).exec_always@),
                self.border_width == old(self).border_width,
                self.border_color@ == old(self).border_color@,
                self.border_focus_color@ == old(self).border_focus_color@,
                self.gap == old(self).gap,
                self.default_layout == old(self).default_layout,
            decreases n - i,
        {
            let ghost start = command_models(self.cmds@);
            let m = self.iter_cmds[i].iter.len();
            let ghost ic = ics[i as int];
            assert(ic == self.iter_cmds@[i as int]@);
            let mut j: usize = 0;
            while j < m
                invariant
                    n == self.iter_cmds@.len(),
                    i < n,
                    m == self.iter_cmds@[i as int].iter@.len(),
                    j <= m,
                    ic == self.iter_cmds@[i as int]@,
                    ics == iter_models(self.iter_cmds@),
                    ics == iter_models(old(self).iter_cmds@),
                    command_models(self.cmds@) == start + expand_one(ic).take(j as int),
                    texts(self.exec_once@) == texts(old(self).exec_once@),
                    texts(self.exec_always@) == texts(old(self).exec_always@),
                    self.border_width == old(self).border_width,
                    self.border_color@ == old(self).border_color@,
                    self.border_focus_color@ == old(self).border_focus_color@,
                    self.gap == old(self).gap,
                    self.default_layout == old(self).default_layout,
                decreases m - j,
            {
                let cmd = self.iter_cmds[i].command.substituted(self.iter_cmds[i].iter[j].as_str());
                let ghost before = command_models(self.cmds@);
                self.cmds.push(cmd);
                assert(command_models(self.cmds@) =~= before.push(cmd@));
                assert(expand_one(ic).take(j + 1) =~= expand_one(ic).take(j as int).push(cmd@));
                assert(command_models(self.cmds@) =~= start + expand_one(ic).take(j + 1));
                j = j + 1;
            }
            assert(expand_one(ic).take(m as int) =~= expand_one(ic));
            assert(ics.take(i + 1).drop_last() =~= ics.take(i as int));
            assert(command_models(self.cmds@) =~= base + expand_all(ics.take(i + 1)));
            i = i + 1;
        }
        assert(ics.take(n as int) =~= ics);
    }
}

} // verus!
