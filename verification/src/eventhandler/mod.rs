//! What the window manager does on a command.
pub mod commands;

use vstd::prelude::*;

use crate::action::XAction;
use crate::ipc::action_event::WmActionEvent;
use crate::ipc::commands::WmCommands;
use crate::windowmanager::{
    focus_done, focus_fits, fullscreen_done, fullscreen_fits, go_to_done, go_to_fits, kill_done,
    kill_fits, layout_done, layout_fits, move_done, move_fits, move_follow_done, move_follow_fits,
    move_to_done, move_to_fits, quit_done, quit_fits, WindowManager,
};
use crate::windowstate::WindowState;

verus! {

/// What is left to do outside the window manager after a command.
#[derive(Debug, Clone, PartialEq, Eq)]
pub enum CommandOutcome {
    /// Nothing.
    Nothing,
    /// Announce that the state of the window manager changed.
    StateChanged,
    /// End the window manager.
    Exit,
    /// Run the user command given as argument.
    Exec(Option<String>),
}

/// Whether `command` with argument `args` can be handled in `pre`, where
/// `softkill_supported` says whether the focused window can be asked to
/// close and `moved` is the state under which the focused window would be
/// moved.
pub open spec fn command_fits(
    pre: WindowManager,
    command: WmCommands,
    args: Option<String>,
    softkill_supported: bool,
    moved: WindowState,
) -> bool {
    match command {
        WmCommands::Move => move_fits(pre, args),
        WmCommands::Focus => focus_fits(pre, args),
        WmCommands::Kill => kill_fits(pre, softkill_supported),
        WmCommands::Layout => layout_fits(pre, args),
        WmCommands::GoToWorkspace => go_to_fits(pre, args),
        WmCommands::MoveToWorkspace => move_to_fits(pre, args, moved),
        WmCommands::MoveToWorkspaceAndFollow => move_follow_fits(pre, args, moved),
        WmCommands::QuitWorkspace => quit_fits(pre),
        WmCommands::Fullscreen => fullscreen_fits(pre),
        _ => true,
    }
}

/// The outcome of a command that changes the screens, when there is a
/// focused screen or not.
pub open spec fn screen_outcome(pre: WindowManager) -> CommandOutcome {
    if pre.has_focus() {
        CommandOutcome::StateChanged
    } else {
        CommandOutcome::Nothing
    }
}

/// Handling `event` turns `pre` into `post`, appends `after` to `before`
/// and leaves `r` to do.
pub open spec fn command_done(
    pre: WindowManager,
    post: WindowManager,
    event: WmActionEvent,
    softkill_supported: bool,
    moved: WindowState,
    before: Seq<XAction>,
    after: Seq<XAction>,
    r: CommandOutcome,
) -> bool {
    let args = event.args;
    let unchanged = post.same_state(&pre) && after == before;
    match event.command {
        WmCommands::Move => move_done(pre, post, args, before, after) && r == CommandOutcome::Nothing,
        WmCommands::Focus => focus_done(pre, post, args, before, after) && r == CommandOutcome::Nothing,
        WmCommands::Resize => unchanged && r == CommandOutcome::Nothing,
        WmCommands::Quit => unchanged && r == CommandOutcome::Exit,
        WmCommands::Kill => kill_done(pre, post, softkill_supported, before, after) && r
            == CommandOutcome::Nothing,
        WmCommands::Layout => layout_done(pre, post, args, before, after) && r == CommandOutcome::Nothing,
        WmCommands::Restart => {
            &&& post.same_state(&WindowManager { restart: true, ..pre })
            &&& after == before
            &&& r == CommandOutcome::Nothing
        },
        WmCommands::GoToWorkspace => go_to_done(pre, post, args, before, after) && r == screen_outcome(
            pre,
        ),
        WmCommands::MoveToWorkspace => move_to_done(pre, post, args, moved, before, after) && r
            == screen_outcome(pre),
        WmCommands::MoveToWorkspaceAndFollow => move_follow_done(pre, post, args, moved, before, after)
            && r == screen_outcome(pre),
        WmCommands::QuitWorkspace => quit_done(pre, post, before, after) && r == screen_outcome(pre),
        WmCommands::Exec => unchanged && r == CommandOutcome::Exec(args),
        WmCommands::Fullscreen => fullscreen_done(pre, post, before, after) && r
            == CommandOutcome::Nothing,
    }
}

/// Carries out a command from a key binding or a client.
pub fn handle_wm_command(
    window_manager: &mut WindowManager,
    command: WmActionEvent,
    softkill_supported: bool,
    moved: WindowState,
    actions: &mut Vec<XAction>,
) -> (r: CommandOutcome)
    requires
        old(window_manager).wf(),
        command_fits(*old(window_manager), command.command, command.args, softkill_supported, moved),
    ensures
        final(window_manager).wf(),
        command_done(
            *old(window_manager),
            *final(window_manager),
            command,
            softkill_supported,
            moved,
            old(actions)@,
            final(actions)@,
            r,
        ),
{
    let args = command.args;
    match command.command {
        WmCommands::Move => {
            window_manager.handle_keypress_move(args, actions);
            CommandOutcome::Nothing
        },
        WmCommands::Focus => {
            window_manager.handle_keypress_focus(args, actions);
            CommandOutcome::Nothing
        },
        WmCommands::Resize => CommandOutcome::Nothing,
        WmCommands::Quit => CommandOutcome::Exit,
        WmCommands::Kill => {
            window_manager.handle_keypress_kill(softkill_supported, actions);
            CommandOutcome::Nothing
        },
        WmCommands::Layout => {
            window_manager.handle_keypress_layout(args, actions);
            CommandOutcome::Nothing
        },
        WmCommands::Restart => {
            window_manager.restart = true;
            CommandOutcome::Nothing
        },
        WmCommands::GoToWorkspace => {
            if window_manager.handle_keypress_go_to_workspace(args, actions) {
                CommandOutcome::StateChanged
            } else {
                CommandOutcome::Nothing
            }
        },
        WmCommands::MoveToWorkspace => {
            if window_manager.handle_move_to_workspace(args, moved, actions) {
                CommandOutcome::StateChanged
            } else {
                CommandOutcome::Nothing
            }
        },
        WmCommands::MoveToWorkspaceAndFollow => {
            if window_manager.handle_move_to_workspace_follow(args, moved, actions) {
                CommandOutcome::StateChanged
            } else {
                CommandOutcome::Nothing
            }
        },
        WmCommands::QuitWorkspace => {
            if window_manager.handle_quit_workspace(actions) {
                CommandOutcome::StateChanged
            } else {
                CommandOutcome::Nothing
            }
        },
        WmCommands::Exec => CommandOutcome::Exec(args),
        WmCommands::Fullscreen => {
            window_manager.handle_keypress_fullscreen(actions);
            CommandOutcome::Nothing
        },
    }
}

/// Whether `command` can be handled in `window_manager` (`command_fits`).
pub fn command_fits_check(
    window_manager: &WindowManager,
    command: &WmActionEvent,
    softkill_supported: bool,
    moved: &WindowState,
) -> (r: bool)
    requires
        window_manager.wf(),
    ensures
        r == command_fits(*window_manager, command.command, command.args, softkill_supported, *moved),
{
    match command.command {
        WmCommands::Move => window_manager.move_check(&command.args),
        WmCommands::Focus => window_manager.focus_check(&command.args),
        WmCommands::Kill => window_manager.kill_check(softkill_supported),
        WmCommands::Layout => window_manager.layout_check(&command.args),
        WmCommands::GoToWorkspace => window_manager.go_to_check(&command.args),
        WmCommands::MoveToWorkspace => window_manager.move_to_check(&command.args, moved),
        WmCommands::MoveToWorkspaceAndFollow => window_manager.move_follow_check(&command.args, moved),
        WmCommands::QuitWorkspace => window_manager.quit_check(),
        WmCommands::Fullscreen => window_manager.fullscreen_check(),
        _ => true,
    }
}

/// Carries out a command when it can be handled (`command_fits`), and
/// returns what is left to do; otherwise changes nothing and returns none.
pub fn try_handle_wm_command(
    window_manager: &mut WindowManager,
    command: WmActionEvent,
    softkill_supported: bool,
    moved: WindowState,
    actions: &mut Vec<XAction>,
) -> (r: Option<CommandOutcome>)
    requires
        old(window_manager).wf(),
    ensures
        final(window_manager).wf(),
        match r {
            Some(o) => {
                &&& command_fits(
                    *old(window_manager),
                    command.command,
                    command.args,
                    softkill_supported,
                    moved,
                )
                &&& command_done(
                    *old(window_manager),
                    *final(window_manager),
                    command,
                    softkill_supported,
                    moved,
                    old(actions)@,
                    final(actions)@,
                    o,
                )
            },
            None => {
                &&& !command_fits(
                    *old(window_manager),
                    command.command,
                    command.args,
                    softkill_supported,
                    moved,
                )
                &&& final(window_manager).same_state(old(window_manager))
                &&& final(actions)@ == old(actions)@
            },
        },
{
    if !command_fits_check(window_manager, &command, softkill_supported, &moved) {
        return None;
    }
    Some(handle_wm_command(window_manager, command, softkill_supported, moved, actions))
}

} // verus!
