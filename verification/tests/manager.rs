use oxidewm::action::XAction;
use oxidewm::config::Config;
use oxidewm::eventhandler::{command_fits_check, handle_wm_command, try_handle_wm_command, CommandOutcome};
use oxidewm::ipc::action_event::WmActionEvent;
use oxidewm::ipc::commands::WmCommands;
use oxidewm::windowmanager::{RootScreen, WindowManager};
use oxidewm::windowstate::WindowState;
use oxidewm::workspace::workspace_layout::WorkspaceLayout;

fn win(id: u32) -> WindowState {
    WindowState::new(id + 1000, id, "window".to_string(), 0, 0)
}

fn manager() -> WindowManager {
    let roots = vec![RootScreen { root: 10, width: 1000, height: 500 }];
    WindowManager::new(Config::default(), &roots)
}

fn active(wm: &WindowManager) -> &oxidewm::workspace::Workspace {
    wm.screeninfo.get(&wm.focused_screen).unwrap().get_active_workspace()
}

fn event(command: WmCommands, args: Option<&str>) -> WmActionEvent {
    WmActionEvent { command, args: args.map(|a| a.to_string()) }
}

#[test]
fn one_screen_per_root_last_focused() {
    let roots = vec![
        RootScreen { root: 10, width: 1000, height: 500 },
        RootScreen { root: 20, width: 800, height: 600 },
        RootScreen { root: 10, width: 640, height: 480 },
    ];
    let wm = WindowManager::new(Config::default(), &roots);
    assert_eq!(wm.screeninfo.len(), 2);
    assert_eq!(wm.focused_screen, 10);
    assert_eq!(wm.screeninfo.get(&10).unwrap().screen_size.width, 640);
    assert_eq!(wm.screeninfo.get(&20).unwrap().screen_size.height, 600);
    assert!(!wm.restart);
    let empty = WindowManager::new(Config::default(), &vec![]);
    assert_eq!(empty.focused_screen, 0);
    assert!(empty.screeninfo.is_empty());
}

#[test]
fn map_request_adds_window_unless_dock() {
    let mut wm = manager();
    let mut actions = Vec::new();
    wm.handle_map_request(10, false, win(1), &mut actions);
    assert_eq!(active(&wm).order, vec![1]);
    wm.handle_map_request(10, true, win(2), &mut actions);
    assert_eq!(active(&wm).order, vec![1]);
}

#[test]
fn enter_focuses_moved_window_first() {
    let mut wm = manager();
    let mut actions = Vec::new();
    wm.handle_event_enter_notify(5, &mut actions);
    assert_eq!(active(&wm).focused_window, Some(5));
    wm.moved_window = Some(9);
    wm.handle_event_enter_notify(5, &mut actions);
    assert_eq!(active(&wm).focused_window, Some(9));
    assert_eq!(wm.moved_window, None);
    wm.handle_event_leave_notify();
    assert_eq!(active(&wm).focused_window, None);
    assert_eq!(actions, vec![XAction::Focus { window: 5 }, XAction::Focus { window: 9 }]);
}

#[test]
fn destroy_drops_window() {
    let mut wm = manager();
    let mut actions = Vec::new();
    wm.handle_map_request(10, false, win(1), &mut actions);
    wm.handle_map_request(10, false, win(2), &mut actions);
    wm.handle_event_destroy_notify(1, &mut actions);
    assert_eq!(active(&wm).order, vec![2]);
}

#[test]
fn commands_reach_the_active_workspace() {
    let mut wm = manager();
    let mut actions = Vec::new();
    wm.handle_map_request(10, false, win(1), &mut actions);
    wm.handle_map_request(10, false, win(2), &mut actions);
    wm.handle_keypress_focus(Some("right".to_string()), &mut actions);
    assert_eq!(active(&wm).focused_window, Some(1));
    wm.handle_keypress_move(Some("RIGHT".to_string()), &mut actions);
    assert_eq!(active(&wm).order, vec![2, 1]);
    wm.handle_keypress_move(Some("nowhere".to_string()), &mut actions);
    assert_eq!(active(&wm).order, vec![2, 1]);
    wm.handle_keypress_layout(Some("tiled".to_string()), &mut actions);
    assert_eq!(active(&wm).layout, WorkspaceLayout::Tiled);
    wm.handle_keypress_layout(None, &mut actions);
    assert_eq!(active(&wm).layout, WorkspaceLayout::HorizontalStriped);
    wm.handle_keypress_fullscreen(&mut actions);
    assert_eq!(active(&wm).fullscreen, Some(1));
    wm.handle_keypress_fullscreen(&mut actions);
    assert_eq!(active(&wm).fullscreen, None);
}

#[test]
fn kill_asks_or_disconnects() {
    let mut wm = manager();
    let mut actions = Vec::new();
    wm.handle_map_request(10, false, win(1), &mut actions);
    actions.clear();
    wm.handle_keypress_kill(true, &mut actions);
    assert!(actions.is_empty());
    wm.handle_event_enter_notify(1, &mut actions);
    actions.clear();
    wm.handle_keypress_kill(true, &mut actions);
    assert_eq!(actions, vec![XAction::SoftKill { window: 1 }]);
    actions.clear();
    wm.handle_keypress_kill(false, &mut actions);
    assert_eq!(actions.first(), Some(&XAction::Kill { window: 1 }));
    assert!(active(&wm).order.is_empty());
}

#[test]
fn workspace_commands_signal_state_change() {
    let mut wm = manager();
    let mut actions = Vec::new();
    wm.handle_map_request(10, false, win(1), &mut actions);
    assert!(wm.handle_keypress_go_to_workspace(Some("2".to_string()), &mut actions));
    assert_eq!(active(&wm).name, 2);
    assert!(wm.handle_keypress_go_to_workspace(Some("bogus".to_string()), &mut actions));
    assert_eq!(active(&wm).name, 2);
    assert!(wm.handle_quit_workspace(&mut actions));
    assert_eq!(active(&wm).name, 1);
    let mut none = WindowManager::new(Config::default(), &vec![]);
    assert!(!none.handle_keypress_go_to_workspace(Some("2".to_string()), &mut actions));
    assert!(!none.handle_quit_workspace(&mut actions));
}

#[test]
fn move_to_workspace_through_manager() {
    let mut wm = manager();
    let mut actions = Vec::new();
    wm.handle_map_request(10, false, win(1), &mut actions);
    wm.handle_map_request(10, false, win(2), &mut actions);
    wm.handle_event_enter_notify(2, &mut actions);
    assert!(wm.handle_move_to_workspace(Some("3".to_string()), win(2), &mut actions));
    assert_eq!(active(&wm).order, vec![1]);
    let screen = wm.screeninfo.get(&10).unwrap();
    assert_eq!(screen.workspaces.get(&3).unwrap().order, vec![2]);
    wm.handle_event_enter_notify(1, &mut actions);
    assert!(wm.handle_move_to_workspace_follow(Some("3".to_string()), win(1), &mut actions));
    assert_eq!(active(&wm).name, 3);
    assert_eq!(active(&wm).order, vec![2, 1]);
}

#[test]
fn dispatch_of_commands() {
    let mut wm = manager();
    let mut actions = Vec::new();
    let placeholder = win(0);
    assert_eq!(
        handle_wm_command(&mut wm, event(WmCommands::Quit, None), false, win(0), &mut actions),
        CommandOutcome::Exit
    );
    assert_eq!(
        handle_wm_command(&mut wm, event(WmCommands::Exec, Some("kitty")), false, win(0), &mut actions),
        CommandOutcome::Exec(Some("kitty".to_string()))
    );
    assert_eq!(
        handle_wm_command(&mut wm, event(WmCommands::Restart, None), false, win(0), &mut actions),
        CommandOutcome::Nothing
    );
    assert!(wm.restart);
    assert_eq!(
        handle_wm_command(&mut wm, event(WmCommands::GoToWorkspace, Some("next_free")), false, placeholder, &mut actions),
        CommandOutcome::StateChanged
    );
    assert_eq!(active(&wm).name, 2);
    assert_eq!(
        handle_wm_command(&mut wm, event(WmCommands::Resize, None), false, win(0), &mut actions),
        CommandOutcome::Nothing
    );
}

#[test]
fn restart_returns_commands_to_run_again() {
    let mut wm = manager();
    let mut config = Config::default();
    config.exec_always = vec!["picom".to_string()];
    config.exec_once = vec!["nm-applet".to_string()];
    wm.restart = true;
    let again = wm.restart_wm(config);
    assert_eq!(again, vec!["picom".to_string()]);
    assert!(!wm.restart);
    assert_eq!(wm.autostart_exec(), vec!["nm-applet".to_string()]);
}

#[test]
fn commands_are_checked_before_they_run() {
    let mut wm = manager();
    let mut actions = Vec::new();
    wm.handle_map_request(10, false, win(1), &mut actions);
    wm.handle_map_request(10, false, win(2), &mut actions);
    let layout = event(WmCommands::Layout, Some("tiled"));
    assert!(command_fits_check(&wm, &layout, false, &win(0)));
    assert_eq!(try_handle_wm_command(&mut wm, layout, false, win(0), &mut actions), Some(CommandOutcome::Nothing));
    assert_eq!(active(&wm).layout, WorkspaceLayout::Tiled);
    let mut empty = WindowManager::new(Config::default(), &vec![]);
    let focus = event(WmCommands::Focus, Some("left"));
    assert!(!command_fits_check(&empty, &focus, false, &win(0)));
    assert_eq!(try_handle_wm_command(&mut empty, focus, false, win(0), &mut actions), None);
}

#[test]
fn layouts_beyond_the_screen_are_refused() {
    let mut wm = manager();
    let mut actions = Vec::new();
    let wide = WindowState::new(1001, 1, "window".to_string(), 200, 200);
    assert!(!wm.can_map(10, &wide));
    assert!(wm.can_map(10, &win(1)));
    assert!(!wm.can_map(99, &win(1)));
    wm.handle_map_request(10, false, win(1), &mut actions);
    assert!(wm.can_destroy(1));
    assert!(wm.can_add_status_bar(10, 0, 20));
    assert!(!wm.can_add_status_bar(10, 0, 600));
    assert!(wm.layout_check(&Some("horizontal".to_string())));
    assert!(wm.layout_check(&Some("nonsense".to_string())));
    assert!(wm.go_to_check(&Some("4".to_string())));
    assert!(wm.focus_check(&Some("left".to_string())));
    assert!(wm.quit_check());
}

#[test]
fn focus_and_move_without_a_direction_change_nothing() {
    let mut empty = WindowManager::new(Config::default(), &vec![]);
    let mut actions = Vec::new();
    let focus = event(WmCommands::Focus, None);
    assert!(command_fits_check(&empty, &focus, false, &win(0)));
    assert_eq!(try_handle_wm_command(&mut empty, focus, false, win(0), &mut actions), Some(CommandOutcome::Nothing));
    let moving = event(WmCommands::Move, Some("sideways"));
    assert!(command_fits_check(&empty, &moving, false, &win(0)));
    assert_eq!(try_handle_wm_command(&mut empty, moving, false, win(0), &mut actions), Some(CommandOutcome::Nothing));
    assert!(actions.is_empty());
    assert!(empty.screeninfo.is_empty());
}
