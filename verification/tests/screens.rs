use oxidewm::action::XAction;
use oxidewm::screeninfo::ScreenInfo;
use oxidewm::windowstate::WindowState;
use oxidewm::workspace::workspace_layout::WorkspaceLayout;
use oxidewm::workspace::workspace_navigation::WorkspaceNavigation;

fn win(id: u32) -> WindowState {
    WindowState::new(id + 1000, id, "window".to_string(), 0, 0)
}

fn screen_with(names: Vec<u16>, active: u16) -> ScreenInfo {
    let mut s = ScreenInfo::new(1000, 500, WorkspaceLayout::VerticalStriped);
    s.set_test_workspaces(names);
    s.set_test_active_workspace(active);
    s
}

fn names(s: &ScreenInfo) -> Vec<u16> {
    let mut v = s.listed_names();
    v.sort();
    v
}

#[test]
fn new_screen_has_workspace_one() {
    let s = ScreenInfo::new(800, 600, WorkspaceLayout::Tiled);
    assert_eq!(s.get_active_workspace().name, 1);
    assert_eq!(s.get_workspace_count(), 1);
    assert_eq!(s.screen_size.ws_width, 800);
    assert_eq!(s.screen_size.ws_height, 600);
    assert_eq!(s.get_active_workspace().layout, WorkspaceLayout::Tiled);
}

#[test]
fn neighbours_wrap_around() {
    let s = screen_with(vec![1, 3, 5], 3);
    assert_eq!(s.find_next_workspace(), 5);
    assert_eq!(s.find_previous_workspace(), 1);
    assert_eq!(s.find_next_free_workspace(), 2);
    let last = screen_with(vec![1, 3, 5], 5);
    assert_eq!(last.find_next_workspace(), 1);
    let first = screen_with(vec![1, 3, 5], 1);
    assert_eq!(first.find_previous_workspace(), 5);
    assert_eq!(first.find_next_lowest_workspace_nr(), None);
    assert_eq!(first.find_next_highest_workspace_nr(), Some(3));
}

#[test]
fn go_to_number_creates_it_and_closes_empty_workspace() {
    let mut s = screen_with(vec![1, 3], 3);
    let mut actions = Vec::new();
    assert!(s.go_to_workspace(WorkspaceNavigation::Number(4), &mut actions).is_ok());
    assert_eq!(s.get_active_workspace().name, 4);
    assert_eq!(names(&s), vec![1, 4]);
}

#[test]
fn go_to_zero_is_refused() {
    let mut s = screen_with(vec![1], 1);
    let mut actions = Vec::new();
    let err = s.go_to_workspace(WorkspaceNavigation::Number(0), &mut actions).unwrap_err();
    assert_eq!(err.message(), "MoveError: workspace nr 0 has to be greater than or equal to 1");
}

#[test]
fn next_then_previous_comes_back() {
    let mut s = screen_with(vec![2, 4, 6], 4);
    let mut actions = Vec::new();
    s.on_map_request(win(1), &mut actions);
    s.go_to_workspace(WorkspaceNavigation::Next, &mut actions).unwrap();
    assert_eq!(s.get_active_workspace().name, 6);
    assert_eq!(s.find_previous_workspace(), 4);
    s.go_to_workspace(WorkspaceNavigation::Previous, &mut actions).unwrap();
    assert_eq!(s.get_active_workspace().name, 4);
    assert_eq!(s.get_active_workspace().order, vec![1]);
}

#[test]
fn switching_hides_and_shows() {
    let mut s = screen_with(vec![1, 2], 1);
    let mut actions = Vec::new();
    s.on_map_request(win(7), &mut actions);
    actions.clear();
    s.go_to_workspace(WorkspaceNavigation::Number(2), &mut actions).unwrap();
    assert_eq!(
        actions,
        vec![XAction::GrabServer, XAction::UnmapWindow { window: 7 }, XAction::UngrabServer]
    );
    actions.clear();
    s.go_to_workspace(WorkspaceNavigation::Number(1), &mut actions).unwrap();
    assert_eq!(
        actions,
        vec![
            XAction::GrabServer,
            XAction::UngrabServer,
            XAction::Configure { window: 1007, x: 0, y: 0, width: 1000, height: 500 },
            XAction::Configure { window: 7, x: 0, y: 0, width: 1000, height: 500 },
            XAction::GrabServer,
            XAction::MapWindow { window: 1007 },
            XAction::MapWindow { window: 7 },
            XAction::UngrabServer,
        ]
    );
    assert_eq!(names(&s), vec![1]);
}

#[test]
fn move_window_to_other_workspace() {
    let mut s = screen_with(vec![1, 2], 1);
    let mut actions = Vec::new();
    s.on_map_request(win(7), &mut actions);
    s.on_map_request(win(8), &mut actions);
    s.active_workspace.focus_window(8, &mut actions);
    s.move_window_to_workspace(WorkspaceNavigation::Number(2), win(8), &mut actions).unwrap();
    assert_eq!(s.get_active_workspace().order, vec![7]);
    assert_eq!(s.workspaces.get(&2).unwrap().order, vec![8]);
    assert_eq!(
        actions[actions.len() - 3..].to_vec(),
        vec![XAction::GrabServer, XAction::UnmapWindow { window: 8 }, XAction::UngrabServer]
    );
}

#[test]
fn move_without_focus_is_refused() {
    let mut s = screen_with(vec![1, 2], 1);
    let mut actions = Vec::new();
    let err = s
        .move_window_to_workspace(WorkspaceNavigation::Number(2), win(8), &mut actions)
        .unwrap_err();
    assert_eq!(err.message(), "MoveError: No window selected on active workspace");
}

#[test]
fn move_and_follow() {
    let mut s = screen_with(vec![1], 1);
    let mut actions = Vec::new();
    s.on_map_request(win(7), &mut actions);
    s.on_map_request(win(8), &mut actions);
    s.active_workspace.focus_window(7, &mut actions);
    s.move_window_to_workspace_and_follow(WorkspaceNavigation::Number(3), win(7), &mut actions)
        .unwrap();
    assert_eq!(s.get_active_workspace().name, 3);
    assert_eq!(s.get_active_workspace().order, vec![7]);
    assert_eq!(names(&s), vec![1, 3]);
}

#[test]
fn quit_selects_lower_then_higher() {
    let mut s = screen_with(vec![1, 3, 5], 3);
    let mut actions = Vec::new();
    s.on_map_request(win(6), &mut actions);
    actions.clear();
    s.quit_workspace_select_new(&mut actions).unwrap();
    assert_eq!(s.get_active_workspace().name, 1);
    assert_eq!(names(&s), vec![1, 5]);
    assert_eq!(
        actions,
        vec![
            XAction::GrabServer,
            XAction::UnmapWindow { window: 6 },
            XAction::UngrabServer,
            XAction::UnmapWindow { window: 6 },
            XAction::Kill { window: 6 },
        ]
    );
}

#[test]
fn quitting_an_empty_workspace_reports_it_already_gone() {
    let mut t = screen_with(vec![2, 5], 2);
    let mut actions = Vec::new();
    let err = t.quit_workspace_select_new(&mut actions).unwrap_err();
    assert_eq!(err.message(), "QuitError: now workspace with workspace_name 2");
    assert_eq!(t.get_active_workspace().name, 5);
    assert_eq!(names(&t), vec![5]);
}

#[test]
fn quit_last_workspace_recreates_one() {
    let mut s = screen_with(vec![4], 4);
    let mut actions = Vec::new();
    s.on_map_request(win(9), &mut actions);
    actions.clear();
    s.quit_workspace_select_new(&mut actions).unwrap();
    assert_eq!(s.get_active_workspace().name, 1);
    assert_eq!(names(&s), vec![1]);
    assert!(actions.contains(&XAction::Kill { window: 9 }));
}

#[test]
fn quit_unknown_workspace() {
    let mut s = screen_with(vec![1], 1);
    let mut actions = Vec::new();
    let err = s.quit_workspace(7, &mut actions).unwrap_err();
    assert_eq!(err.message(), "QuitError: now workspace with workspace_name 7");
}

#[test]
fn status_bar_at_top_shrinks_workspaces() {
    let mut s = ScreenInfo::new(1000, 500, WorkspaceLayout::VerticalStriped);
    let mut actions = Vec::new();
    s.add_status_bar(0, 1000, 20, win(50), &mut actions);
    assert_eq!(s.screen_size.ws_pos_y, 20);
    assert_eq!(s.screen_size.ws_height, 480);
    assert_eq!(
        actions[0],
        XAction::Configure { window: 50, x: 0, y: 0, width: 1000, height: 20 }
    );
    assert_eq!(actions[1], XAction::MapWindow { window: 50 });
}

#[test]
fn previous_then_next_comes_back() {
    let mut s = screen_with(vec![2, 4, 6], 2);
    let mut actions = Vec::new();
    s.on_map_request(win(1), &mut actions);
    s.go_to_workspace(WorkspaceNavigation::Previous, &mut actions).unwrap();
    assert_eq!(s.get_active_workspace().name, 6);
    assert_eq!(s.find_next_workspace(), 2);
}

#[test]
fn creating_an_existing_workspace_changes_nothing() {
    let mut s = screen_with(vec![1, 2], 1);
    s.create_workspace(2);
    s.create_workspace(2);
    assert_eq!(names(&s), vec![1, 2]);
    s.create_workspace(9);
    assert_eq!(names(&s), vec![1, 2, 9]);
}

#[test]
fn move_to_missing_workspace_or_without_focus() {
    let mut s = screen_with(vec![1, 2], 1);
    let mut actions = Vec::new();
    let missing = s.move_window_to_workspace_nr(5, win(3), &mut actions).unwrap_err();
    assert_eq!(missing.message(), "MoveError: could not move screen, workspace 5 does not exist on screen");
    let unfocused = s.move_window_to_workspace_nr(2, win(3), &mut actions).unwrap_err();
    assert_eq!(unfocused.message(), "MoveError: No active window");
    assert!(s.move_window_to_workspace_nr(1, win(3), &mut actions).is_ok());
    assert!(actions.is_empty());
}

#[test]
fn set_workspace_creates_a_missing_workspace() {
    let mut s = screen_with(vec![1, 2], 1);
    let mut actions = Vec::new();
    s.on_map_request(win(4), &mut actions);
    assert!(s.set_workspace(7, &mut actions).is_ok());
    assert_eq!(s.get_active_workspace().name, 7);
    assert_eq!(names(&s), vec![1, 2, 7]);
}
