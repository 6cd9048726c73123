use oxidewm::action::{Bounds, XAction};
use oxidewm::screeninfo::ScreenSize;
use oxidewm::windowmanager::movement::Movement;
use oxidewm::windowmanager::WindowManager;
use oxidewm::windowstate::WindowState;
use oxidewm::workspace::tiling::compute_bounds;
use oxidewm::workspace::workspace_layout::WorkspaceLayout;
use oxidewm::workspace::Workspace;

fn win(id: u32) -> WindowState {
    WindowState::new(id + 1000, id, "window".to_string(), 3, 10)
}

fn screen() -> ScreenSize {
    ScreenSize::default(1000, 500)
}

fn workspace(ids: &[u32], layout: WorkspaceLayout) -> Workspace {
    let mut ws = Workspace::new(1, layout);
    for id in ids {
        ws.add_window(win(*id));
    }
    ws
}

#[test]
fn bounds_of_each_layout() {
    let s = ScreenSize::default(1200, 800);
    assert_eq!(
        compute_bounds(WorkspaceLayout::VerticalStriped, &s, 3, 2),
        Bounds { x: 800, y: 0, width: 400, height: 800 }
    );
    assert_eq!(
        compute_bounds(WorkspaceLayout::HorizontalStriped, &s, 4, 1),
        Bounds { x: 0, y: 200, width: 1200, height: 200 }
    );
    assert_eq!(
        compute_bounds(WorkspaceLayout::Tiled, &s, 2, 1),
        Bounds { x: 600, y: 0, width: 600, height: 800 }
    );
    assert_eq!(
        compute_bounds(WorkspaceLayout::Tiled, &s, 3, 0),
        Bounds { x: 0, y: 0, width: 600, height: 800 }
    );
    assert_eq!(
        compute_bounds(WorkspaceLayout::Tiled, &s, 3, 2),
        Bounds { x: 600, y: 400, width: 600, height: 400 }
    );
    assert_eq!(
        compute_bounds(WorkspaceLayout::Tiled, &s, 4, 3),
        Bounds { x: 600, y: 400, width: 600, height: 400 }
    );
}

#[test]
fn vertical_layout_requests() {
    let ws = workspace(&[1, 2], WorkspaceLayout::VerticalStriped);
    let mut actions = Vec::new();
    ws.remap_windows(&screen(), &mut actions);
    assert_eq!(
        actions,
        vec![
            XAction::Configure { window: 1001, x: 10, y: 10, width: 480, height: 480 },
            XAction::Configure { window: 1, x: 13, y: 13, width: 474, height: 474 },
            XAction::GrabServer,
            XAction::MapWindow { window: 1001 },
            XAction::MapWindow { window: 1 },
            XAction::UngrabServer,
            XAction::Configure { window: 1002, x: 510, y: 10, width: 480, height: 480 },
            XAction::Configure { window: 2, x: 513, y: 13, width: 474, height: 474 },
            XAction::GrabServer,
            XAction::MapWindow { window: 1002 },
            XAction::MapWindow { window: 2 },
            XAction::UngrabServer,
        ]
    );
}

#[test]
fn focus_wraps_around() {
    let mut ws = workspace(&[1, 2, 3], WorkspaceLayout::VerticalStriped);
    let mut actions = Vec::new();
    ws.move_focus(Movement::Right, &mut actions);
    assert_eq!(ws.focused_window, Some(1));
    ws.move_focus(Movement::Left, &mut actions);
    assert_eq!(ws.focused_window, Some(3));
    ws.move_focus(Movement::Right, &mut actions);
    assert_eq!(ws.focused_window, Some(1));
    ws.move_focus(Movement::Up, &mut actions);
    assert_eq!(ws.focused_window, Some(1));
    assert_eq!(
        actions,
        vec![
            XAction::Focus { window: 1 },
            XAction::Focus { window: 3 },
            XAction::Focus { window: 1 },
        ]
    );
}

#[test]
fn focus_left_then_right_returns() {
    let mut ws = workspace(&[4, 5, 6], WorkspaceLayout::Tiled);
    let mut actions = Vec::new();
    ws.focus_window(5, &mut actions);
    ws.move_focus(Movement::Left, &mut actions);
    assert_eq!(ws.focused_window, Some(4));
    ws.move_focus(Movement::Right, &mut actions);
    assert_eq!(ws.focused_window, Some(5));
}

#[test]
fn move_window_swaps_and_back() {
    let mut ws = workspace(&[1, 2, 3], WorkspaceLayout::HorizontalStriped);
    let mut actions = Vec::new();
    ws.focus_window(1, &mut actions);
    assert_eq!(ws.move_window(Movement::Left, &screen(), &mut actions), Some(1));
    assert_eq!(ws.order, vec![3, 2, 1]);
    assert_eq!(ws.move_window(Movement::Right, &screen(), &mut actions), Some(1));
    assert_eq!(ws.order, vec![1, 2, 3]);
    assert_eq!(ws.move_window(Movement::Down, &screen(), &mut actions), None);
    assert_eq!(ws.order, vec![1, 2, 3]);
}

#[test]
fn fullscreen_shows_one_window_on_the_whole_screen() {
    let mut ws = workspace(&[7], WorkspaceLayout::VerticalStriped);
    let mut actions = Vec::new();
    ws.focus_window(7, &mut actions);
    actions.clear();
    ws.toggle_fullscreen(&screen(), &mut actions);
    assert_eq!(ws.fullscreen, Some(7));
    assert_eq!(
        actions,
        vec![
            XAction::GrabServer,
            XAction::UnmapWindow { window: 7 },
            XAction::UngrabServer,
            XAction::Configure { window: 1007, x: 10, y: 10, width: 980, height: 480 },
            XAction::Configure { window: 7, x: 13, y: 13, width: 974, height: 474 },
            XAction::MapWindow { window: 7 },
        ]
    );
    ws.toggle_fullscreen(&screen(), &mut actions);
    assert_eq!(ws.fullscreen, None);
}

#[test]
fn add_then_remove_restores() {
    let mut ws = workspace(&[1, 2], WorkspaceLayout::VerticalStriped);
    ws.add_window(win(9));
    let mut actions = Vec::new();
    ws.remove_window(9, &screen(), &mut actions);
    assert_eq!(ws.order, vec![1, 2]);
    assert!(!ws.windows.contains_key(&9));
    assert_eq!(
        actions[actions.len() - 3..].to_vec(),
        vec![XAction::GrabServer, XAction::UnmapWindow { window: 9 }, XAction::UngrabServer]
    );
}

#[test]
fn kill_soft_and_hard() {
    let mut ws = workspace(&[1, 2], WorkspaceLayout::VerticalStriped);
    let mut actions = Vec::new();
    ws.kill_window(2, true, &screen(), &mut actions);
    assert_eq!(actions, vec![XAction::SoftKill { window: 2 }]);
    assert_eq!(ws.order, vec![1, 2]);
    actions.clear();
    ws.kill_window(2, false, &screen(), &mut actions);
    assert_eq!(actions[0], XAction::Kill { window: 2 });
    assert_eq!(ws.order, vec![1]);
}

#[test]
fn kill_all_windows_empties() {
    let mut ws = workspace(&[1, 2], WorkspaceLayout::VerticalStriped);
    let mut actions = Vec::new();
    ws.kill_all_windows(&mut actions);
    assert!(ws.order.is_empty());
    assert!(ws.windows.is_empty());
    assert_eq!(actions.len(), 4);
    assert!(actions.contains(&XAction::Kill { window: 1 }));
    assert!(actions.contains(&XAction::UnmapWindow { window: 2 }));
}

#[test]
fn next_layout_lays_out_twice() {
    let mut ws = workspace(&[1], WorkspaceLayout::HorizontalStriped);
    let mut actions = Vec::new();
    ws.next_layout(&screen(), &mut actions);
    assert_eq!(ws.layout, WorkspaceLayout::VerticalStriped);
    assert_eq!(actions.len(), 12);
    actions.clear();
    ws.set_layout(WorkspaceLayout::Tiled, &screen(), &mut actions);
    assert_eq!(ws.layout, WorkspaceLayout::Tiled);
    assert_eq!(actions.len(), 6);
}

#[test]
fn softkill_and_dock_properties() {
    let atoms = vec!["WM_TAKE_FOCUS".to_string(), "WM_DELETE_WINDOW".to_string()];
    assert!(Workspace::is_softkill_supported(&Some("ATOM".to_string()), &atoms));
    assert!(!Workspace::is_softkill_supported(&Some("CARDINAL".to_string()), &atoms));
    assert!(!Workspace::is_softkill_supported(&None, &atoms));
    let dock = vec!["_NET_WM_WINDOW_TYPE_DOCK".to_string()];
    assert!(WindowManager::atom_window_type_dock(&Some("ATOM".to_string()), &dock));
    assert!(!WindowManager::atom_window_type_dock(&Some("ATOM".to_string()), &atoms));
}

#[test]
fn rename_keeps_the_windows() {
    let mut ws = workspace(&[1, 2], WorkspaceLayout::Tiled);
    ws.rename(8);
    assert_eq!(ws.name, 8);
    assert_eq!(ws.order, vec![1, 2]);
    assert_eq!(ws.layout, WorkspaceLayout::Tiled);
}
