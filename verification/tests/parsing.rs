use oxidewm::ipc::action_event::WmActionEvent;
use oxidewm::ipc::client::{next_workspace, prev_workspace, switch_workspace};
use oxidewm::ipc::commands::WmCommands;
use oxidewm::windowmanager::movement::Movement;
use oxidewm::workspace::enum_workspace_layout::EnumWorkspaceLayout;
use oxidewm::workspace::enum_workspace_navigation::EnumWorkspaceNavigation;
use oxidewm::workspace::workspace_layout::WorkspaceLayout;
use oxidewm::workspace::workspace_navigation::WorkspaceNavigation;

#[test]
fn movement_ignores_case() {
    assert_eq!(Movement::try_from("LeFt").unwrap(), Movement::Left);
    assert_eq!(Movement::try_from("right").unwrap(), Movement::Right);
    assert_eq!(Movement::try_from("UP").unwrap(), Movement::Up);
    assert_eq!(Movement::try_from("down").unwrap(), Movement::Down);
}

#[test]
fn movement_refuses_unknown_word() {
    assert_eq!(Movement::try_from("sideways").unwrap_err(), "sideways is not a valid movement");
}

#[test]
fn layout_names() {
    assert_eq!(WorkspaceLayout::try_from("Vertical").unwrap(), WorkspaceLayout::VerticalStriped);
    assert_eq!(WorkspaceLayout::try_from("horizontal").unwrap(), WorkspaceLayout::HorizontalStriped);
    assert_eq!(WorkspaceLayout::try_from("TILED").unwrap(), WorkspaceLayout::Tiled);
    assert_eq!(WorkspaceLayout::try_from("grid").unwrap_err(), "grid is not a valid layout");
}

#[test]
fn layout_to_string() {
    assert_eq!(WorkspaceLayout::VerticalStriped.to_string(), "vertical_striped");
    assert_eq!(WorkspaceLayout::HorizontalStriped.to_string(), "horizontal_striped");
    assert_eq!(WorkspaceLayout::Tiled.to_string(), "tiled");
}

#[test]
fn layout_cycle_of_three() {
    let start = WorkspaceLayout::HorizontalStriped;
    let one = start.next();
    let two = one.next();
    assert_eq!(one, WorkspaceLayout::VerticalStriped);
    assert_eq!(two, WorkspaceLayout::Tiled);
    assert_eq!(two.next(), start);
}

#[test]
fn navigation_words_and_digits() {
    assert_eq!(WorkspaceNavigation::try_from("next").unwrap(), WorkspaceNavigation::Next);
    assert_eq!(WorkspaceNavigation::try_from("Previous").unwrap(), WorkspaceNavigation::Previous);
    assert_eq!(WorkspaceNavigation::try_from("next_free").unwrap(), WorkspaceNavigation::NextFree);
    assert_eq!(WorkspaceNavigation::try_from("7").unwrap(), WorkspaceNavigation::Number(7));
    assert!(WorkspaceNavigation::try_from("prev").is_err());
    assert!(WorkspaceNavigation::try_from("12").is_err());
}

#[test]
fn navigation_argument_errors() {
    let missing = WorkspaceNavigation::parse_workspace_navigation(None).unwrap_err();
    assert_eq!(missing.description(), "No argument was passed");
    let bad = WorkspaceNavigation::parse_workspace_navigation(Some("up".to_string())).unwrap_err();
    assert_eq!(bad.description(), "Argumet 'up' could not be parsed");
    let ok = WorkspaceNavigation::parse_workspace_navigation(Some("3".to_string())).unwrap();
    assert_eq!(ok, WorkspaceNavigation::Number(3));
}

#[test]
fn navigation_creates_only_numbered_and_free() {
    assert!(WorkspaceNavigation::NextFree.is_create_if_not_exists());
    assert!(WorkspaceNavigation::Number(4).is_create_if_not_exists());
    assert!(!WorkspaceNavigation::Next.is_create_if_not_exists());
    assert!(!WorkspaceNavigation::Previous.is_create_if_not_exists());
}

#[test]
fn enum_layout_and_navigation() {
    assert_eq!(EnumWorkspaceLayout::try_from("Vertical").unwrap(), EnumWorkspaceLayout::VerticalStriped);
    assert!(EnumWorkspaceLayout::try_from("tiled").is_err());
    assert!(EnumWorkspaceLayout::try_from("nothing").is_err());
    assert_eq!(
        EnumWorkspaceNavigation::parse_enum_workspace_navigation(Some("next".to_string())).unwrap(),
        EnumWorkspaceNavigation::Next
    );
    assert!(EnumWorkspaceNavigation::parse_enum_workspace_navigation(None).is_err());
}

#[test]
fn commands_ignore_case() {
    assert_eq!(WmCommands::try_from("MoveToWorkspace").unwrap(), WmCommands::MoveToWorkspace);
    assert_eq!(WmCommands::try_from("exec").unwrap(), WmCommands::Exec);
    assert_eq!(WmCommands::try_from("FULLSCREEN").unwrap(), WmCommands::Fullscreen);
    assert_eq!(WmCommands::try_from("jump").unwrap_err(), "jump is not a valid command");
}

#[test]
fn quit_workspace_is_not_a_command_name() {
    assert_eq!(
        WmCommands::try_from("quitworkspace").unwrap_err(),
        "quitworkspace is not a valid command"
    );
}

#[test]
fn action_event_description() {
    let e = WmActionEvent::new("focus", Some("left".to_string())).unwrap();
    assert_eq!(e.describe(), "Command: Focus, Args: left");
    let k = WmActionEvent::new("kill", None).unwrap();
    assert_eq!(k.describe(), "Command: Kill");
    assert_eq!(WmActionEvent::new("fly", None).unwrap_err(), "fly is not a valid command");
}

#[test]
fn client_events() {
    let s = switch_workspace(12).unwrap();
    assert_eq!(s.command, WmCommands::GoToWorkspace);
    assert_eq!(s.args, Some("12".to_string()));
    assert_eq!(next_workspace().unwrap().args, Some("next".to_string()));
    assert_eq!(prev_workspace().unwrap().args, Some("prev".to_string()));
}
