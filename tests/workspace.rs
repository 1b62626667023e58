use webwm::manager::WorkspaceManager;
use webwm::window::Window;
use webwm::workspace::{LayoutMode, Workspace};

fn win(id: u64) -> Window {
    Window::new(id, String::from("app"))
}

#[test]
fn test_workspace_creation() {
    let ws = Workspace::new(1, "main".to_string(), LayoutMode::Tiling);
    assert_eq!(ws.id, 1);
    assert_eq!(ws.name, "main");
    assert!(ws.is_empty());
}

#[test]
fn test_workspace_manager() {
    let mut manager = WorkspaceManager::new();

    // Should have 9 default workspaces
    assert_eq!(manager.workspace_count(), 9);

    // Should start on workspace 1
    assert_eq!(manager.active_workspace_id(), 1);

    // Switch to workspace 2
    assert!(manager.switch_to_workspace(2));
    assert_eq!(manager.active_workspace_id(), 2);

    // Try to switch to non-existent workspace
    assert!(!manager.switch_to_workspace(99));
}

#[test]
fn test_workspace_cycling() {
    let mut manager = WorkspaceManager::new();

    // Start at 1
    assert_eq!(manager.active_workspace_id(), 1);

    // Cycle forward
    manager.cycle_workspace_next();
    assert_eq!(manager.active_workspace_id(), 2);

    // Cycle backward
    manager.cycle_workspace_prev();
    assert_eq!(manager.active_workspace_id(), 1);

    // Cycle backward from 1 should wrap to 9
    manager.cycle_workspace_prev();
    assert_eq!(manager.active_workspace_id(), 9);
}

#[test]
fn default_workspaces_are_named_by_number() {
    let manager = WorkspaceManager::new();
    let names: Vec<String> = manager.all_workspaces().iter().map(|w| w.name.clone()).collect();
    assert_eq!(names, vec!["1", "2", "3", "4", "5", "6", "7", "8", "9"]);
    assert!(manager.all_workspaces().iter().all(|w| w.layout_mode == LayoutMode::Tiling));
}

#[test]
fn add_window_focuses_new_last() {
    let mut ws = Workspace::new(1, "a".to_string(), LayoutMode::Tiling);
    ws.add_window(win(10));
    assert_eq!(ws.focused_window_idx, Some(0));
    ws.add_window(win(11));
    ws.add_window(win(12));
    assert_eq!(ws.focused_window_idx, Some(2));
    assert_eq!(ws.focused_window().map(|w| w.id), Some(12));
    assert_eq!(ws.len(), 3);
}

#[test]
fn remove_focused_window_keeps_focus_in_range() {
    let mut ws = Workspace::new(1, "a".to_string(), LayoutMode::Tiling);
    for id in 1..=4 {
        ws.add_window(win(id));
    }
    assert_eq!(ws.focused_window_idx, Some(3));
    assert!(ws.remove_window(4));
    assert_eq!(ws.focused_window_idx, Some(2));
    assert!(ws.focused_window_idx.unwrap() < 3);
    assert!(!ws.remove_window(4));
    assert_eq!(ws.len(), 3);
}

#[test]
fn remove_last_window_clears_focus() {
    let mut ws = Workspace::new(1, "a".to_string(), LayoutMode::Tiling);
    ws.add_window(win(7));
    assert!(ws.remove_window(7));
    assert_eq!(ws.focused_window_idx, None);
    assert!(ws.is_empty());
}

#[test]
fn remove_before_focus_keeps_index() {
    let mut ws = Workspace::new(1, "a".to_string(), LayoutMode::Tiling);
    for id in 1..=3 {
        ws.add_window(win(id));
    }
    ws.focus_window(2);
    assert_eq!(ws.focused_window_idx, Some(1));
    assert!(ws.remove_window(1));
    assert_eq!(ws.focused_window_idx, Some(1));
    assert_eq!(ws.focused_window().map(|w| w.id), Some(3));
}

#[test]
fn focus_cycles_both_ways() {
    let mut ws = Workspace::new(1, "a".to_string(), LayoutMode::Tiling);
    ws.focus_next();
    assert_eq!(ws.focused_window_idx, None);
    for id in 1..=3 {
        ws.add_window(win(id));
    }
    ws.focus_next();
    assert_eq!(ws.focused_window_idx, Some(0));
    ws.focus_prev();
    assert_eq!(ws.focused_window_idx, Some(2));
    ws.focus_prev();
    assert_eq!(ws.focused_window_idx, Some(1));
    assert!(!ws.focus_window(99));
    assert_eq!(ws.focused_window_idx, Some(1));
}

#[test]
fn cycle_round_trip_from_every_workspace() {
    let mut manager = WorkspaceManager::new();
    for id in 1..=9 {
        assert!(manager.switch_to_workspace(id));
        manager.cycle_workspace_next();
        manager.cycle_workspace_prev();
        assert_eq!(manager.active_workspace_id(), id);
    }
    manager.switch_to_workspace(9);
    manager.cycle_workspace_next();
    assert_eq!(manager.active_workspace_id(), 1);
}

#[test]
fn move_window_between_workspaces() {
    let mut manager = WorkspaceManager::new();
    manager.add_window_to_active(win(5));
    manager.add_window_to_active(win(6));
    assert_eq!(manager.find_window_workspace(5), Some(1));
    assert!(manager.move_window_to_workspace(5, 3));
    assert_eq!(manager.find_window_workspace(5), Some(3));
    assert_eq!(manager.get_workspace_windows(1).len(), 1);
    assert_eq!(manager.get_workspace(3).unwrap().focused_window_idx, Some(0));
    assert!(!manager.move_window_to_workspace(5, 42));
    assert_eq!(manager.find_window_workspace(5), Some(3));
    assert!(!manager.move_window_to_workspace(77, 2));
    assert_eq!(manager.get_workspace_windows(42).len(), 0);
}

#[test]
fn remove_window_from_any_workspace() {
    let mut manager = WorkspaceManager::new();
    assert!(manager.add_window_to_workspace(4, win(9)));
    assert!(!manager.add_window_to_workspace(40, win(10)));
    assert!(manager.remove_window(9));
    assert!(!manager.remove_window(9));
    assert_eq!(manager.find_window_workspace(9), None);
}

#[test]
fn add_workspace_replaces_or_appends() {
    let mut manager = WorkspaceManager::new();
    manager.add_workspace(Workspace::new(3, "web".to_string(), LayoutMode::Monocle));
    assert_eq!(manager.workspace_count(), 9);
    assert_eq!(manager.all_workspaces()[2].name, "web");
    manager.add_workspace(Workspace::new(10, "ten".to_string(), LayoutMode::Floating));
    assert_eq!(manager.workspace_count(), 10);
    assert_eq!(manager.all_workspaces()[9].id, 10);
    assert!(manager.set_layout_mode(10, LayoutMode::Tiling));
    assert!(!manager.set_layout_mode(11, LayoutMode::Tiling));
}
