use webwm::layout::relayout;
use webwm::manager::WorkspaceManager;
use webwm::window::{Rect, Window};
use webwm::workspace::{LayoutMode, Workspace};

fn ws_with(mode: LayoutMode, n: u64) -> Workspace {
    let mut ws = Workspace::new(1, "a".to_string(), mode);
    for id in 1..=n {
        ws.add_window(Window::new(id, String::from("app")));
    }
    ws
}

fn rects(ws: &Workspace) -> Vec<Option<Rect>> {
    ws.windows.iter().map(|w| w.geometry).collect()
}

#[test]
fn tiling_three_columns() {
    let mut ws = ws_with(LayoutMode::Tiling, 3);
    assert!(relayout(&mut ws, 1920, 1080, 10, 30));
    // (1920 - 40) / 3 = 626; height (1080 - 30) - 20 = 1030.
    assert_eq!(
        rects(&ws),
        vec![
            Some(Rect { x: 10, y: 40, w: 626, h: 1030 }),
            Some(Rect { x: 646, y: 40, w: 626, h: 1030 }),
            Some(Rect { x: 1282, y: 40, w: 626, h: 1030 }),
        ]
    );
    // Columns and gaps fit in the width.
    assert!(3 * 626 + 4 * 10 <= 1920);
}

#[test]
fn tiling_truncates_leftover_pixels() {
    let mut ws = ws_with(LayoutMode::Tiling, 7);
    assert!(relayout(&mut ws, 1000, 500, 3, 0));
    let w = (1000 - 3 * 8) / 7;
    assert_eq!(w, 139);
    for (i, r) in rects(&ws).into_iter().enumerate() {
        let r = r.unwrap();
        assert_eq!(r.w, 139);
        assert_eq!(r.x, 3 + i as i32 * (139 + 3));
    }
    assert!(7 * 139 + 8 * 3 <= 1000);
}

#[test]
fn tiling_overfull_width_rounds_toward_zero() {
    let mut ws = ws_with(LayoutMode::Tiling, 2);
    assert!(relayout(&mut ws, 9, 100, 4, 0));
    // (9 - 12) / 2 rounds toward zero.
    assert_eq!(ws.windows[0].geometry.unwrap().w, -1);
}

#[test]
fn tiling_of_nothing_is_a_no_op() {
    let mut ws = ws_with(LayoutMode::Tiling, 0);
    assert!(relayout(&mut ws, 1920, 1080, 10, 30));
    assert!(ws.windows.is_empty());
}

#[test]
fn floating_cascade() {
    let mut ws = ws_with(LayoutMode::Floating, 2);
    assert!(relayout(&mut ws, 1920, 1080, 10, 30));
    // base x (1920 - 800) / 2 = 560; base y 30 + (1050 - 600) / 2 = 255.
    assert_eq!(
        rects(&ws),
        vec![
            Some(Rect { x: 560, y: 255, w: 800, h: 600 }),
            Some(Rect { x: 590, y: 285, w: 800, h: 600 }),
        ]
    );
}

#[test]
fn monocle_focus_next_moves_only_new_focus() {
    let mut ws = ws_with(LayoutMode::Monocle, 3);
    let marker = Rect { x: 1, y: 2, w: 3, h: 4 };
    for w in ws.windows.iter_mut() {
        w.geometry = Some(marker);
    }
    assert_eq!(ws.focused_window_idx, Some(2));
    ws.focus_next();
    assert_eq!(ws.focused_window_idx, Some(0));
    assert!(relayout(&mut ws, 1920, 1080, 10, 30));
    assert_eq!(ws.windows[0].geometry, Some(Rect { x: 0, y: 30, w: 1920, h: 1050 }));
    assert_eq!(ws.windows[1].geometry, Some(marker));
    assert_eq!(ws.windows[2].geometry, Some(marker));
}

#[test]
fn layout_that_does_not_fit_moves_nothing() {
    let mut ws = ws_with(LayoutMode::Monocle, 1);
    assert!(!relayout(&mut ws, 100, i32::MIN, 0, 10));
    assert_eq!(ws.windows[0].geometry, None);
    let mut ws = ws_with(LayoutMode::Tiling, 1);
    assert!(!relayout(&mut ws, i32::MAX, 100, -1000, 0));
    assert_eq!(ws.windows[0].geometry, None);
}

#[test]
fn relayout_active_touches_only_active() {
    let mut m = WorkspaceManager::new();
    m.add_window_to_workspace(2, Window::new(1, String::new()));
    m.add_window_to_active(Window::new(2, String::new()));
    assert!(m.relayout_active(1920, 1080, 10, 0));
    assert_eq!(m.get_workspace(1).unwrap().windows[0].geometry, Some(Rect { x: 10, y: 10, w: 1900, h: 1060 }));
    assert_eq!(m.get_workspace(2).unwrap().windows[0].geometry, None);
}

#[test]
fn monocle_shows_only_focused() {
    let mut ws = ws_with(LayoutMode::Monocle, 3);
    ws.focus_next();
    assert_eq!(webwm::layout::visible_windows(&ws), vec![1]);
    ws.layout_mode = LayoutMode::Tiling;
    assert_eq!(webwm::layout::visible_windows(&ws), vec![1, 2, 3]);
    let empty = ws_with(LayoutMode::Monocle, 0);
    assert!(webwm::layout::visible_windows(&empty).is_empty());
}

#[test]
fn mutable_accessors() {
    let mut m = WorkspaceManager::new();
    m.add_window_to_active(Window::new(8, String::from("x")));
    if let Some(w) = m.focused_window_mut() {
        w.floating = true;
    }
    assert!(m.focused_window().unwrap().floating);
    m.active_workspace_mut().layout_mode = LayoutMode::Floating;
    assert_eq!(m.active_workspace().layout_mode, LayoutMode::Floating);
    m.get_workspace_mut(5).unwrap().name = "five".to_string();
    assert_eq!(m.get_workspace(5).unwrap().name, "five");
    assert!(m.get_workspace_mut(50).is_none());
    let mut ws = ws_with(LayoutMode::Tiling, 2);
    ws.focused_window_mut().unwrap().app_id = "y".to_string();
    assert_eq!(ws.windows[1].app_id, "y");
}
