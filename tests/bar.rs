use webwm::bar::{Bar, BarConfig, BarElement, BarRenderer, BarStyle, Position, Rgba, Widget, truncate_title};
use webwm::manager::WorkspaceManager;
use webwm::raster::{get_char_bitmap, BarTextureRenderer};
use webwm::window::{Rect, Window};

fn no_style() -> BarStyle {
    BarStyle { background: None, color: None, active_background: None, active_color: None, workspace_background: None }
}

fn config(position: Position, widgets: Vec<Widget>) -> BarConfig {
    BarConfig { id: "test".to_string(), position, height: 30, class: "bar".to_string(), widgets }
}

#[test]
fn test_bar_geometry() {
    let config = BarConfig {
        id: "test".to_string(),
        position: Position::Top,
        height: 30,
        class: "bar".to_string(),
        widgets: vec![],
    };

    let bar = Bar::new(config, 1920);
    assert_eq!(bar.geometry.y, 0);
    assert_eq!(bar.geometry.h, 30);
}

#[test]
fn bar_geometry_per_side() {
    assert_eq!(Bar::new(config(Position::Bottom, vec![]), 1920).geometry, Rect { x: 0, y: 1050, w: 1920, h: 30 });
    assert_eq!(Bar::new(config(Position::Left, vec![]), 1920).geometry, Rect { x: 0, y: 0, w: 30, h: 1080 });
    let right = Bar::new(config(Position::Right, vec![]), 1920);
    assert_eq!(right.geometry, Rect { x: 1890, y: 0, w: 30, h: 1080 });
    assert!(!right.is_horizontal());
    assert_eq!(right.height(), 30);
}

#[test]
fn title_truncation() {
    assert_eq!(truncate_title("ABCDEFGHIJ", Some(5)), "AB...");
    assert_eq!(truncate_title("ABCDEFGHIJ", Some(5)).chars().count(), 5);
    assert_eq!(truncate_title("ABCDE", Some(5)), "ABCDE");
    assert_eq!(truncate_title("ABCDEFGHIJ", None), "ABCDEFGHIJ");
    assert_eq!(truncate_title("ABCDEF", Some(2)), "...");
    assert_eq!(truncate_title("éèêëàâ", Some(5)), "éè...");
}

fn texts(els: &[BarElement]) -> Vec<String> {
    els.iter()
        .filter_map(|e| match e {
            BarElement::Text { text, .. } => Some(text.clone()),
            _ => None,
        })
        .collect()
}

#[test]
fn workspace_indicators() {
    let mut m = WorkspaceManager::new();
    m.add_window_to_workspace(3, Window::new(1, String::new()));
    let r = BarRenderer::new(vec![config(Position::Top, vec![Widget::Workspaces { display: "all".to_string() }])], 1920);
    let els = r.render_bars_at(&m, None, &[], 0);
    assert_eq!(texts(&els), vec!["1", "2", "3", "4", "5", "6", "7", "8", "9"]);
    // Background, active box and label, eight labels, one box and one dot for workspace 3.
    assert_eq!(els.len(), 1 + 2 + 8 + 2);
    match &els[0] {
        BarElement::Rectangle { geometry, color } => {
            assert_eq!(*geometry, Rect { x: 0, y: 0, w: 1920, h: 30 });
            assert_eq!(*color, Rgba::new(28, 28, 46, 242));
        }
        _ => panic!("background first"),
    }
    match &els[1] {
        BarElement::Rectangle { geometry, color } => {
            assert_eq!(*geometry, Rect { x: 16, y: 5, w: 40, h: 20 });
            assert_eq!(*color, Rgba::new(138, 181, 250, 255));
        }
        _ => panic!("active box"),
    }
    assert!(els.iter().any(|e| matches!(e, BarElement::Circle { center: (144, 17), radius: 3, .. })));
    assert!(els.iter().any(|e| matches!(e, BarElement::Rectangle { geometry: Rect { x: 112, y: 5, w: 40, h: 20 }, .. })));
}

#[test]
fn long_names_show_ids_and_style_overrides() {
    let mut m = WorkspaceManager::new();
    m.add_workspace(webwm::workspace::Workspace::new(1, "mail".to_string(), webwm::workspace::LayoutMode::Tiling));
    let style = BarStyle { background: Some(Rgba::new(1, 2, 3, 4)), ..no_style() };
    let r = BarRenderer::new(vec![config(Position::Top, vec![Widget::Workspaces { display: String::new() }])], 800);
    let els = r.render_bars_at(&m, None, &[style], 0);
    assert_eq!(texts(&els)[0], "1");
    assert!(matches!(els[0], BarElement::Rectangle { color: Rgba { r: 1, g: 2, b: 3, a: 4 }, .. }));
}

#[test]
fn title_clock_spacer_and_tray() {
    let m = WorkspaceManager::new();
    let widgets = vec![
        Widget::WindowTitle { max_width: Some(5) },
        Widget::Spacer { flex: 2 },
        Widget::SystemTray,
        Widget::Clock { format: "%H:%M".to_string() },
    ];
    let r = BarRenderer::new(vec![config(Position::Top, widgets)], 1920);
    let els = r.render_bars_at(&m, Some("ABCDEFGHIJ".to_string()), &[], 3600 * 13 + 60 * 7);
    assert_eq!(texts(&els), vec!["AB...", "13:07"]);
    assert!(matches!(els[1], BarElement::Text { position: (16, 8), size: 13, .. }));
    // 16 + 5 * 8 + 16 = 72, then 200 for the spacer.
    assert!(matches!(els[2], BarElement::Text { position: (272, 8), .. }));
    let els = r.render_bars_at(&m, None, &[], 0);
    assert_eq!(texts(&els), vec!["00:00"]);
    assert!(matches!(els[1], BarElement::Text { position: (216, 8), .. }));
    assert!(r.render_bars(&m, None, &[]).len() == 2);
}

#[test]
fn glyphs() {
    assert_eq!(get_char_bitmap('0'), [0x0E, 0x11, 0x13, 0x15, 0x19, 0x11, 0x0E]);
    assert_eq!(get_char_bitmap('a'), get_char_bitmap('A'));
    assert_eq!(get_char_bitmap(':'), [0x00, 0x0C, 0x0C, 0x00, 0x0C, 0x0C, 0x00]);
    assert_eq!(get_char_bitmap('~'), [0; 7]);
}

fn px(buf: &[u8], w: usize, x: usize, y: usize) -> [u8; 4] {
    let i = (y * w + x) * 4;
    [buf[i], buf[i + 1], buf[i + 2], buf[i + 3]]
}

#[test]
fn rectangle_clips_and_blends() {
    let r = BarTextureRenderer::new(4, 3);
    let els = vec![
        BarElement::Rectangle { geometry: Rect { x: -2, y: 1, w: 4, h: 10 }, color: Rgba::new(255, 0, 0, 255) },
        BarElement::Rectangle { geometry: Rect { x: 1, y: 0, w: 1, h: 3 }, color: Rgba::new(0, 0, 255, 128) },
    ];
    let buf = r.render_to_buffer(&els);
    assert_eq!(buf.len(), 4 * 3 * 4);
    assert_eq!(px(&buf, 4, 0, 0), [0, 0, 0, 0]);
    assert_eq!(px(&buf, 4, 0, 1), [255, 0, 0, 255]);
    assert_eq!(px(&buf, 4, 2, 2), [0, 0, 0, 0]);
    // Blue at half opacity over nothing keeps its color.
    assert_eq!(px(&buf, 4, 1, 0), [0, 0, 255, 128]);
    // Blue at 128 over opaque red.
    let oa = 128 * 255 + 255 * (255 - 128);
    assert_eq!(px(&buf, 4, 1, 1), [(255 * 255 * 127 / oa) as u8, 0, (255 * 128 * 255 / oa) as u8, (oa / 255) as u8]);
    // A fully transparent draw changes nothing.
    let clear = r.render_to_buffer(&[BarElement::Rectangle { geometry: Rect { x: 0, y: 0, w: 4, h: 3 }, color: Rgba::new(9, 9, 9, 0) }]);
    assert!(clear.iter().all(|b| *b == 0));
    assert!(BarTextureRenderer::new(0, 5).render_to_buffer(&els).is_empty());
}

#[test]
fn circle_within_radius() {
    let r = BarTextureRenderer::new(7, 7);
    let buf = r.render_to_buffer(&[BarElement::Circle { center: (3, 3), radius: 2, color: Rgba::new(0, 255, 0, 255) }]);
    let lit: usize = (0..49).filter(|p| buf[p * 4 + 3] != 0).count();
    // Points with dx*dx + dy*dy <= 4.
    assert_eq!(lit, 13);
    assert_eq!(px(&buf, 7, 5, 3), [0, 255, 0, 255]);
    assert_eq!(px(&buf, 7, 5, 5), [0, 0, 0, 0]);
}

#[test]
fn text_uses_glyphs_six_apart() {
    let r = BarTextureRenderer::new(12, 7);
    let buf = r.render_to_buffer(&[BarElement::Text { position: (0, 0), text: "1-".to_string(), color: Rgba::new(255, 255, 255, 255), size: 13 }]);
    // Glyph '1' row 0 is 0x04: only column 2 set.
    assert_eq!(px(&buf, 12, 2, 0), [255, 255, 255, 255]);
    assert_eq!(px(&buf, 12, 1, 0), [0, 0, 0, 0]);
    // '-' starts at x = 6; row 3 is 0x1F.
    for x in 6..11 {
        assert_eq!(px(&buf, 12, x, 3)[3], 255);
    }
    assert_eq!(px(&buf, 12, 11, 3)[3], 0);
}
