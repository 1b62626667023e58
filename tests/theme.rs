use webwm::bar::{BarConfig, BarRenderer, Position, Rgba};
use webwm::config::{default_config, parse_css_variable, parse_duration, parse_u32};
use webwm::theme::{get_border_color, get_border_width, parse_hex_color};
use webwm::workspace::LayoutMode;

#[test]
fn hex_colors() {
    assert_eq!(parse_hex_color("#4c7899"), Rgba::new(0x4c, 0x78, 0x99, 255));
    assert_eq!(parse_hex_color("##FFffFF"), Rgba::new(255, 255, 255, 255));
    assert_eq!(parse_hex_color("123456"), Rgba::new(0x12, 0x34, 0x56, 255));
    assert_eq!(parse_hex_color("#12zz+f"), Rgba::new(0x12, 0, 15, 255));
    assert_eq!(parse_hex_color("#fff"), Rgba::new(128, 128, 128, 255));
}

#[test]
fn border_color_and_width() {
    let c = default_config();
    assert_eq!(get_border_color(true, None, &c.theme), Rgba::new(0x4c, 0x78, 0x99, 255));
    assert_eq!(get_border_color(false, None, &c.theme), Rgba::new(0x33, 0x33, 0x33, 255));
    assert_eq!(get_border_color(false, Some(Rgba::new(1, 2, 3, 4)), &c.theme), Rgba::new(1, 2, 3, 4));
    assert_eq!(get_border_width(None, &c.layout), 2);
    assert_eq!(get_border_width(Some(5), &c.layout), 5);
}

#[test]
fn layout_mode_names() {
    assert_eq!(LayoutMode::from("Floating"), LayoutMode::Floating);
    assert_eq!(LayoutMode::from("MONOCLE"), LayoutMode::Monocle);
    assert_eq!(LayoutMode::from("tiling"), LayoutMode::Tiling);
    assert_eq!(LayoutMode::from("spiral"), LayoutMode::Tiling);
}

#[test]
fn css_variables() {
    assert_eq!(parse_css_variable("  --accent :  #fff ;; "), Some(("--accent".to_string(), "#fff".to_string())));
    assert_eq!(parse_css_variable("a:b:c"), Some(("a".to_string(), "b:c".to_string())));
    assert_eq!(parse_css_variable("no colon"), None);
    assert_eq!(parse_css_variable(":"), Some((String::new(), String::new())));
}

#[test]
fn durations() {
    assert_eq!(parse_duration(Some("150ms")), 150);
    assert_eq!(parse_duration(Some("150")), 150);
    assert_eq!(parse_duration(Some("150msms")), 150);
    assert_eq!(parse_duration(Some("+7ms")), 7);
    assert_eq!(parse_duration(Some("fast")), 200);
    assert_eq!(parse_duration(Some("4294967296")), 200);
    assert_eq!(parse_duration(None), 200);
    assert_eq!(parse_u32("4294967295"), Some(u32::MAX));
    assert_eq!(parse_u32("+"), None);
    assert_eq!(parse_u32("-1"), None);
}

#[test]
fn bar_height_is_first_bar() {
    let cfg = |h: u32| BarConfig { id: String::new(), position: Position::Top, height: h, class: String::new(), widgets: vec![] };
    assert_eq!(BarRenderer::new(vec![cfg(24), cfg(40)], 1920).bar_height(), 24);
    assert_eq!(BarRenderer::new(vec![], 1920).bar_height(), 0);
}
