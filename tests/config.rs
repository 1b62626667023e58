use webwm::clock::{format_time, format_time_at};
use webwm::config::{default_config, parse_key_combo, Action};

#[test]
fn test_time_formatting() {
    let time = format_time("%H:%M");
    assert!(time.contains(":"));

    let time = format_time("%H:%M:%S");
    assert_eq!(time.matches(":").count(), 2);
}

#[test]
fn test_key_combo_parsing() {
    let (mods, key) = parse_key_combo("Super+Return");
    assert_eq!(mods, vec!["Super"]);
    assert_eq!(key, "Return");

    let (mods, key) = parse_key_combo("Super+Shift+q");
    assert_eq!(mods, vec!["Super", "Shift"]);
    assert_eq!(key, "q");
}

#[test]
fn key_combo_without_plus_is_a_bare_key() {
    let (mods, key) = parse_key_combo("Escape");
    assert!(mods.is_empty());
    assert_eq!(key, "Escape");
    let (mods, key) = parse_key_combo("");
    assert!(mods.is_empty());
    assert_eq!(key, "");
}

#[test]
fn clock_at_epoch_is_two_digit_pairs() {
    let t = format_time_at("%H:%M", 0);
    assert_eq!(t, "00:00");
    assert_eq!(t.len(), 5);
    assert!(t.chars().enumerate().all(|(i, c)| if i == 2 { c == ':' } else { c.is_ascii_digit() }));
    assert_eq!(t.matches(':').count(), 1);
}

#[test]
fn clock_fields() {
    // 1 day, 1 hour, 2 minutes and 3 seconds after the epoch.
    let t = 86400 + 3600 + 120 + 3;
    assert_eq!(format_time_at("%H:%M:%S", t), "01:02:03");
    assert_eq!(format_time_at("%d/%m/%Y %y", t), "02/01/1970 70");
    assert_eq!(format_time_at("%a %b", t), "Mon Jan");
    assert_eq!(format_time_at("100%% %q %", t), "100%% %q %");
    // 400 days: the second year, day 35, so the 2nd month, 5th day.
    let t2 = 400 * 86400;
    assert_eq!(format_time_at("%Y-%m-%d %b", t2), "1971-02-06 Feb");
}

#[test]
fn default_config_has_two_bindings() {
    let c = default_config();
    assert_eq!(c.keybindings.len(), 2);
    assert_eq!(c.keybindings[0].key, "Return");
    assert_eq!(c.keybindings[0].modifiers, vec!["Super"]);
    assert!(matches!(&c.keybindings[0].action, Action::Spawn { command } if command == "alacritty"));
    assert_eq!(c.keybindings[1].key, "q");
    assert!(matches!(c.keybindings[1].action, Action::Close));
    assert_eq!(c.layout.gaps, 10);
    assert_eq!(c.layout.border_width, 2);
    assert_eq!(c.layout.default_mode, "tiling");
    assert_eq!(c.theme.border_focused, "#4c7899");
    assert!(c.window_rules.is_empty());
}
