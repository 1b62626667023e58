use webwm::config::{default_config, Action, Keybinding, WindowRule};
use webwm::dispatch::{handle_key, on_window_created, on_window_destroyed, Effect, KeyOutcome, Viewport};
use webwm::input::{find_binding, keysym_to_string, Modifiers, KEY_RETURN};
use webwm::manager::WorkspaceManager;
use webwm::rules::resolve_rules;
use webwm::window::Window;
use webwm::workspace::LayoutMode;

fn vp() -> Viewport {
    Viewport { width: 1920, height: 1080, gaps: 10, bar_height: 30 }
}

fn strings(v: &[&str]) -> Vec<String> {
    v.iter().map(|s| s.to_string()).collect()
}

#[test]
fn modifiers_match_exactly() {
    let sup = Modifiers::new(false, false, false, true);
    assert!(sup.matches(&strings(&["Super"])));
    assert!(sup.matches(&strings(&["logo"])));
    assert!(sup.matches(&strings(&["MOD4", "unknown"])));
    assert!(!sup.matches(&strings(&[])));
    let sup_shift = Modifiers::new(false, false, true, true);
    assert!(!sup_shift.matches(&strings(&["Super"])));
    assert!(sup_shift.matches(&strings(&["shift", "super"])));
    let ctrl_alt = Modifiers::new(true, true, false, false);
    assert!(ctrl_alt.matches(&strings(&["Control", "Mod1"])));
    assert!(ctrl_alt.matches(&strings(&["ctrl", "alt", "ctrl"])));
    assert!(Modifiers::new(false, false, false, false).matches(&strings(&["hyper"])));
}

#[test]
fn key_names() {
    assert_eq!(keysym_to_string(KEY_RETURN), "Return");
    assert_eq!(keysym_to_string(0xff1b), "Escape");
    assert_eq!(keysym_to_string(0xff08), "BackSpace");
    assert_eq!(keysym_to_string(0xff09), "Tab");
    assert_eq!(keysym_to_string(0x20), "space");
    assert_eq!(keysym_to_string(0x71), "q");
    assert_eq!(keysym_to_string(0x30), "0");
    assert_eq!(keysym_to_string(0xffbe), "F1");
    assert_eq!(keysym_to_string(0xffc9), "F12");
    assert_eq!(keysym_to_string(0xff51), "Left");
    assert_eq!(keysym_to_string(0xff54), "Down");
    assert_eq!(keysym_to_string(0x41), "Unknown(65)");
}

#[test]
fn super_return_does_not_fire_with_shift() {
    let c = default_config();
    let sup = Modifiers::new(false, false, false, true);
    let sup_shift = Modifiers::new(false, false, true, true);
    assert_eq!(find_binding(&c.keybindings, "Return", sup), Some(0));
    assert_eq!(find_binding(&c.keybindings, "return", sup), Some(0));
    assert_eq!(find_binding(&c.keybindings, "Return", sup_shift), None);

    let mut m = WorkspaceManager::new();
    let out = handle_key(&mut m, &c.keybindings, KEY_RETURN, true, sup_shift, vp());
    assert!(matches!(out, KeyOutcome::Forward));
    let out = handle_key(&mut m, &c.keybindings, KEY_RETURN, true, sup, vp());
    assert!(matches!(out, KeyOutcome::Handled { effect: Effect::Spawn { ref command } } if command == "alacritty"));
    let out = handle_key(&mut m, &c.keybindings, KEY_RETURN, false, sup, vp());
    assert!(matches!(out, KeyOutcome::Forward));
}

fn bind(key: &str, mods: &[&str], action: Action) -> Keybinding {
    Keybinding { key: key.to_string(), modifiers: strings(mods), action }
}

#[test]
fn first_matching_binding_wins() {
    let bs = vec![
        bind("q", &["super"], Action::SwitchWorkspace { workspace: 3 }),
        bind("Q", &["Super"], Action::SwitchWorkspace { workspace: 4 }),
    ];
    let mut m = WorkspaceManager::new();
    let sup = Modifiers::new(false, false, false, true);
    let out = handle_key(&mut m, &bs, 0x71, true, sup, vp());
    assert!(matches!(out, KeyOutcome::Handled { effect: Effect::Nothing }));
    assert_eq!(m.active_workspace_id(), 3);
}

#[test]
fn focus_move_and_close_actions() {
    let sup = Modifiers::new(false, false, false, true);
    let bs = vec![
        bind("Left", &["Super"], Action::Focus { direction: "left".to_string() }),
        bind("Right", &["Super"], Action::Focus { direction: "right".to_string() }),
        bind("2", &["Super", "Shift"], Action::Move { workspace: 2 }),
        bind("q", &["Super"], Action::Close),
        bind("t", &["Super"], Action::ToggleFloating),
        bind("c", &["Super"], Action::Custom { js: "f()".to_string() }),
        bind("x", &["Super"], Action::Focus { direction: "sideways".to_string() }),
    ];
    let mut m = WorkspaceManager::new();
    let out = handle_key(&mut m, &bs, 0x71, true, sup, vp());
    assert!(matches!(out, KeyOutcome::Handled { effect: Effect::Nothing }));
    for id in 1..=3 {
        m.add_window_to_active(Window::new(id, String::new()));
    }
    let out = handle_key(&mut m, &bs, 0xff51, true, sup, vp());
    assert!(matches!(out, KeyOutcome::Handled { effect: Effect::Focus { window: 2 } }));
    let out = handle_key(&mut m, &bs, 0xff53, true, sup, vp());
    assert!(matches!(out, KeyOutcome::Handled { effect: Effect::Focus { window: 3 } }));
    let out = handle_key(&mut m, &bs, 0x71, true, sup, vp());
    assert!(matches!(out, KeyOutcome::Handled { effect: Effect::Close { window: 3 } }));
    let out = handle_key(&mut m, &bs, 0x78, true, sup, vp());
    assert!(matches!(out, KeyOutcome::Handled { effect: Effect::Nothing }));
    assert_eq!(m.active_workspace().focused_window_idx, Some(2));
    let out = handle_key(&mut m, &bs, 0x74, true, sup, vp());
    assert!(matches!(out, KeyOutcome::Handled { effect: Effect::Nothing }));
    let out = handle_key(&mut m, &bs, 0x63, true, sup, vp());
    assert!(matches!(out, KeyOutcome::Handled { effect: Effect::Nothing }));
    let sup_shift = Modifiers::new(false, false, true, true);
    let out = handle_key(&mut m, &bs, 0x32, true, sup_shift, vp());
    assert!(matches!(out, KeyOutcome::Handled { effect: Effect::Nothing }));
    assert_eq!(m.find_window_workspace(3), Some(2));
    assert_eq!(m.active_workspace().len(), 2);
    // The two windows left are retiled into two columns.
    assert_eq!(m.active_workspace().windows[0].geometry.unwrap().w, (1920 - 30) / 2);
}

#[test]
fn rules_apply_first_of_each_kind() {
    let rules = vec![
        WindowRule { app_id: "firefox".to_string(), workspace: None, floating: Some(true), css_class: None },
        WindowRule { app_id: "firefox".to_string(), workspace: Some(2), floating: Some(false), css_class: Some("web".to_string()) },
        WindowRule { app_id: "Firefox".to_string(), workspace: Some(5), floating: None, css_class: None },
        WindowRule { app_id: "firefox".to_string(), workspace: Some(3), floating: None, css_class: Some("other".to_string()) },
    ];
    let r = resolve_rules(&rules, "firefox");
    assert_eq!(r.workspace, Some(2));
    assert_eq!(r.floating, Some(true));
    assert_eq!(r.css_class.as_deref(), Some("web"));
    let r = resolve_rules(&rules, "firefox-esr");
    assert_eq!(r.workspace, None);
    assert_eq!(r.floating, None);
    assert_eq!(r.css_class, None);
}

#[test]
fn window_creation_follows_rules() {
    let rules = vec![
        WindowRule { app_id: "term".to_string(), workspace: Some(4), floating: Some(true), css_class: Some("t".to_string()) },
        WindowRule { app_id: "lost".to_string(), workspace: Some(40), floating: None, css_class: None },
    ];
    let mut m = WorkspaceManager::new();
    assert_eq!(on_window_created(&mut m, &rules, 1, "term".to_string(), vp()), 4);
    let w = &m.get_workspace(4).unwrap().windows[0];
    assert!(w.floating);
    assert_eq!(w.css_class.as_deref(), Some("t"));
    assert_eq!(on_window_created(&mut m, &rules, 2, "lost".to_string(), vp()), 1);
    assert_eq!(on_window_created(&mut m, &rules, 3, String::new(), vp()), 1);
    assert_eq!(m.active_workspace().len(), 2);
    assert!(!m.active_workspace().windows[0].floating);
    assert!(m.active_workspace().windows[0].geometry.is_some());
    assert!(on_window_destroyed(&mut m, 2, vp()));
    assert!(!on_window_destroyed(&mut m, 2, vp()));
    assert_eq!(m.active_workspace().windows[0].geometry.unwrap().w, 1900);
    assert!(m.set_layout_mode(1, LayoutMode::Monocle));
}

#[test]
fn key_names_compare_in_full_lower_case() {
    let none = Modifiers::new(false, false, false, false);
    // The Kelvin sign lower-cases to 'k'.
    let bs = vec![bind("\u{212A}", &[], Action::SwitchWorkspace { workspace: 6 })];
    assert_eq!(find_binding(&bs, "k", none), Some(0));
    let mut m = WorkspaceManager::new();
    let out = handle_key(&mut m, &bs, 0x6b, true, none, vp());
    assert!(matches!(out, KeyOutcome::Handled { effect: Effect::Nothing }));
    assert_eq!(m.active_workspace_id(), 6);
    assert!(webwm::input::binding_matches_lowered("k", "k", none, &[]));
    assert!(!webwm::input::binding_matches_lowered("k", "K", none, &[]));
}

#[test]
fn no_op_actions_do_not_relayout() {
    let sup = Modifiers::new(false, false, false, true);
    let bs = vec![
        bind("t", &["Super"], Action::ToggleFloating),
        bind("c", &["Super"], Action::Custom { js: "f()".to_string() }),
        bind("q", &["Super"], Action::Close),
        bind("Return", &["Super"], Action::Spawn { command: "true".to_string() }),
        bind("Right", &["Super"], Action::Focus { direction: "right".to_string() }),
    ];
    let mut m = WorkspaceManager::new();
    m.add_window_to_active(Window::new(1, String::new()));
    assert!(m.relayout_active(1920, 1080, 10, 30));
    let before = m.active_workspace().windows[0].geometry;
    let other = Viewport { width: 800, height: 600, gaps: 0, bar_height: 0 };
    for sym in [0x74, 0x63, 0x71, KEY_RETURN] {
        handle_key(&mut m, &bs, sym, true, sup, other);
        assert_eq!(m.active_workspace().windows[0].geometry, before);
    }
    handle_key(&mut m, &bs, 0xff53, true, sup, other);
    assert_ne!(m.active_workspace().windows[0].geometry, before);
}
