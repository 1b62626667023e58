//! Turns protocol and input events into changes of the workspace model,
//! followed by a relayout, and into directives for the host.

use vstd::prelude::*;
use crate::config::{Action, Keybinding, WindowRule};
use crate::input::{Modifiers, first_binding, key_name, keysym_to_string, find_binding};
use crate::manager::{WorkspaceManager, has_space, holder, space_index};
use crate::rules::{resolve_rules, first_workspace, first_floating, first_class, class_view};
use crate::text::str_eq;
use crate::window::{Window, WindowId};
use crate::workspace::appended_to;

verus! {

/// Output size, gaps and bar height that relayouts use.
#[derive(Clone, Copy, Debug, PartialEq, Eq, Structural)]
pub struct Viewport {
    pub width: i32,
    pub height: i32,
    pub gaps: i32,
    pub bar_height: i32,
}

/// A directive for the host, which owns processes and client surfaces.
pub enum Effect {
    Nothing,
    /// Run this shell command, detached; a failure is only logged.
    Spawn { command: String },
    /// Ask this window to close.
    Close { window: WindowId },
    /// Give this window keyboard focus.
    Focus { window: WindowId },
}

/// What became of a key event.
pub enum KeyOutcome {
    /// No binding took it: hand the raw event to the focused window.
    Forward,
    /// A binding took it; the host carries out the effect.
    Handled { effect: Effect },
}

pub open spec fn is_back(d: Seq<char>) -> bool {
    d == "up"@ || d == "left"@
}

pub open spec fn is_forward(d: Seq<char>) -> bool {
    d == "down"@ || d == "right"@
}

/// Neither the workspaces nor the active one changed.
pub open spec fn unchanged(o: &WorkspaceManager, n: &WorkspaceManager) -> bool {
    n.spaces() == o.spaces() && n.active_id() == o.active_id()
}

/// The focused window of the active workspace, if any.
pub open spec fn focused_of(m: &WorkspaceManager) -> Option<Window> {
    let ws = m.active_space();
    match ws.focused_window_idx {
        Some(i) => Some(ws.windows@[i as int]),
        None => None,
    }
}

/// `e` is a focus directive for the focused window of `m`, or nothing.
pub open spec fn focus_effect(m: &WorkspaceManager, e: Effect) -> bool {
    match focused_of(m) {
        Some(w) => e == (Effect::Focus { window: w.id }),
        None => e is Nothing,
    }
}

/// `n` and `e` are what action `a` does to `o`, before the relayout.
pub open spec fn performed(o: &WorkspaceManager, n: &WorkspaceManager, a: Action, e: Effect) -> bool {
    match a {
        Action::Spawn { command } => unchanged(o, n) && (e matches Effect::Spawn { command: c } && c@ == command@),
        Action::Close => unchanged(o, n) && match focused_of(o) {
            Some(w) => e == (Effect::Close { window: w.id }),
            None => e is Nothing,
        },
        Action::Focus { direction } => if is_back(direction@) {
            WorkspaceManager::focus_stepped(o, n, false) && focus_effect(n, e)
        } else if is_forward(direction@) {
            WorkspaceManager::focus_stepped(o, n, true) && focus_effect(n, e)
        } else {
            unchanged(o, n) && e is Nothing
        },
        Action::Move { workspace } => e is Nothing && match focused_of(o) {
            Some(w) => WorkspaceManager::moved(
                o, n, w.id, workspace,
                holder(o.spaces(), w.id) >= 0 && has_space(o.spaces(), workspace),
            ),
            None => unchanged(o, n),
        },
        Action::SwitchWorkspace { workspace } => e is Nothing
            && WorkspaceManager::switched(o, n, workspace, has_space(o.spaces(), workspace)),
        Action::ToggleFloating => unchanged(o, n) && e is Nothing,
        Action::Custom { js } => unchanged(o, n) && e is Nothing,
    }
}

/// `n` is `o` after a relayout of its active workspace in `vp`.
pub open spec fn relaid_in(o: &WorkspaceManager, n: &WorkspaceManager, vp: Viewport) -> bool {
    exists|ok: bool| WorkspaceManager::relaid_active(
        o, n, vp.width as int, vp.height as int, vp.gaps as int, vp.bar_height as int, ok)
}

fn focused_id(m: &WorkspaceManager) -> (r: Option<WindowId>)
    requires
        m.wf(),
    ensures
        match focused_of(m) {
            Some(w) => r == Some(w.id),
            None => r is None,
        },
{
    match m.focused_window() {
        Some(w) => Some(w.id),
        None => None,
    }
}

fn focus_directive(m: &WorkspaceManager) -> (e: Effect)
    requires
        m.wf(),
    ensures
        focus_effect(m, e),
{
    match focused_id(m) {
        Some(w) => Effect::Focus { window: w },
        None => Effect::Nothing,
    }
}

/// Carries out action `a` on the workspace model.
pub fn apply_action(manager: &mut WorkspaceManager, a: &Action) -> (e: Effect)
    requires
        old(manager).wf(),
    ensures
        final(manager).wf(),
        performed(old(manager), final(manager), *a, e),
{
    proof {
        reveal_strlit("up");
        reveal_strlit("left");
        reveal_strlit("down");
        reveal_strlit("right");
    }
    match a {
        Action::Spawn { command } => Effect::Spawn { command: command.clone() },
        Action::Close => match focused_id(manager) {
            Some(w) => Effect::Close { window: w },
            None => Effect::Nothing,
        },
        Action::Focus { direction } => {
            let d = direction.as_str();
            if str_eq(d, "up") || str_eq(d, "left") {
                manager.focus_prev_window();
                focus_directive(manager)
            } else if str_eq(d, "down") || str_eq(d, "right") {
                manager.focus_next_window();
                focus_directive(manager)
            } else {
                Effect::Nothing
            }
        },
        Action::Move { workspace } => {
            match focused_id(manager) {
                Some(w) => {
                    manager.move_window_to_workspace(w, *workspace);
                },
                None => {},
            }
            Effect::Nothing
        },
        Action::SwitchWorkspace { workspace } => {
            manager.switch_to_workspace(*workspace);
            Effect::Nothing
        },
        Action::ToggleFloating => Effect::Nothing,
        Action::Custom { js: _ } => Effect::Nothing,
    }
}

/// Whether action `a` can change the focus or which windows the active
/// workspace holds, so that a relayout follows it.
pub open spec fn needs_relayout(a: Action) -> bool {
    match a {
        Action::Focus { direction } => is_back(direction@) || is_forward(direction@),
        Action::Move { workspace } => true,
        Action::SwitchWorkspace { workspace } => true,
        _ => false,
    }
}

fn relayout_follows(a: &Action) -> (r: bool)
    ensures
        r == needs_relayout(*a),
{
    proof {
        reveal_strlit("up");
        reveal_strlit("left");
        reveal_strlit("down");
        reveal_strlit("right");
    }
    match a {
        Action::Focus { direction } => {
            let d = direction.as_str();
            str_eq(d, "up") || str_eq(d, "left") || str_eq(d, "down") || str_eq(d, "right")
        },
        Action::Move { .. } => true,
        Action::SwitchWorkspace { .. } => true,
        _ => false,
    }
}

/// Handles one key event: on a press, the first binding in configuration
/// order whose key and exact modifier set match takes it and its action is
/// carried out; a focus change, move or workspace switch is followed by a
/// relayout of the active workspace. Releases and unmatched presses are
/// forwarded untouched.
pub fn handle_key(
    manager: &mut WorkspaceManager,
    bindings: &[Keybinding],
    keysym: u32,
    pressed: bool,
    mods: Modifiers,
    vp: Viewport,
) -> (r: KeyOutcome)
    requires
        old(manager).wf(),
    ensures
        final(manager).wf(),
        !pressed || first_binding(bindings@, key_name(keysym), mods) == -1 ==> r is Forward
            && unchanged(old(manager), final(manager)),
        pressed && first_binding(bindings@, key_name(keysym), mods) >= 0 ==> exists|mid: WorkspaceManager|
            {
                &&& #[trigger] mid.wf()
                &&& r matches KeyOutcome::Handled { effect } && performed(
                    old(manager), &mid,
                    bindings@[first_binding(bindings@, key_name(keysym), mods)].action,
                    effect,
                )
                &&& if needs_relayout(bindings@[first_binding(bindings@, key_name(keysym), mods)].action) {
                    relaid_in(&mid, final(manager), vp)
                } else {
                    unchanged(&mid, final(manager))
                }
            },
{
    if !pressed {
        return KeyOutcome::Forward;
    }
    let name = keysym_to_string(keysym);
    proof { crate::input::lemma_first_binding_from(bindings@, name@, mods, 0); }
    match find_binding(bindings, name.as_str(), mods) {
        Some(i) => {
            let effect = apply_action(manager, &bindings[i].action);
            let ghost mid = *manager;
            if relayout_follows(&bindings[i].action) {
                manager.relayout_active(vp.width, vp.height, vp.gaps, vp.bar_height);
            }
            assert(mid.wf());
            KeyOutcome::Handled { effect }
        },
        None => KeyOutcome::Forward,
    }
}

/// `w` is the window that creation makes of surface `id` with `app`, under `rules`.
pub open spec fn created_window(w: Window, id: WindowId, app: Seq<char>, rules: Seq<WindowRule>) -> bool {
    &&& w.id == id
    &&& w.app_id@ == app
    &&& w.floating == match first_floating(rules, app) {
        Some(f) => f,
        None => false,
    }
    &&& class_view(w.css_class) == first_class(rules, app)
    &&& w.geometry is None
}

/// The workspace a new window joins: the first rule assignment when that
/// workspace exists, else the active one.
pub open spec fn target_workspace(m: &WorkspaceManager, rules: Seq<WindowRule>, app: Seq<char>) -> u32 {
    match first_workspace(rules, app) {
        Some(t) => if has_space(m.spaces(), t) { t } else { m.active_id() },
        None => m.active_id(),
    }
}

/// A new client surface: builds its window under the rules, adds it to its
/// workspace with the focus, and relays out the active workspace. Returns the
/// workspace it joined.
pub fn on_window_created(
    manager: &mut WorkspaceManager,
    rules: &[WindowRule],
    id: WindowId,
    app_id: String,
    vp: Viewport,
) -> (r: u32)
    requires
        old(manager).wf(),
    ensures
        final(manager).wf(),
        r == target_workspace(old(manager), rules@, app_id@),
        exists|mid: WorkspaceManager, w: Window|
            {
                &&& #[trigger] mid.wf()
                &&& #[trigger] created_window(w, id, app_id@, rules@)
                &&& mid.active_id() == old(manager).active_id()
                &&& mid.spaces().len() == old(manager).spaces().len()
                &&& forall|j: int| 0 <= j < mid.spaces().len() && j != space_index(old(manager).spaces(), r)
                    ==> mid.spaces()[j] == old(manager).spaces()[j]
                &&& appended_to(&old(manager).spaces()[space_index(old(manager).spaces(), r)],
                    &mid.spaces()[space_index(old(manager).spaces(), r)], w)
                &&& relaid_in(&mid, final(manager), vp)
            },
{
    let outcome = resolve_rules(rules, app_id.as_str());
    let floating = match outcome.floating {
        Some(f) => f,
        None => false,
    };
    let window = Window { id, app_id, floating, css_class: outcome.css_class, geometry: None };
    let ghost w = window;
    let target = match outcome.workspace {
        Some(t) => if manager.get_workspace(t).is_some() { t } else { manager.active_workspace_id() },
        None => manager.active_workspace_id(),
    };
    proof {
        let ghost s = manager.spaces();
        crate::manager::lemma_space_index(s, manager.active_id());
        crate::manager::lemma_space_index(s, target);
    }
    manager.add_window_to_workspace(target, window);
    let ghost mid = *manager;
    manager.relayout_active(vp.width, vp.height, vp.gaps, vp.bar_height);
    assert(mid.wf());
    assert(created_window(w, id, w.app_id@, rules@));
    target
}

/// A client surface went away: removes its window from the first workspace
/// that holds it and relays out the active workspace. False, and nothing
/// changes, when no workspace holds it.
pub fn on_window_destroyed(manager: &mut WorkspaceManager, id: WindowId, vp: Viewport) -> (r: bool)
    requires
        old(manager).wf(),
    ensures
        final(manager).wf(),
        r == (holder(old(manager).spaces(), id) >= 0),
        !r ==> unchanged(old(manager), final(manager)),
        r ==> exists|mid: WorkspaceManager|
            {
                &&& #[trigger] mid.wf()
                &&& mid.active_id() == old(manager).active_id()
                &&& crate::manager::others_unchanged(old(manager).spaces(), mid.spaces(), holder(old(manager).spaces(), id))
                &&& crate::workspace::removed_from(
                    &old(manager).spaces()[holder(old(manager).spaces(), id)],
                    &mid.spaces()[holder(old(manager).spaces(), id)],
                    id,
                )
                &&& relaid_in(&mid, final(manager), vp)
            },
{
    if manager.remove_window(id) {
        let ghost mid = *manager;
        manager.relayout_active(vp.width, vp.height, vp.gaps, vp.bar_height);
        assert(mid.wf());
        true
    } else {
        false
    }
}

} // verus!
