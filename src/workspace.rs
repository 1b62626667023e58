//! Workspaces: ordered windows with one focused member.

use vstd::prelude::*;
use crate::text::{eq_ignore_case, str_eq_ignore_case};
use crate::window::{Window, WindowId, window_index, holds_window, lemma_window_index, find_window_index};

verus! {

/// How the windows of a workspace are arranged.
#[derive(Clone, Copy, Debug, PartialEq, Eq, Structural)]
pub enum LayoutMode {
    Tiling,
    Floating,
    Monocle,
}

/// The layout mode a name stands for, up to ASCII case; tiling for any other name.
pub open spec fn mode_named(s: Seq<char>) -> LayoutMode {
    if eq_ignore_case(s, "floating"@) {
        LayoutMode::Floating
    } else if eq_ignore_case(s, "monocle"@) {
        LayoutMode::Monocle
    } else {
        LayoutMode::Tiling
    }
}

impl<'a> From<&'a str> for LayoutMode {
    fn from(s: &'a str) -> (r: LayoutMode)
        ensures
            r == mode_named(s@),
    {
        if str_eq_ignore_case(s, "floating") {
            LayoutMode::Floating
        } else if str_eq_ignore_case(s, "monocle") {
            LayoutMode::Monocle
        } else {
            LayoutMode::Tiling
        }
    }
}

impl<'a> vstd::std_specs::convert::FromSpecImpl<&'a str> for LayoutMode {
    open spec fn obeys_from_spec() -> bool {
        true
    }

    open spec fn from_spec(s: &'a str) -> LayoutMode {
        mode_named(s@)
    }
}

/// Focus after a removal: kept when still in range, else clamped to the
/// new last window, or none when nothing is left.
pub open spec fn focus_after_removal(focused: Option<usize>, new_len: nat) -> Option<usize> {
    match focused {
        Some(f) => if f < new_len {
            Some(f)
        } else if new_len == 0 {
            None
        } else {
            Some((new_len - 1) as usize)
        },
        None => None,
    }
}

/// The window after the focused one, cyclically; the first when none is focused.
pub open spec fn next_focus(focused: Option<usize>, len: nat) -> Option<usize> {
    if len == 0 {
        None
    } else {
        match focused {
            Some(f) => Some(((f + 1) % (len as int)) as usize),
            None => Some((1int % (len as int)) as usize),
        }
    }
}

/// The window before the focused one, cyclically.
pub open spec fn prev_focus(focused: Option<usize>, len: nat) -> Option<usize> {
    if len == 0 {
        None
    } else {
        let cur: int = match focused {
            Some(f) => f as int,
            None => 0,
        };
        if cur == 0 {
            Some((len - 1) as usize)
        } else {
            Some((cur - 1) as usize)
        }
    }
}

/// `n` is `o` with `window` appended and focused.
pub open spec fn appended_to(o: &Workspace, n: &Workspace, window: Window) -> bool {
    &&& n.windows@ == o.windows@.push(window)
    &&& n.focused_window_idx == Some(o.windows@.len() as usize)
    &&& n.same_header(o)
}

/// `n` is `o` without its first window of identity `id`, with focus adjusted.
pub open spec fn removed_from(o: &Workspace, n: &Workspace, id: WindowId) -> bool {
    &&& n.windows@ == o.windows@.remove(window_index(o.windows@, id))
    &&& n.focused_window_idx == focus_after_removal(o.focused_window_idx, n.windows@.len())
    &&& n.same_header(o)
}

pub struct Workspace {
    pub id: u32,
    pub name: String,
    pub layout_mode: LayoutMode,
    pub windows: Vec<Window>,
    pub focused_window_idx: Option<usize>,
}

impl Workspace {
    /// The focused index, when present, names a window.
    pub open spec fn wf(&self) -> bool {
        match self.focused_window_idx {
            Some(i) => i < self.windows.len(),
            None => true,
        }
    }

    /// Identity, name and layout mode agree.
    pub open spec fn same_header(&self, other: &Workspace) -> bool {
        &&& self.id == other.id
        &&& self.name == other.name
        &&& self.layout_mode == other.layout_mode
    }

    pub fn new(id: u32, name: String, layout_mode: LayoutMode) -> (r: Self)
        ensures
            r.id == id,
            r.name == name,
            r.layout_mode == layout_mode,
            r.windows@.len() == 0,
            r.focused_window_idx is None,
            r.wf(),
    {
        Workspace { id, name, layout_mode, windows: Vec::new(), focused_window_idx: None }
    }

    /// Appends a window and focuses it.
    pub fn add_window(&mut self, window: Window)
        ensures
            appended_to(old(self), final(self), window),
            final(self).wf(),
    {
        self.windows.push(window);
        self.focused_window_idx = Some(self.windows.len() - 1);
    }

    /// Removes the first window with identity `id` and hands it back.
    pub fn take_window(&mut self, id: WindowId) -> (r: Option<Window>)
        requires
            old(self).wf(),
        ensures
            r is Some == holds_window(old(self).windows@, id),
            r is Some ==> removed_from(old(self), final(self), id),
            r is Some ==> r == Some(old(self).windows@[window_index(old(self).windows@, id)]),
            r is None ==> *final(self) == *old(self),
            final(self).wf(),
    {
        proof { lemma_window_index(self.windows@, id); }
        match find_window_index(&self.windows, id) {
            Some(idx) => {
                let w = self.windows.remove(idx);
                match self.focused_window_idx {
                    Some(f) => {
                        if f >= self.windows.len() {
                            if self.windows.len() == 0 {
                                self.focused_window_idx = None;
                            } else {
                                self.focused_window_idx = Some(self.windows.len() - 1);
                            }
                        }
                    },
                    None => {},
                }
                Some(w)
            },
            None => None,
        }
    }

    /// Removes the first window with identity `id`; true when one was there.
    pub fn remove_window(&mut self, id: WindowId) -> (r: bool)
        requires
            old(self).wf(),
        ensures
            r == holds_window(old(self).windows@, id),
            r ==> removed_from(old(self), final(self), id),
            !r ==> *final(self) == *old(self),
            final(self).wf(),
    {
        self.take_window(id).is_some()
    }

    /// Whether a window with identity `id` is on this workspace.
    pub fn contains_window(&self, id: WindowId) -> (r: bool)
        ensures
            r == holds_window(self.windows@, id),
    {
        proof { lemma_window_index(self.windows@, id); }
        find_window_index(&self.windows, id).is_some()
    }

    pub fn focused_window(&self) -> (r: Option<&Window>)
        requires
            self.wf(),
        ensures
            match self.focused_window_idx {
                Some(i) => r == Some(&self.windows@[i as int]),
                None => r is None,
            },
    {
        match self.focused_window_idx {
            Some(i) => Some(&self.windows[i]),
            None => None,
        }
    }

    /// The focused window, for changing it in place.
    pub fn focused_window_mut(&mut self) -> (r: Option<&mut Window>)
        requires
            old(self).wf(),
        ensures
            final(self).same_header(old(self)),
            final(self).focused_window_idx == old(self).focused_window_idx,
            match old(self).focused_window_idx {
                Some(i) => r matches Some(w) && *w == old(self).windows@[i as int]
                    && final(self).windows@ == old(self).windows@.update(i as int, *final(w)),
                None => r is None && final(self).windows@ == old(self).windows@,
            },
    {
        match self.focused_window_idx {
            Some(i) => Some(&mut self.windows[i]),
            None => None,
        }
    }

    pub fn focus_next(&mut self)
        requires
            old(self).wf(),
        ensures
            final(self).focused_window_idx == next_focus(
                old(self).focused_window_idx,
                old(self).windows@.len(),
            ),
            final(self).windows@ == old(self).windows@,
            final(self).same_header(old(self)),
            final(self).wf(),
    {
        let n = self.windows.len();
        if n == 0 {
            self.focused_window_idx = None;
            return;
        }
        let current: usize = match self.focused_window_idx {
            Some(f) => f,
            None => 0,
        };
        let next: usize = if current >= n - 1 { (current - (n - 1)) % n } else { current + 1 };
        proof {
            if current < n - 1 {
                vstd::arithmetic::div_mod::lemma_small_mod((current + 1) as nat, n as nat);
            } else {
                vstd::arithmetic::div_mod::lemma_mod_sub_multiples_vanish(
                    (current + 1) as int, n as int);
            }
            if self.focused_window_idx is None {
                if n == 1 {
                    assert(next == 0);
                } else {
                    vstd::arithmetic::div_mod::lemma_small_mod(1, n as nat);
                }
            }
        }
        self.focused_window_idx = Some(next);
    }

    pub fn focus_prev(&mut self)
        requires
            old(self).wf(),
        ensures
            final(self).focused_window_idx == prev_focus(
                old(self).focused_window_idx,
                old(self).windows@.len(),
            ),
            final(self).windows@ == old(self).windows@,
            final(self).same_header(old(self)),
            final(self).wf(),
    {
        let n = self.windows.len();
        if n == 0 {
            self.focused_window_idx = None;
            return;
        }
        let current: usize = match self.focused_window_idx {
            Some(f) => f,
            None => 0,
        };
        let prev: usize = if current == 0 { n - 1 } else { current - 1 };
        self.focused_window_idx = Some(prev);
    }

    /// Focuses the first window with identity `id`; false when there is none.
    pub fn focus_window(&mut self, id: WindowId) -> (r: bool)
        requires
            old(self).wf(),
        ensures
            r == holds_window(old(self).windows@, id),
            r ==> final(self).focused_window_idx == Some(window_index(old(self).windows@, id) as usize),
            !r ==> final(self).focused_window_idx == old(self).focused_window_idx,
            final(self).windows@ == old(self).windows@,
            final(self).same_header(old(self)),
            final(self).wf(),
    {
        proof { lemma_window_index(self.windows@, id); }
        match find_window_index(&self.windows, id) {
            Some(idx) => {
                self.focused_window_idx = Some(idx);
                true
            },
            None => false,
        }
    }

    pub fn is_empty(&self) -> (r: bool)
        ensures
            r == (self.windows@.len() == 0),
    {
        self.windows.len() == 0
    }

    pub fn len(&self) -> (r: usize)
        ensures
            r == self.windows@.len(),
    {
        self.windows.len()
    }
}

/// Removing the focused window from a workspace of `k > 1` windows leaves the
/// focus on one of the `k - 1` windows that remain; removing the only window
/// leaves no focus.
pub proof fn law_remove_focused(o: Workspace, n: Workspace)
    requires
        o.wf(),
        o.focused_window_idx is Some,
        removed_from(&o, &n, o.windows@[o.focused_window_idx.unwrap() as int].id),
    ensures
        o.windows@.len() > 1 ==> n.focused_window_idx is Some
            && n.focused_window_idx.unwrap() < o.windows@.len() - 1,
        o.windows@.len() == 1 ==> n.focused_window_idx is None,
{
    let id = o.windows@[o.focused_window_idx.unwrap() as int].id;
    lemma_window_index(o.windows@, id);
}

} // verus!
