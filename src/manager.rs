//! The set of workspaces, their display order, and the active one.

use vstd::prelude::*;
use crate::layout::{relayout, relaid, layout_fits};
use crate::text::{decimal, decimal_string};
use crate::window::{Window, WindowId, holds_window, window_index, lemma_window_index};
use crate::workspace::{
    LayoutMode, Workspace, appended_to, removed_from, next_focus, prev_focus, focus_after_removal,
};

verus! {

/// Position of the workspace with identifier `id` at or after `i`, or -1.
pub open spec fn space_index_from(s: Seq<Workspace>, id: u32, i: int) -> int
    decreases s.len() - i,
{
    if i < 0 || i >= s.len() {
        -1
    } else if s[i].id == id {
        i
    } else {
        space_index_from(s, id, i + 1)
    }
}

/// Position of the workspace with identifier `id`, or -1.
pub open spec fn space_index(s: Seq<Workspace>, id: u32) -> int {
    space_index_from(s, id, 0)
}

pub open spec fn has_space(s: Seq<Workspace>, id: u32) -> bool {
    exists|i: int| 0 <= i < s.len() && s[i].id == id
}

/// Identifiers are pairwise distinct.
pub open spec fn unique_ids(s: Seq<Workspace>) -> bool {
    forall|i: int, j: int| 0 <= i < s.len() && 0 <= j < s.len() && i != j ==> s[i].id != s[j].id
}

proof fn lemma_space_index_from(s: Seq<Workspace>, id: u32, i: int)
    requires
        0 <= i <= s.len(),
    ensures
        space_index_from(s, id, i) == -1 || (i <= space_index_from(s, id, i) < s.len()),
        space_index_from(s, id, i) >= 0 ==> s[space_index_from(s, id, i)].id == id,
        space_index_from(s, id, i) == -1 ==> forall|j: int| i <= j < s.len() ==> s[j].id != id,
    decreases s.len() - i,
{
    if i < s.len() && s[i].id != id {
        lemma_space_index_from(s, id, i + 1);
    }
}

/// `space_index` finds the workspace with the identifier, and -1 means there is none.
pub proof fn lemma_space_index(s: Seq<Workspace>, id: u32)
    ensures
        -1 <= space_index(s, id) < s.len(),
        space_index(s, id) >= 0 ==> s[space_index(s, id)].id == id,
        (space_index(s, id) == -1) == !has_space(s, id),
        unique_ids(s) ==> forall|j: int| 0 <= j < s.len() && s[j].id == id ==> j == space_index(s, id),
{
    lemma_space_index_from(s, id, 0);
}

/// Position of the first workspace, in display order, that holds window `w`, or -1.
pub open spec fn holder_from(s: Seq<Workspace>, w: WindowId, i: int) -> int
    decreases s.len() - i,
{
    if i < 0 || i >= s.len() {
        -1
    } else if holds_window(s[i].windows@, w) {
        i
    } else {
        holder_from(s, w, i + 1)
    }
}

pub open spec fn holder(s: Seq<Workspace>, w: WindowId) -> int {
    holder_from(s, w, 0)
}

proof fn lemma_holder_from(s: Seq<Workspace>, w: WindowId, i: int)
    requires
        0 <= i <= s.len(),
    ensures
        holder_from(s, w, i) == -1 || (i <= holder_from(s, w, i) < s.len()),
        holder_from(s, w, i) >= 0 ==> holds_window(s[holder_from(s, w, i)].windows@, w),
    decreases s.len() - i,
{
    if i < s.len() && !holds_window(s[i].windows@, w) {
        lemma_holder_from(s, w, i + 1);
    }
}

/// The display-order position after `p` in a sequence of length `n`, cyclically.
pub open spec fn cyclic_next(p: int, n: int) -> int {
    if p + 1 >= n { 0 } else { p + 1 }
}

/// The display-order position before `p` in a sequence of length `n`, cyclically.
pub open spec fn cyclic_prev(p: int, n: int) -> int {
    if p == 0 { n - 1 } else { p - 1 }
}

/// Same length, and every workspace but the one at `i` is unchanged.
pub open spec fn others_unchanged(a: Seq<Workspace>, b: Seq<Workspace>, i: int) -> bool {
    &&& a.len() == b.len()
    &&& forall|j: int| 0 <= j < a.len() && j != i ==> a[j] == b[j]
}

/// All workspaces, in display order, and which one is active.
///
/// One sequence in display order holds the workspaces: it gives both the
/// lookup by identifier (identifiers are kept unique) and the order that
/// cycling, the bar and the search for a window's workspace follow, so that
/// which workspace a search finds first never depends on a hash map's
/// iteration order.
pub struct WorkspaceManager {
    workspaces: Vec<Workspace>,
    active_workspace_id: u32,
}

impl WorkspaceManager {
    /// The workspaces in display order.
    pub closed spec fn spaces(&self) -> Seq<Workspace> {
        self.workspaces@
    }

    /// Identifier of the active workspace.
    pub closed spec fn active_id(&self) -> u32 {
        self.active_workspace_id
    }

    /// Identifiers are unique, each workspace is well formed, and the active
    /// identifier names one of them.
    pub open spec fn wf(&self) -> bool {
        &&& unique_ids(self.spaces())
        &&& forall|i: int| 0 <= i < self.spaces().len() ==> #[trigger] self.spaces()[i].wf()
        &&& has_space(self.spaces(), self.active_id())
    }

    /// Position of the active workspace in display order.
    pub open spec fn active_index(&self) -> int {
        space_index(self.spaces(), self.active_id())
    }

    /// The active workspace.
    pub open spec fn active_space(&self) -> Workspace {
        self.spaces()[self.active_index()]
    }

    /// `n` is `o` after moving window `w` to workspace `target`, with outcome `r`.
    pub open spec fn moved(o: &Self, n: &Self, w: WindowId, target: u32, r: bool) -> bool {
        let (os, ns) = (o.spaces(), n.spaces());
        &&& n.active_id() == o.active_id()
        &&& r == (holder(os, w) >= 0 && has_space(os, target))
        &&& !r ==> ns == os
        &&& r ==> {
            let h = holder(os, w);
            let t = space_index(os, target);
            let win = os[h].windows@[window_index(os[h].windows@, w)];
            &&& ns.len() == os.len()
            &&& forall|j: int| 0 <= j < os.len() && j != h && j != t ==> ns[j] == os[j]
            &&& h != t ==> removed_from(&os[h], &ns[h], w) && appended_to(&os[t], &ns[t], win)
            &&& h == t ==> {
                &&& ns[h].windows@ == os[h].windows@.remove(window_index(os[h].windows@, w)).push(win)
                &&& ns[h].focused_window_idx == Some((os[h].windows@.len() - 1) as usize)
                &&& ns[h].same_header(&os[h])
            }
        }
    }

    /// `n` is `o` with the focus of the active workspace moved one window
    /// forward or back, cyclically.
    pub open spec fn focus_stepped(o: &Self, n: &Self, forward: bool) -> bool {
        let i = o.active_index();
        let (a, b) = (o.spaces()[i], n.spaces()[i]);
        &&& n.active_id() == o.active_id()
        &&& others_unchanged(o.spaces(), n.spaces(), i)
        &&& b.windows@ == a.windows@
        &&& b.focused_window_idx == if forward {
            next_focus(a.focused_window_idx, a.windows@.len())
        } else {
            prev_focus(a.focused_window_idx, a.windows@.len())
        }
        &&& b.same_header(&a)
    }

    /// `n` is `o` after asking to make workspace `id` active, with outcome `r`.
    pub open spec fn switched(o: &Self, n: &Self, id: u32, r: bool) -> bool {
        &&& r == has_space(o.spaces(), id)
        &&& n.spaces() == o.spaces()
        &&& n.active_id() == (if r { id } else { o.active_id() })
    }

    /// `n` is `o` after relaying out its active workspace, with outcome `r`.
    pub open spec fn relaid_active(o: &Self, n: &Self, w: int, h: int, g: int, bar: int, r: bool) -> bool {
        &&& n.active_id() == o.active_id()
        &&& r == layout_fits(o.active_space().layout_mode, o.active_space().windows@.len() as int, w, h, g, bar)
        &&& !r ==> n.spaces() == o.spaces()
        &&& r ==> {
            let i = o.active_index();
            &&& others_unchanged(o.spaces(), n.spaces(), i)
            &&& relaid(&o.spaces()[i], &n.spaces()[i], w, h, g, bar)
        }
    }

    /// Nine tiling workspaces with identifiers 1 to 9, named by their number;
    /// the first is active.
    pub fn new() -> (r: Self)
        ensures
            r.wf(),
            r.spaces().len() == 9,
            r.active_id() == 1,
            forall|k: int| 0 <= k < 9 ==> {
                let w = #[trigger] r.spaces()[k];
                &&& w.id == k + 1
                &&& w.name@ == decimal((k + 1) as nat)
                &&& w.layout_mode == LayoutMode::Tiling
                &&& w.windows@.len() == 0
                &&& w.focused_window_idx is None
            },
    {
        let mut spaces: Vec<Workspace> = Vec::new();
        let mut i: u32 = 1;
        while i <= 9
            invariant
                1 <= i <= 10,
                spaces@.len() == i - 1,
                forall|k: int| 0 <= k < i - 1 ==> {
                    let w = #[trigger] spaces@[k];
                    &&& w.id == k + 1
                    &&& w.name@ == decimal((k + 1) as nat)
                    &&& w.layout_mode == LayoutMode::Tiling
                    &&& w.windows@.len() == 0
                    &&& w.focused_window_idx is None
                },
            decreases 10 - i,
        {
            let name = decimal_string(i as u64);
            spaces.push(Workspace::new(i, name, LayoutMode::Tiling));
            i = i + 1;
        }
        let r = WorkspaceManager { workspaces: spaces, active_workspace_id: 1 };
        assert(r.spaces()[0].id == 1);
        r
    }

    /// Adds a workspace at the end of the display order, or replaces the one
    /// with the same identifier where it stands.
    pub fn add_workspace(&mut self, workspace: Workspace)
        requires
            old(self).wf(),
            workspace.wf(),
        ensures
            final(self).wf(),
            final(self).active_id() == old(self).active_id(),
            has_space(old(self).spaces(), workspace.id) ==> final(self).spaces()
                == old(self).spaces().update(space_index(old(self).spaces(), workspace.id), workspace),
            !has_space(old(self).spaces(), workspace.id) ==> final(self).spaces()
                == old(self).spaces().push(workspace),
    {
        proof { lemma_space_index(self.workspaces@, workspace.id); }
        let ghost id = workspace.id;
        match self.find_index(workspace.id) {
            Some(i) => {
                self.workspaces.set(i, workspace);
                proof {
                    let s = self.workspaces@;
                    assert(s[i as int].id == id);
                    assert(has_space(s, self.active_workspace_id)) by {
                        let j = choose|j: int| 0 <= j < old(self).workspaces@.len()
                            && old(self).workspaces@[j].id == self.active_workspace_id;
                        assert(s[j].id == self.active_workspace_id);
                    }
                }
            },
            None => {
                self.workspaces.push(workspace);
                proof {
                    let s = self.workspaces@;
                    assert(has_space(s, self.active_workspace_id)) by {
                        let j = choose|j: int| 0 <= j < old(self).workspaces@.len()
                            && old(self).workspaces@[j].id == self.active_workspace_id;
                        assert(s[j].id == self.active_workspace_id);
                    }
                }
            },
        }
    }

    fn find_index(&self, id: u32) -> (r: Option<usize>)
        ensures
            match r {
                Some(i) => i as int == space_index(self.spaces(), id),
                None => space_index(self.spaces(), id) == -1,
            },
    {
        let mut i: usize = 0;
        while i < self.workspaces.len()
            invariant
                0 <= i <= self.workspaces@.len(),
                space_index_from(self.workspaces@, id, i as int) == space_index(self.workspaces@, id),
            decreases self.workspaces@.len() - i,
        {
            if self.workspaces[i].id == id {
                return Some(i);
            }
            i = i + 1;
        }
        None
    }

    pub fn get_workspace(&self, id: u32) -> (r: Option<&Workspace>)
        ensures
            has_space(self.spaces(), id) ==> r == Some(&self.spaces()[space_index(self.spaces(), id)]),
            !has_space(self.spaces(), id) ==> r is None,
    {
        proof { lemma_space_index(self.workspaces@, id); }
        match self.find_index(id) {
            Some(i) => Some(&self.workspaces[i]),
            None => None,
        }
    }

    /// The workspace with identifier `id`, for changing it in place.
    pub fn get_workspace_mut(&mut self, id: u32) -> (r: Option<&mut Workspace>)
        ensures
            final(self).active_id() == old(self).active_id(),
            has_space(old(self).spaces(), id) ==> (r matches Some(w) && {
                let i = space_index(old(self).spaces(), id);
                &&& *w == old(self).spaces()[i]
                &&& final(self).spaces() == old(self).spaces().update(i, *final(w))
            }),
            !has_space(old(self).spaces(), id) ==> r is None && final(self).spaces() == old(self).spaces(),
    {
        proof { lemma_space_index(self.workspaces@, id); }
        match self.find_index(id) {
            Some(i) => Some(&mut self.workspaces[i]),
            None => None,
        }
    }

    /// The active workspace, for changing it in place.
    pub fn active_workspace_mut(&mut self) -> (r: &mut Workspace)
        requires
            old(self).wf(),
        ensures
            final(self).active_id() == old(self).active_id(),
            *r == old(self).active_space(),
            final(self).spaces() == old(self).spaces().update(old(self).active_index(), *final(r)),
    {
        proof { lemma_space_index(self.workspaces@, self.active_workspace_id); }
        let i = self.find_index(self.active_workspace_id).unwrap();
        &mut self.workspaces[i]
    }

    /// The focused window of the active workspace, for changing it in place.
    pub fn focused_window_mut(&mut self) -> (r: Option<&mut Window>)
        requires
            old(self).wf(),
        ensures
            final(self).active_id() == old(self).active_id(),
            ({
                let i = old(self).active_index();
                let (o, n) = (old(self).spaces()[i], final(self).spaces()[i]);
                &&& others_unchanged(old(self).spaces(), final(self).spaces(), i)
                &&& n.focused_window_idx == o.focused_window_idx
                &&& n.same_header(&o)
                &&& match o.focused_window_idx {
                    Some(f) => r matches Some(w) && *w == o.windows@[f as int]
                        && n.windows@ == o.windows@.update(f as int, *final(w)),
                    None => r is None && n.windows@ == o.windows@,
                }
            }),
    {
        proof { lemma_space_index(self.workspaces@, self.active_workspace_id); }
        let i = self.find_index(self.active_workspace_id).unwrap();
        assert(self.workspaces@[i as int].wf());
        self.workspaces[i].focused_window_mut()
    }

    pub fn active_workspace(&self) -> (r: &Workspace)
        requires
            self.wf(),
        ensures
            *r == self.active_space(),
            0 <= self.active_index() < self.spaces().len(),
    {
        proof { lemma_space_index(self.workspaces@, self.active_workspace_id); }
        let i = self.find_index(self.active_workspace_id).unwrap();
        &self.workspaces[i]
    }

    pub fn active_workspace_id(&self) -> (r: u32)
        ensures
            r == self.active_id(),
    {
        self.active_workspace_id
    }

    /// Makes `id` the active workspace; false, and nothing changes, when it is unknown.
    pub fn switch_to_workspace(&mut self, id: u32) -> (r: bool)
        requires
            old(self).wf(),
        ensures
            final(self).wf(),
            WorkspaceManager::switched(old(self), final(self), id, r),
    {
        proof { lemma_space_index(self.workspaces@, id); }
        if self.find_index(id).is_some() {
            self.active_workspace_id = id;
            true
        } else {
            false
        }
    }


    /// Appends `window` to workspace `id` and focuses it; false, and nothing
    /// changes, when the workspace is unknown.
    pub fn add_window_to_workspace(&mut self, id: u32, window: Window) -> (r: bool)
        requires
            old(self).wf(),
        ensures
            final(self).wf(),
            r == has_space(old(self).spaces(), id),
            final(self).active_id() == old(self).active_id(),
            !r ==> final(self).spaces() == old(self).spaces(),
            r ==> {
                let i = space_index(old(self).spaces(), id);
                &&& others_unchanged(old(self).spaces(), final(self).spaces(), i)
                &&& appended_to(&old(self).spaces()[i], &final(self).spaces()[i], window)
            },
    {
        proof { lemma_space_index(self.workspaces@, id); }
        match self.find_index(id) {
            Some(i) => {
                self.workspaces[i].add_window(window);
                proof { self.lemma_kept_wf(old(self), i as int); }
                true
            },
            None => false,
        }
    }

    /// A change confined to the workspace at `i` that keeps its identifier and
    /// well-formedness keeps the manager well formed.
    proof fn lemma_kept_wf(&self, prev: &Self, i: int)
        requires
            prev.wf(),
            0 <= i < prev.spaces().len(),
            others_unchanged(prev.spaces(), self.spaces(), i),
            self.spaces()[i].id == prev.spaces()[i].id,
            self.spaces()[i].wf(),
            self.active_id() == prev.active_id(),
        ensures
            self.wf(),
    {
        let s = self.spaces();
        let p = prev.spaces();
        assert forall|a: int| 0 <= a < s.len() implies #[trigger] s[a].wf() by {
            if a != i {
                assert(s[a] == p[a]);
            }
        }
        assert forall|a: int, b: int| 0 <= a < s.len() && 0 <= b < s.len() && a != b implies s[a].id != s[b].id by {
            assert(s[a].id == p[a].id);
            assert(s[b].id == p[b].id);
        }
        let j = choose|j: int| 0 <= j < p.len() && p[j].id == prev.active_id();
        assert(s[j].id == p[j].id);
    }

    /// Appends `window` to the active workspace and focuses it.
    pub fn add_window_to_active(&mut self, window: Window)
        requires
            old(self).wf(),
        ensures
            final(self).wf(),
            final(self).active_id() == old(self).active_id(),
            ({
                let i = old(self).active_index();
                &&& others_unchanged(old(self).spaces(), final(self).spaces(), i)
                &&& appended_to(&old(self).spaces()[i], &final(self).spaces()[i], window)
            }),
    {
        let id = self.active_workspace_id;
        self.add_window_to_workspace(id, window);
    }

    /// Position of the first workspace in display order that holds window `w`.
    fn find_holder(&self, w: WindowId) -> (r: Option<usize>)
        ensures
            match r {
                Some(i) => i as int == holder(self.spaces(), w),
                None => holder(self.spaces(), w) == -1,
            },
    {
        let mut i: usize = 0;
        while i < self.workspaces.len()
            invariant
                0 <= i <= self.workspaces@.len(),
                holder_from(self.workspaces@, w, i as int) == holder(self.workspaces@, w),
            decreases self.workspaces@.len() - i,
        {
            if self.workspaces[i].contains_window(w) {
                return Some(i);
            }
            i = i + 1;
        }
        None
    }

    /// Identifier of the first workspace, in display order, that holds window `w`.
    pub fn find_window_workspace(&self, w: WindowId) -> (r: Option<u32>)
        ensures
            holder(self.spaces(), w) >= 0 ==> r == Some(self.spaces()[holder(self.spaces(), w)].id),
            holder(self.spaces(), w) < 0 ==> r is None,
    {
        proof { lemma_holder_from(self.workspaces@, w, 0); }
        match self.find_holder(w) {
            Some(i) => Some(self.workspaces[i].id),
            None => None,
        }
    }

    /// Removes window `w` from the first workspace in display order that holds it.
    pub fn remove_window(&mut self, w: WindowId) -> (r: bool)
        requires
            old(self).wf(),
        ensures
            final(self).wf(),
            final(self).active_id() == old(self).active_id(),
            r == (holder(old(self).spaces(), w) >= 0),
            !r ==> final(self).spaces() == old(self).spaces(),
            r ==> {
                let i = holder(old(self).spaces(), w);
                &&& others_unchanged(old(self).spaces(), final(self).spaces(), i)
                &&& removed_from(&old(self).spaces()[i], &final(self).spaces()[i], w)
            },
    {
        proof { lemma_holder_from(self.workspaces@, w, 0); }
        match self.find_holder(w) {
            Some(i) => {
                assert(self.workspaces@[i as int].wf());
                self.workspaces[i].remove_window(w);
                proof { self.lemma_kept_wf(old(self), i as int); }
                true
            },
            None => false,
        }
    }


    /// Moves window `w` from the first workspace that holds it to the end of
    /// workspace `target`, where it takes the focus. False, and nothing
    /// changes, when no workspace holds it or `target` is unknown.
    pub fn move_window_to_workspace(&mut self, w: WindowId, target: u32) -> (r: bool)
        requires
            old(self).wf(),
        ensures
            final(self).wf(),
            final(self).active_id() == old(self).active_id(),
            WorkspaceManager::moved(old(self), final(self), w, target, r),
    {
        proof {
            lemma_holder_from(self.workspaces@, w, 0);
            lemma_space_index(self.workspaces@, target);
        }
        let h = match self.find_holder(w) {
            Some(h) => h,
            None => return false,
        };
        let t = match self.find_index(target) {
            Some(t) => t,
            None => return false,
        };
        assert(self.workspaces@[h as int].wf());
        proof { lemma_window_index(self.workspaces@[h as int].windows@, w); }
        let win = self.workspaces[h].take_window(w).unwrap();
        let ghost mid = *self;
        proof { mid.lemma_kept_wf(old(self), h as int); }
        self.workspaces[t].add_window(win);
        proof {
            self.lemma_kept_wf(&mid, t as int);
            assert(mid.spaces()[h as int].windows@.len() == old(self).spaces()[h as int].windows@.len() - 1);
        }
        true
    }

    /// The focused window of the active workspace.
    pub fn focused_window(&self) -> (r: Option<&Window>)
        requires
            self.wf(),
        ensures
            match self.active_space().focused_window_idx {
                Some(i) => r == Some(&self.active_space().windows@[i as int]),
                None => r is None,
            },
    {
        let ws = self.active_workspace();
        assert(ws.wf());
        ws.focused_window()
    }

    /// Moves the focus of the active workspace one window forward, cyclically.
    pub fn focus_next_window(&mut self)
        requires
            old(self).wf(),
        ensures
            final(self).wf(),
            WorkspaceManager::focus_stepped(old(self), final(self), true),
    {
        proof { lemma_space_index(self.workspaces@, self.active_workspace_id); }
        let i = self.find_index(self.active_workspace_id).unwrap();
        assert(self.workspaces@[i as int].wf());
        self.workspaces[i].focus_next();
        proof { self.lemma_kept_wf(old(self), i as int); }
    }

    /// Moves the focus of the active workspace one window back, cyclically.
    pub fn focus_prev_window(&mut self)
        requires
            old(self).wf(),
        ensures
            final(self).wf(),
            WorkspaceManager::focus_stepped(old(self), final(self), false),
    {
        proof { lemma_space_index(self.workspaces@, self.active_workspace_id); }
        let i = self.find_index(self.active_workspace_id).unwrap();
        assert(self.workspaces@[i as int].wf());
        self.workspaces[i].focus_prev();
        proof { self.lemma_kept_wf(old(self), i as int); }
    }

    /// Sets the layout mode of workspace `id`; false when it is unknown.
    pub fn set_layout_mode(&mut self, id: u32, mode: LayoutMode) -> (r: bool)
        requires
            old(self).wf(),
        ensures
            final(self).wf(),
            final(self).active_id() == old(self).active_id(),
            r == has_space(old(self).spaces(), id),
            !r ==> final(self).spaces() == old(self).spaces(),
            r ==> {
                let i = space_index(old(self).spaces(), id);
                let (o, n) = (old(self).spaces()[i], final(self).spaces()[i]);
                &&& others_unchanged(old(self).spaces(), final(self).spaces(), i)
                &&& n.windows@ == o.windows@
                &&& n.focused_window_idx == o.focused_window_idx
                &&& n.id == o.id && n.name == o.name
                &&& n.layout_mode == mode
            },
    {
        proof { lemma_space_index(self.workspaces@, id); }
        match self.find_index(id) {
            Some(i) => {
                assert(self.workspaces@[i as int].wf());
                self.workspaces[i].layout_mode = mode;
                proof { self.lemma_kept_wf(old(self), i as int); }
                true
            },
            None => false,
        }
    }

    /// The windows of workspace `id`, in order; empty when it is unknown.
    pub fn get_workspace_windows(&self, id: u32) -> (r: &[Window])
        ensures
            has_space(self.spaces(), id) ==> r@ == self.spaces()[space_index(self.spaces(), id)].windows@,
            !has_space(self.spaces(), id) ==> r@.len() == 0,
    {
        proof { lemma_space_index(self.workspaces@, id); }
        match self.find_index(id) {
            Some(i) => self.workspaces[i].windows.as_slice(),
            None => &[],
        }
    }

    /// Identifier of the workspace after the active one in display order, cyclically.
    pub open spec fn next_cycle_id(&self) -> u32 {
        self.spaces()[cyclic_next(self.active_index(), self.spaces().len() as int)].id
    }

    /// Identifier of the workspace before the active one in display order, cyclically.
    pub open spec fn prev_cycle_id(&self) -> u32 {
        self.spaces()[cyclic_prev(self.active_index(), self.spaces().len() as int)].id
    }

    /// Activates the next workspace in display order, wrapping around.
    pub fn cycle_workspace_next(&mut self)
        requires
            old(self).wf(),
        ensures
            final(self).wf(),
            final(self).spaces() == old(self).spaces(),
            final(self).active_id() == old(self).next_cycle_id(),
    {
        proof { lemma_space_index(self.workspaces@, self.active_workspace_id); }
        let pos = self.find_index(self.active_workspace_id).unwrap();
        let next = if pos >= self.workspaces.len() - 1 { 0 } else { pos + 1 };
        let id = self.workspaces[next].id;
        self.switch_to_workspace(id);
    }

    /// Activates the previous workspace in display order, wrapping around.
    pub fn cycle_workspace_prev(&mut self)
        requires
            old(self).wf(),
        ensures
            final(self).wf(),
            final(self).spaces() == old(self).spaces(),
            final(self).active_id() == old(self).prev_cycle_id(),
    {
        proof { lemma_space_index(self.workspaces@, self.active_workspace_id); }
        let pos = self.find_index(self.active_workspace_id).unwrap();
        let prev = if pos == 0 { self.workspaces.len() - 1 } else { pos - 1 };
        let id = self.workspaces[prev].id;
        self.switch_to_workspace(id);
    }


    /// Relays out the active workspace in an output of `w` by `h` pixels with
    /// gaps `g` below a bar of height `bar`; false, and nothing moves, when a
    /// coordinate would not fit in an `i32`.
    pub fn relayout_active(&mut self, w: i32, h: i32, g: i32, bar: i32) -> (r: bool)
        requires
            old(self).wf(),
        ensures
            final(self).wf(),
            WorkspaceManager::relaid_active(old(self), final(self), w as int, h as int, g as int, bar as int, r),
    {
        proof { lemma_space_index(self.workspaces@, self.active_workspace_id); }
        let i = self.find_index(self.active_workspace_id).unwrap();
        assert(self.workspaces@[i as int].wf());
        let r = relayout(&mut self.workspaces[i], w, h, g, bar);
        proof {
            self.lemma_kept_wf(old(self), i as int);
            if !r {
                assert(self.workspaces@ =~= old(self).workspaces@);
            }
        }
        r
    }

    pub fn workspace_count(&self) -> (r: usize)
        ensures
            r == self.spaces().len(),
    {
        self.workspaces.len()
    }

    /// The workspaces in display order.
    pub fn all_workspaces(&self) -> (r: &Vec<Workspace>)
        ensures
            r@ == self.spaces(),
    {
        &self.workspaces
    }
}

/// Cycling to the next workspace and then to the previous one makes the
/// workspace that was active at the start active again.
pub proof fn law_cycle_round_trip(a: WorkspaceManager, b: WorkspaceManager)
    requires
        a.wf(),
        b.spaces() == a.spaces(),
        b.active_id() == a.next_cycle_id(),
    ensures
        b.prev_cycle_id() == a.active_id(),
{
    let s = a.spaces();
    lemma_space_index(s, a.active_id());
    let p = a.active_index();
    let q = cyclic_next(p, s.len() as int);
    lemma_space_index(s, b.active_id());
    assert(b.active_index() == q);
}

} // verus!
