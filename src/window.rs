//! Client windows, as the layout engine sees them.

use vstd::prelude::*;

verus! {

/// Stable identity of a client surface, handed out by the protocol layer.
pub type WindowId = u64;

/// An axis-aligned rectangle: position of the top-left corner and size.
#[derive(Clone, Copy, Debug, PartialEq, Eq, Structural)]
pub struct Rect {
    pub x: i32,
    pub y: i32,
    pub w: i32,
    pub h: i32,
}

/// One client surface.
pub struct Window {
    pub id: WindowId,
    pub app_id: String,
    pub floating: bool,
    pub css_class: Option<String>,
    /// The geometry most recently assigned by a relayout, if any.
    pub geometry: Option<Rect>,
}

impl Window {
    pub fn new(id: WindowId, app_id: String) -> (r: Window)
        ensures
            r.id == id,
            r.app_id@ == app_id@,
            !r.floating,
            r.css_class is None,
            r.geometry is None,
    {
        Window { id, app_id, floating: false, css_class: None, geometry: None }
    }
}

/// Position of the first window with identity `id` at or after `i`, or -1.
pub open spec fn index_from(s: Seq<Window>, id: WindowId, i: int) -> int
    decreases s.len() - i,
{
    if i < 0 || i >= s.len() {
        -1
    } else if s[i].id == id {
        i
    } else {
        index_from(s, id, i + 1)
    }
}

/// Position of the first window with identity `id`, or -1 when there is none.
pub open spec fn window_index(s: Seq<Window>, id: WindowId) -> int {
    index_from(s, id, 0)
}

pub open spec fn holds_window(s: Seq<Window>, id: WindowId) -> bool {
    exists|i: int| 0 <= i < s.len() && s[i].id == id
}

pub proof fn lemma_index_from(s: Seq<Window>, id: WindowId, i: int)
    requires
        0 <= i <= s.len(),
    ensures
        index_from(s, id, i) == -1 || (i <= index_from(s, id, i) < s.len()),
        index_from(s, id, i) >= 0 ==> s[index_from(s, id, i)].id == id,
        forall|j: int| i <= j < s.len() && (index_from(s, id, i) == -1 || j < index_from(s, id, i))
            ==> s[j].id != id,
    decreases s.len() - i,
{
    if i < s.len() && s[i].id != id {
        lemma_index_from(s, id, i + 1);
    }
}

/// `window_index` finds the first window with the identity, and -1 means there is none.
pub proof fn lemma_window_index(s: Seq<Window>, id: WindowId)
    ensures
        -1 <= window_index(s, id) < s.len(),
        window_index(s, id) >= 0 ==> s[window_index(s, id)].id == id,
        forall|j: int| 0 <= j < window_index(s, id) ==> s[j].id != id,
        (window_index(s, id) == -1) == !holds_window(s, id),
{
    lemma_index_from(s, id, 0);
}

/// Finds the position of the first window with identity `id`.
pub fn find_window_index(windows: &Vec<Window>, id: WindowId) -> (r: Option<usize>)
    ensures
        match r {
            Some(i) => i as int == window_index(windows@, id),
            None => window_index(windows@, id) == -1,
        },
{
    let mut i: usize = 0;
    while i < windows.len()
        invariant
            0 <= i <= windows.len(),
            index_from(windows@, id, i as int) == window_index(windows@, id),
        decreases windows.len() - i,
    {
        if windows[i].id == id {
            return Some(i);
        }
        i = i + 1;
    }
    None
}

} // verus!
