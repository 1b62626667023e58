//! Window placement for the three layout modes.

use vstd::prelude::*;
use crate::window::{Rect, Window, WindowId};
use crate::workspace::{LayoutMode, Workspace, next_focus};

verus! {

/// Width of a floating window.
pub const FLOAT_WIDTH: i32 = 800;
/// Height of a floating window.
pub const FLOAT_HEIGHT: i32 = 600;
/// Offset between successive floating windows, on both axes.
pub const CASCADE_STEP: i32 = 30;

/// Integer division rounding toward zero, for a positive divisor.
pub open spec fn trunc_div(a: int, b: int) -> int {
    if a >= 0 { a / b } else { -((-a) / b) }
}

pub open spec fn in_i32(v: int) -> bool {
    i32::MIN <= v <= i32::MAX
}

/// Width of each of `n` tiled columns in width `w` with gaps `g`.
pub open spec fn column_width(n: int, w: int, g: int) -> int {
    trunc_div(w - g * (n + 1), n)
}

/// Height of a tiled column in height `h` below a bar of height `bar`.
pub open spec fn column_height(h: int, g: int, bar: int) -> int {
    (h - bar) - 2 * g
}

/// Left edge of tiled column `i`.
pub open spec fn column_x(i: int, n: int, w: int, g: int) -> int {
    g + i * (column_width(n, w, g) + g)
}

/// Left edge of floating window `i`.
pub open spec fn float_x(i: int, w: int) -> int {
    trunc_div(w - FLOAT_WIDTH, 2) + i * CASCADE_STEP
}

/// Top edge of floating window `i`.
pub open spec fn float_y(i: int, h: int, bar: int) -> int {
    bar + trunc_div((h - bar) - FLOAT_HEIGHT, 2) + i * CASCADE_STEP
}

/// Every value a layout of `n` windows computes fits in an `i32`.
pub open spec fn layout_fits(mode: LayoutMode, n: int, w: int, h: int, g: int, bar: int) -> bool {
    n == 0 || match mode {
        LayoutMode::Tiling => {
            &&& n <= i32::MAX
            &&& in_i32(column_width(n, w, g))
            &&& in_i32(column_height(h, g, bar))
            &&& in_i32(bar + g)
            &&& in_i32(column_x(n - 1, n, w, g))
        },
        LayoutMode::Floating => {
            &&& n <= i32::MAX
            &&& in_i32(float_x(n - 1, w))
            &&& in_i32(float_y(0, h, bar))
            &&& in_i32(float_y(n - 1, h, bar))
        },
        LayoutMode::Monocle => in_i32(h - bar),
    }
}

pub open spec fn tiling_rect(i: int, n: int, w: int, h: int, g: int, bar: int) -> Rect {
    Rect {
        x: column_x(i, n, w, g) as i32,
        y: (bar + g) as i32,
        w: column_width(n, w, g) as i32,
        h: column_height(h, g, bar) as i32,
    }
}

pub open spec fn floating_rect(i: int, w: int, h: int, bar: int) -> Rect {
    Rect {
        x: float_x(i, w) as i32,
        y: float_y(i, h, bar) as i32,
        w: FLOAT_WIDTH,
        h: FLOAT_HEIGHT,
    }
}

/// The usable area: the whole output below the bar.
pub open spec fn monocle_rect(w: int, h: int, bar: int) -> Rect {
    Rect { x: 0, y: bar as i32, w: w as i32, h: (h - bar) as i32 }
}

/// The same window, whatever its geometry.
pub open spec fn same_window(a: Window, b: Window) -> bool {
    &&& a.id == b.id
    &&& a.app_id == b.app_id
    &&& a.floating == b.floating
    &&& a.css_class == b.css_class
}

/// `n` is window `o` moved to `r`.
pub open spec fn placed(o: Window, n: Window, r: Rect) -> bool {
    same_window(o, n) && n.geometry == Some(r)
}

/// Where relayout puts window `i` of workspace `ws`, if it moves it at all.
pub open spec fn target_rect(ws: &Workspace, i: int, w: int, h: int, g: int, bar: int) -> Option<Rect> {
    let n = ws.windows@.len() as int;
    match ws.layout_mode {
        LayoutMode::Tiling => Some(tiling_rect(i, n, w, h, g, bar)),
        LayoutMode::Floating => Some(floating_rect(i, w, h, bar)),
        LayoutMode::Monocle => if ws.focused_window_idx == Some(i as usize) {
            Some(monocle_rect(w, h, bar))
        } else {
            None
        },
    }
}

/// `n` is `o` after a relayout into output `w` by `h` with gaps `g` below a bar
/// of height `bar`.
pub open spec fn relaid(o: &Workspace, n: &Workspace, w: int, h: int, g: int, bar: int) -> bool {
    &&& n.same_header(o)
    &&& n.focused_window_idx == o.focused_window_idx
    &&& n.windows@.len() == o.windows@.len()
    &&& forall|i: int| 0 <= i < o.windows@.len() ==> match target_rect(o, i, w, h, g, bar) {
        Some(r) => placed(o.windows@[i], #[trigger] n.windows@[i], r),
        None => n.windows@[i] == o.windows@[i],
    }
}

proof fn lemma_scaled_between(i: int, m: int, d: int)
    requires
        0 <= i <= m,
    ensures
        d >= 0 ==> 0 <= i * d <= m * d,
        d < 0 ==> m * d <= i * d <= 0,
{
    if d >= 0 {
        assert(0 <= i * d <= m * d) by (nonlinear_arith)
            requires 0 <= i <= m, d >= 0;
    } else {
        assert(m * d <= i * d <= 0) by (nonlinear_arith)
            requires 0 <= i <= m, d < 0;
    }
}

/// `a / b` rounded toward zero, for `b > 0`.
fn div_toward_zero(a: i128, b: i128) -> (r: i128)
    requires
        b > 0,
        a > i128::MIN,
    ensures
        r == trunc_div(a as int, b as int),
        a >= 0 ==> 0 <= r <= a,
        a < 0 ==> a <= r <= 0,
{
    if a >= 0 {
        proof {
            vstd::arithmetic::div_mod::lemma_div_nonincreasing(a as int, b as int);
            vstd::arithmetic::div_mod::lemma_div_pos_is_pos(a as int, b as int);
        }
        a / b
    } else {
        let p = -a;
        proof {
            vstd::arithmetic::div_mod::lemma_div_nonincreasing(p as int, b as int);
            vstd::arithmetic::div_mod::lemma_div_pos_is_pos(p as int, b as int);
        }
        -(p / b)
    }
}

/// Places the windows of `ws` by its layout mode, in an output of `w` by `h`
/// pixels with gaps `g` below a bar of height `bar`. False, and nothing moves,
/// when a coordinate would not fit in an `i32`.
pub fn relayout(ws: &mut Workspace, w: i32, h: i32, g: i32, bar: i32) -> (r: bool)
    requires
        old(ws).wf(),
    ensures
        r == layout_fits(old(ws).layout_mode, old(ws).windows@.len() as int, w as int, h as int, g as int, bar as int),
        r ==> relaid(old(ws), final(ws), w as int, h as int, g as int, bar as int),
        !r ==> *final(ws) == *old(ws),
        final(ws).wf(),
{
    let n = ws.windows.len();
    if n == 0 {
        return true;
    }
    match ws.layout_mode {
        LayoutMode::Tiling => layout_tiling(ws, w, h, g, bar),
        LayoutMode::Floating => layout_floating(ws, w, h, bar),
        LayoutMode::Monocle => layout_monocle(ws, w, h, bar),
    }
}

fn layout_tiling(ws: &mut Workspace, w: i32, h: i32, g: i32, bar: i32) -> (r: bool)
    requires
        old(ws).wf(),
        old(ws).layout_mode == LayoutMode::Tiling,
        old(ws).windows@.len() > 0,
    ensures
        r == layout_fits(LayoutMode::Tiling, old(ws).windows@.len() as int, w as int, h as int, g as int, bar as int),
        r ==> relaid(old(ws), final(ws), w as int, h as int, g as int, bar as int),
        !r ==> *final(ws) == *old(ws),
        final(ws).wf(),
{
    let n = ws.windows.len();
    if n > 2147483647 {
        return false;
    }
    let nn = n as i128;
    let gg = g as i128;
    assert(-0x8000_0000_0000_0000 <= gg * (nn + 1) <= 0x8000_0000_0000_0000) by (nonlinear_arith)
        requires -0x8000_0000 <= gg <= 0x8000_0000, 0 <= nn + 1 <= 0x8000_0000;
    let cw = div_toward_zero(w as i128 - gg * (nn + 1), nn);
    let ch = (h as i128 - bar as i128) - 2 * gg;
    let y = bar as i128 + gg;
    assert(-0x1_0000_0000_0000_0000 <= cw + gg <= 0x1_0000_0000_0000_0000);
    assert(-0x1_0000_0000_0000_0000_0000_0000 <= (nn - 1) * (cw + gg) <= 0x1_0000_0000_0000_0000_0000_0000)
        by (nonlinear_arith)
        requires -0x1_0000_0000_0000_0000 <= cw + gg <= 0x1_0000_0000_0000_0000, 0 <= nn - 1 <= 0x8000_0000;
    let last_x = gg + (nn - 1) * (cw + gg);
    if cw < -2147483648 || cw > 2147483647 || ch < -2147483648 || ch > 2147483647
        || y < -2147483648 || y > 2147483647 || last_x < -2147483648 || last_x > 2147483647 {
        return false;
    }
    let ghost o = *ws;
    let mut i: usize = 0;
    while i < n
        invariant
            n == o.windows@.len(),
            0 <= i <= n,
            nn == n,
            gg == g,
            cw == column_width(n as int, w as int, g as int),
            ch == column_height(h as int, g as int, bar as int),
            y == bar + g,
            in_i32(cw as int),
            in_i32(ch as int),
            in_i32(y as int),
            in_i32(column_x(n - 1, n as int, w as int, g as int)),
            ws.same_header(&o),
            ws.focused_window_idx == o.focused_window_idx,
            ws.windows@.len() == n,
            forall|j: int| 0 <= j < n ==> {
                if j < i {
                    placed(o.windows@[j], #[trigger] ws.windows@[j], tiling_rect(j, n as int, w as int, h as int, g as int, bar as int))
                } else {
                    ws.windows@[j] == o.windows@[j]
                }
            },
            o.wf(),
        decreases n - i,
    {
        let ii = i as i128;
        proof {
            lemma_scaled_between(i as int, (n - 1) as int, (cw + gg) as int);
        }
        let x = gg + ii * (cw + gg);
        let rect = Rect { x: x as i32, y: y as i32, w: cw as i32, h: ch as i32 };
        ws.windows[i].geometry = Some(rect);
        i = i + 1;
    }
    true
}

fn layout_floating(ws: &mut Workspace, w: i32, h: i32, bar: i32) -> (r: bool)
    requires
        old(ws).wf(),
        old(ws).layout_mode == LayoutMode::Floating,
        old(ws).windows@.len() > 0,
    ensures
        forall|g: int| r == #[trigger] layout_fits(LayoutMode::Floating, old(ws).windows@.len() as int, w as int, h as int, g, bar as int),
        forall|g: int| r ==> #[trigger] relaid(old(ws), final(ws), w as int, h as int, g, bar as int),
        !r ==> *final(ws) == *old(ws),
        final(ws).wf(),
{
    let n = ws.windows.len();
    if n > 2147483647 {
        return false;
    }
    let nn = n as i128;
    let base_x = div_toward_zero(w as i128 - 800, 2);
    let base_y = bar as i128 + div_toward_zero((h as i128 - bar as i128) - 600, 2);
    let last_x = base_x + (nn - 1) * 30;
    let last_y = base_y + (nn - 1) * 30;
    if last_x < -2147483648 || last_x > 2147483647 || base_y < -2147483648 || base_y > 2147483647
        || last_y < -2147483648 || last_y > 2147483647 {
        return false;
    }
    assert(base_x + 0 * 30 == base_x);
    let ghost o = *ws;
    let mut i: usize = 0;
    while i < n
        invariant
            n == o.windows@.len(),
            0 <= i <= n,
            nn == n,
            base_x == trunc_div(w - FLOAT_WIDTH, 2),
            base_y == bar + trunc_div((h - bar) - FLOAT_HEIGHT, 2),
            in_i32(base_x + (n - 1) * 30),
            in_i32(base_y as int),
            in_i32(base_y + (n - 1) * 30),
            ws.same_header(&o),
            ws.focused_window_idx == o.focused_window_idx,
            ws.windows@.len() == n,
            forall|j: int| 0 <= j < n ==> {
                if j < i {
                    placed(o.windows@[j], #[trigger] ws.windows@[j], floating_rect(j, w as int, h as int, bar as int))
                } else {
                    ws.windows@[j] == o.windows@[j]
                }
            },
            o.wf(),
        decreases n - i,
    {
        let ii = i as i128;
        proof {
            lemma_scaled_between(i as int, (n - 1) as int, 30);
        }
        let x = base_x + ii * 30;
        let y = base_y + ii * 30;
        assert(0 <= base_x + (n - 1) * 30 - x) by (nonlinear_arith)
            requires x == base_x + i * 30, i <= n - 1;
        let rect = Rect { x: x as i32, y: y as i32, w: 800, h: 600 };
        ws.windows[i].geometry = Some(rect);
        i = i + 1;
    }
    true
}

fn layout_monocle(ws: &mut Workspace, w: i32, h: i32, bar: i32) -> (r: bool)
    requires
        old(ws).wf(),
        old(ws).layout_mode == LayoutMode::Monocle,
        old(ws).windows@.len() > 0,
    ensures
        forall|g: int| r == #[trigger] layout_fits(LayoutMode::Monocle, old(ws).windows@.len() as int, w as int, h as int, g, bar as int),
        forall|g: int| r ==> #[trigger] relaid(old(ws), final(ws), w as int, h as int, g, bar as int),
        !r ==> *final(ws) == *old(ws),
        final(ws).wf(),
{
    let usable = h as i64 - bar as i64;
    if usable < -2147483648 || usable > 2147483647 {
        return false;
    }
    match ws.focused_window_idx {
        Some(f) => {
            let rect = Rect { x: 0, y: bar, w, h: usable as i32 };
            ws.windows[f].geometry = Some(rect);
        },
        None => {},
    }
    true
}

/// With `n >= 1` tiled columns in a width `w` that holds the `n + 1` gaps,
/// columns and gaps together fit in `w`, and columns are not negative.
pub proof fn law_tiling_fits_width(n: int, w: int, g: int)
    requires
        n >= 1,
        w >= g * (n + 1),
    ensures
        n * column_width(n, w, g) + (n + 1) * g <= w,
        column_width(n, w, g) >= 0,
{
    let q = w - g * (n + 1);
    assert(q >= 0);
    vstd::arithmetic::div_mod::lemma_fundamental_div_mod(q, n);
    vstd::arithmetic::div_mod::lemma_mod_bound(q, n);
    vstd::arithmetic::div_mod::lemma_div_pos_is_pos(q, n);
    assert(n * (q / n) <= q);
    assert((n + 1) * g == g * (n + 1)) by (nonlinear_arith);
}

/// The windows to draw, bottom to top: every window, except in monocle mode,
/// where only the focused one is shown.
pub fn visible_windows(ws: &Workspace) -> (r: Vec<WindowId>)
    requires
        ws.wf(),
    ensures
        ws.layout_mode == LayoutMode::Monocle ==> match ws.focused_window_idx {
            Some(i) => r@ == seq![ws.windows@[i as int].id],
            None => r@.len() == 0,
        },
        ws.layout_mode != LayoutMode::Monocle ==> r@.len() == ws.windows@.len()
            && forall|i: int| 0 <= i < r@.len() ==> #[trigger] r@[i] == ws.windows@[i].id,
{
    let mut r: Vec<WindowId> = Vec::new();
    if ws.layout_mode == LayoutMode::Monocle {
        match ws.focused_window_idx {
            Some(i) => {
                r.push(ws.windows[i].id);
                assert(r@ =~= seq![ws.windows@[i as int].id]);
            },
            None => {},
        }
        return r;
    }
    let mut i: usize = 0;
    while i < ws.windows.len()
        invariant
            0 <= i <= ws.windows@.len(),
            r@.len() == i,
            forall|j: int| 0 <= j < i ==> #[trigger] r@[j] == ws.windows@[j].id,
        decreases ws.windows@.len() - i,
    {
        r.push(ws.windows[i].id);
        i = i + 1;
    }
    r
}

/// After a tiling relayout of `n >= 1` windows into a width `w` that holds
/// all `n + 1` gaps, every window's width is not negative, and the `n`
/// columns and the gaps together fit in `w`.
pub proof fn law_tiled_columns_fit(o: Workspace, n: Workspace, w: int, h: int, g: int, bar: int)
    requires
        o.layout_mode == LayoutMode::Tiling,
        o.windows@.len() >= 1,
        w >= g * (o.windows@.len() + 1),
        layout_fits(LayoutMode::Tiling, o.windows@.len() as int, w, h, g, bar),
        relaid(&o, &n, w, h, g, bar),
    ensures
        forall|i: int| 0 <= i < o.windows@.len() ==> (#[trigger] n.windows@[i].geometry matches Some(r)
            && r.w >= 0
            && o.windows@.len() * r.w + (o.windows@.len() + 1) * g <= w),
{
    let k = o.windows@.len() as int;
    law_tiling_fits_width(k, w, g);
    assert forall|i: int| 0 <= i < k implies (#[trigger] n.windows@[i].geometry matches Some(r)
        && r.w >= 0 && k * r.w + (k + 1) * g <= w) by {
        assert(target_rect(&o, i, w, h, g, bar) == Some(tiling_rect(i, k, w, h, g, bar)));
        assert(placed(o.windows@[i], n.windows@[i], tiling_rect(i, k, w, h, g, bar)));
        assert(tiling_rect(i, k, w, h, g, bar).w == column_width(k, w, g));
    }
}

/// In monocle mode, moving the focus forward and then relaying out places
/// exactly the newly focused window on the usable area and leaves every other
/// window, with its stored geometry, as it was. `relayout` performs such a
/// relayout whenever the output height minus the bar height fits in an `i32`.
pub proof fn law_monocle_focus_next(a: Workspace, b: Workspace, c: Workspace, w: int, h: int, g: int, bar: int)
    requires
        a.wf(),
        a.layout_mode == LayoutMode::Monocle,
        a.windows@.len() > 0,
        b.windows@ == a.windows@,
        b.focused_window_idx == next_focus(a.focused_window_idx, a.windows@.len()),
        b.same_header(&a),
        relaid(&b, &c, w, h, g, bar),
    ensures
        ({
            let f = b.focused_window_idx.unwrap() as int;
            &&& 0 <= f < a.windows@.len()
            &&& placed(a.windows@[f], c.windows@[f], monocle_rect(w, h, bar))
            &&& forall|i: int| 0 <= i < a.windows@.len() && i != f ==> c.windows@[i] == a.windows@[i]
        }),
{
    let n = a.windows@.len() as int;
    let f = b.focused_window_idx.unwrap() as int;
    assert(n <= usize::MAX) by {
        assert(a.windows@.len() == a.windows.len());
    }
    match a.focused_window_idx {
        Some(x) => vstd::arithmetic::div_mod::lemma_mod_bound(x + 1, n),
        None => vstd::arithmetic::div_mod::lemma_mod_bound(1, n),
    }
    assert(placed(a.windows@[f], c.windows@[f], monocle_rect(w, h, bar))) by {
        assert(target_rect(&b, f, w, h, g, bar) == Some(monocle_rect(w, h, bar)));
    }
    assert forall|i: int| 0 <= i < n && i != f implies c.windows@[i] == a.windows@[i] by {
        assert(i as usize != f as usize);
        assert(target_rect(&b, i, w, h, g, bar) is None);
    }
}

} // verus!
