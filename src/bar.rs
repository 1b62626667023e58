//! The status bar: its placement and the draw primitives of its widgets.

use vstd::prelude::*;
use vstd::string::{StrSliceExecFns, StringExecFns};
use crate::clock::{clock_text, format_time_at, seconds_now};
use crate::manager::WorkspaceManager;
use crate::text::{decimal, decimal_string};
use crate::window::Rect;
use crate::workspace::Workspace;

verus! {

/// A color with 8-bit channels; `a` is the opacity.
#[derive(Clone, Copy, Debug, PartialEq, Eq, Structural)]
pub struct Rgba {
    pub r: u8,
    pub g: u8,
    pub b: u8,
    pub a: u8,
}

impl Rgba {
    pub fn new(r: u8, g: u8, b: u8, a: u8) -> (c: Rgba)
        ensures
            c == (Rgba { r, g, b, a }),
    {
        Rgba { r, g, b, a }
    }
}

pub open spec fn bar_background() -> Rgba { Rgba { r: 28, g: 28, b: 46, a: 242 } }
pub open spec fn bar_foreground() -> Rgba { Rgba { r: 204, g: 212, b: 245, a: 255 } }
pub open spec fn active_background() -> Rgba { Rgba { r: 138, g: 181, b: 250, a: 255 } }
pub open spec fn active_foreground() -> Rgba { Rgba { r: 28, g: 28, b: 46, a: 255 } }
pub open spec fn occupied_background() -> Rgba { Rgba { r: 48, g: 51, b: 69, a: 255 } }
pub open spec fn transparent() -> Rgba { Rgba { r: 0, g: 0, b: 0, a: 0 } }

/// Colors that the stylesheet gives, each with a built-in fallback.
#[derive(Clone, Copy, Debug, PartialEq, Eq, Structural)]
pub struct BarStyle {
    /// `background` of the bar's class.
    pub background: Option<Rgba>,
    /// `color` of the bar's class.
    pub color: Option<Rgba>,
    /// `background` of `workspace.active`.
    pub active_background: Option<Rgba>,
    /// `color` of `workspace.active`.
    pub active_color: Option<Rgba>,
    /// `background` of `workspace`.
    pub workspace_background: Option<Rgba>,
}

pub open spec fn or_else(c: Option<Rgba>, d: Rgba) -> Rgba {
    match c {
        Some(x) => x,
        None => d,
    }
}

fn pick(c: Option<Rgba>, d: Rgba) -> (r: Rgba)
    ensures
        r == or_else(c, d),
{
    match c {
        Some(x) => x,
        None => d,
    }
}

#[derive(Clone, Copy, Debug, PartialEq, Eq, Structural)]
pub enum Position {
    Top,
    Bottom,
    Left,
    Right,
}

pub enum Widget {
    Workspaces { display: String },
    WindowTitle { max_width: Option<u32> },
    SystemTray,
    Clock { format: String },
    Spacer { flex: u32 },
}

pub struct BarConfig {
    pub id: String,
    pub position: Position,
    /// Height of a horizontal bar, breadth of a vertical one.
    pub height: u32,
    pub class: String,
    pub widgets: Vec<Widget>,
}

/// A draw primitive.
pub enum BarElement {
    Rectangle { geometry: Rect, color: Rgba },
    Circle { center: (i32, i32), radius: i32, color: Rgba },
    Text { position: (i32, i32), text: String, color: Rgba, size: u32 },
}

/// A draw primitive with its text as characters.
pub enum Shape {
    Rectangle { geometry: Rect, color: Rgba },
    Circle { center: (i32, i32), radius: i32, color: Rgba },
    Text { position: (i32, i32), text: Seq<char>, color: Rgba, size: u32 },
}

impl View for BarElement {
    type V = Shape;

    open spec fn view(&self) -> Shape {
        match self {
            BarElement::Rectangle { geometry, color } => Shape::Rectangle { geometry: *geometry, color: *color },
            BarElement::Circle { center, radius, color } => Shape::Circle { center: *center, radius: *radius, color: *color },
            BarElement::Text { position, text, color, size } => Shape::Text {
                position: *position,
                text: text@,
                color: *color,
                size: *size,
            },
        }
    }
}

pub open spec fn shapes(s: Seq<BarElement>) -> Seq<Shape> {
    s.map_values(|e: BarElement| e@)
}

proof fn lemma_shapes_push(s: Seq<BarElement>, e: BarElement)
    ensures
        shapes(s.push(e)) == shapes(s).push(e@),
{
    assert(shapes(s.push(e)) =~= shapes(s).push(e@));
}

/// `v` as an `i32`, saturated at the type's bounds.
pub open spec fn clamp32(v: int) -> i32 {
    if v > i32::MAX {
        i32::MAX
    } else if v < i32::MIN {
        i32::MIN
    } else {
        v as i32
    }
}

fn add_clamped(x: i32, d: i64) -> (r: i32)
    requires
        -0x1_0000_0000_0000 <= d <= 0x1_0000_0000_0000,
    ensures
        r == clamp32(x + d),
{
    let v = x as i64 + d;
    if v > 2147483647 {
        2147483647
    } else if v < -2147483648 {
        -2147483648
    } else {
        v as i32
    }
}

/// Output height that vertical bars span.
pub const OUTPUT_HEIGHT: i32 = 1080;

/// Where a bar of breadth `h` at `pos` sits on an output of width `w`.
pub open spec fn bar_geometry(pos: Position, w: int, h: int) -> Rect {
    match pos {
        Position::Top => Rect { x: 0, y: 0, w: w as i32, h: h as i32 },
        Position::Bottom => Rect { x: 0, y: (OUTPUT_HEIGHT - h) as i32, w: w as i32, h: h as i32 },
        Position::Left => Rect { x: 0, y: 0, w: h as i32, h: OUTPUT_HEIGHT },
        Position::Right => Rect { x: (w - h) as i32, y: 0, w: h as i32, h: OUTPUT_HEIGHT },
    }
}

pub struct Bar {
    pub config: BarConfig,
    pub geometry: Rect,
}

impl Bar {
    pub fn new(config: BarConfig, output_width: i32) -> (r: Bar)
        requires
            config.height <= i32::MAX,
            config.position == Position::Right ==> output_width - config.height >= i32::MIN,
        ensures
            r.config == config,
            r.geometry == bar_geometry(config.position, output_width as int, config.height as int),
    {
        let h = config.height as i32;
        let w = output_width;
        let geometry = match config.position {
            Position::Top => Rect { x: 0, y: 0, w, h },
            Position::Bottom => Rect { x: 0, y: OUTPUT_HEIGHT - h, w, h },
            Position::Left => Rect { x: 0, y: 0, w: h, h: OUTPUT_HEIGHT },
            Position::Right => Rect { x: w - h, y: 0, w: h, h: OUTPUT_HEIGHT },
        };
        Bar { config, geometry }
    }

    /// The configured height, also the breadth of a vertical bar.
    pub fn height(&self) -> (r: i32)
        requires
            self.config.height <= i32::MAX,
        ensures
            r == self.config.height,
    {
        self.config.height as i32
    }

    pub fn is_horizontal(&self) -> (r: bool)
        ensures
            r == (self.config.position == Position::Top || self.config.position == Position::Bottom),
    {
        match self.config.position {
            Position::Top | Position::Bottom => true,
            _ => false,
        }
    }
}

/// `t`, cut to `max` characters ending in "..." when longer.
pub open spec fn truncated(t: Seq<char>, max: Option<u32>) -> Seq<char> {
    match max {
        Some(m) => if t.len() > m {
            t.subrange(0, if m >= 3 { m - 3 } else { 0 }) + "..."@
        } else {
            t
        },
        None => t,
    }
}

/// The title as the bar shows it.
pub fn truncate_title(title: &str, max_width: Option<u32>) -> (r: String)
    ensures
        r@ == truncated(title@, max_width),
{
    let n = title.unicode_len();
    match max_width {
        Some(m) => {
            if n > m as usize {
                let keep: usize = if m >= 3 { (m - 3) as usize } else { 0 };
                let mut s = String::from_str(title.substring_char(0, keep));
                s.append("...");
                s
            } else {
                String::from_str(title)
            }
        },
        None => String::from_str(title),
    }
}

/// The label of a workspace: its name when at most three characters, else its number.
pub open spec fn ws_label(ws: Workspace) -> Seq<char> {
    if ws.name@.len() <= 3 {
        ws.name@
    } else {
        decimal(ws.id as nat)
    }
}

/// Box and label colors of a workspace indicator.
pub open spec fn ws_colors(ws: Workspace, active: u32, fg: Rgba, st: BarStyle) -> (Rgba, Rgba) {
    if ws.id == active {
        (or_else(st.active_background, active_background()), or_else(st.active_color, active_foreground()))
    } else if ws.windows@.len() > 0 {
        (or_else(st.workspace_background, occupied_background()), fg)
    } else {
        (transparent(), fg)
    }
}

/// The primitives of one workspace indicator at `(x, y)`: a 40 by 20 box
/// unless transparent, the label, and a dot for an occupied inactive workspace.
pub open spec fn ws_shapes(ws: Workspace, active: u32, x: i32, y: i32, fg: Rgba, st: BarStyle) -> Seq<Shape> {
    let (bg, color) = ws_colors(ws, active, fg, st);
    let boxed = if bg.a > 0 {
        seq![Shape::Rectangle { geometry: Rect { x, y, w: 40, h: 20 }, color: bg }]
    } else {
        Seq::empty()
    };
    let label = seq![Shape::Text { position: (clamp32(x + 12), clamp32(y + 3)), text: ws_label(ws), color, size: 13 }];
    let dot = if ws.windows@.len() > 0 && ws.id != active {
        seq![Shape::Circle { center: (clamp32(x + 32), clamp32(y + 12)), radius: 3, color: fg }]
    } else {
        Seq::empty()
    };
    boxed + label + dot
}

/// The indicators of `spaces`, starting at `x`, each 48 pixels after the last.
pub open spec fn spaces_shapes(spaces: Seq<Workspace>, active: u32, x: i32, y: i32, fg: Rgba, st: BarStyle) -> Seq<Shape>
    decreases spaces.len(),
{
    if spaces.len() == 0 {
        Seq::empty()
    } else {
        spaces_shapes(spaces.drop_last(), active, x, y, fg, st)
            + ws_shapes(spaces.last(), active, clamp32(x + 48 * (spaces.len() - 1)), y, fg, st)
    }
}

fn push_text(out: &mut Vec<BarElement>, x: i32, y: i32, text: String, color: Rgba)
    ensures
        shapes(final(out)@) == shapes(old(out)@).push(Shape::Text { position: (x, y), text: text@, color, size: 13 }),
{
    let ghost e = BarElement::Text { position: (x, y), text, color, size: 13 };
    proof { lemma_shapes_push(out@, e); }
    out.push(BarElement::Text { position: (x, y), text, color, size: 13 });
}

fn push_shape(out: &mut Vec<BarElement>, e: BarElement)
    ensures
        shapes(final(out)@) == shapes(old(out)@).push(e@),
{
    proof { lemma_shapes_push(out@, e); }
    out.push(e);
}

fn render_workspace(out: &mut Vec<BarElement>, ws: &Workspace, active: u32, x: i32, y: i32, fg: Rgba, st: &BarStyle)
    ensures
        shapes(final(out)@) == shapes(old(out)@) + ws_shapes(*ws, active, x, y, fg, *st),
{
    let is_active = ws.id == active;
    let has_windows = ws.windows.len() > 0;
    let (bg, color) = if is_active {
        (pick(st.active_background, Rgba { r: 138, g: 181, b: 250, a: 255 }),
         pick(st.active_color, Rgba { r: 28, g: 28, b: 46, a: 255 }))
    } else if has_windows {
        (pick(st.workspace_background, Rgba { r: 48, g: 51, b: 69, a: 255 }), fg)
    } else {
        (Rgba { r: 0, g: 0, b: 0, a: 0 }, fg)
    };
    let ghost start = shapes(out@);
    if bg.a > 0 {
        push_shape(out, BarElement::Rectangle { geometry: Rect { x, y, w: 40, h: 20 }, color: bg });
    }
    let ghost after_box = shapes(out@);
    let label = if ws.name.as_str().unicode_len() <= 3 {
        String::from_str(ws.name.as_str())
    } else {
        decimal_string(ws.id as u64)
    };
    push_text(out, add_clamped(x, 12), add_clamped(y, 3), label, color);
    let ghost after_label = shapes(out@);
    if has_windows && !is_active {
        push_shape(out, BarElement::Circle { center: (add_clamped(x, 32), add_clamped(y, 12)), radius: 3, color: fg });
    }
    proof {
        let (sbg, scolor) = ws_colors(*ws, active, fg, *st);
        assert(sbg == bg && scolor == color);
        assert(shapes(out@) =~= start + ws_shapes(*ws, active, x, y, fg, *st));
    }
}

/// Draws one indicator per workspace, in display order, from `*x` on, and
/// moves `*x` past them.
pub fn render_workspaces(out: &mut Vec<BarElement>, manager: &WorkspaceManager, x: &mut i32, y: i32, fg: Rgba, st: &BarStyle)
    ensures
        shapes(final(out)@) == shapes(old(out)@)
            + spaces_shapes(manager.spaces(), manager.active_id(), *old(x), y, fg, *st),
        *final(x) == clamp32(*old(x) + 48 * manager.spaces().len()),
{
    let spaces = manager.all_workspaces();
    let active = manager.active_workspace_id();
    let x0 = *x;
    let mut k: usize = 0;
    assert(x0 + 48 * 0 == x0);
    while k < spaces.len()
        invariant
            0 <= k <= spaces@.len(),
            spaces@ == manager.spaces(),
            active == manager.active_id(),
            *x == clamp32(x0 + 48 * k),
            shapes(out@) == shapes(old(out)@) + spaces_shapes(spaces@.subrange(0, k as int), active, x0, y, fg, *st),
        decreases spaces@.len() - k,
    {
        proof {
            let pre = spaces@.subrange(0, k + 1);
            assert(pre.drop_last() =~= spaces@.subrange(0, k as int));
            assert(pre.last() == spaces@[k as int]);
        }
        render_workspace(out, &spaces[k], active, *x, y, fg, st);
        *x = add_clamped(*x, 48);
        proof {
            assert(48 * (k + 1) == 48 * k + 48);
        }
        k = k + 1;
    }
    proof {
        assert(spaces@.subrange(0, spaces@.len() as int) =~= spaces@);
        assert(shapes(out@) =~= shapes(old(out)@) + spaces_shapes(spaces@, active, x0, y, fg, *st));
    }
}

/// `x` moved past a text of `n` characters: 8 pixels each and 16 of padding.
pub open spec fn after_text(x: i32, n: nat) -> i32 {
    clamp32(x + 8 * n + 16)
}

fn advance_text(x: i32, n: usize) -> (r: i32)
    ensures
        r == after_text(x, n as nat),
{
    if n as u64 >= 0x1_0000_0000 {
        2147483647
    } else {
        add_clamped(x, 8 * n as i64 + 16)
    }
}

/// The primitives of widget `w` with its left edge at `x`, and where the next
/// widget starts. `spaces` and `active` describe the workspaces, `title` the
/// focused window, `t` the time in seconds after the epoch.
pub open spec fn widget_shapes(
    w: Widget, spaces: Seq<Workspace>, active: u32, title: Option<Seq<char>>, t: nat,
    x: i32, y: i32, fg: Rgba, st: BarStyle,
) -> (Seq<Shape>, i32) {
    match w {
        Widget::Workspaces { display } => (
            spaces_shapes(spaces, active, x, y, fg, st),
            clamp32(x + 48 * spaces.len()),
        ),
        Widget::WindowTitle { max_width } => match title {
            Some(tt) => {
                let s = truncated(tt, max_width);
                (seq![Shape::Text { position: (x, clamp32(y + 3)), text: s, color: fg, size: 13 }], after_text(x, s.len()))
            },
            None => (Seq::empty(), x),
        },
        Widget::SystemTray => (Seq::empty(), x),
        Widget::Clock { format } => {
            let s = clock_text(format@, t);
            (seq![Shape::Text { position: (x, clamp32(y + 3)), text: s, color: fg, size: 13 }], after_text(x, s.len()))
        },
        Widget::Spacer { flex } => (Seq::empty(), clamp32(x + 100 * flex)),
    }
}

/// The primitives of `ws` laid out from `x` on, and where the cursor ends.
pub open spec fn widgets_shapes(
    ws: Seq<Widget>, spaces: Seq<Workspace>, active: u32, title: Option<Seq<char>>, t: nat,
    x: i32, y: i32, fg: Rgba, st: BarStyle,
) -> (Seq<Shape>, i32)
    decreases ws.len(),
{
    if ws.len() == 0 {
        (Seq::empty(), x)
    } else {
        let (a, x1) = widgets_shapes(ws.drop_last(), spaces, active, title, t, x, y, fg, st);
        let (b, x2) = widget_shapes(ws.last(), spaces, active, title, t, x1, y, fg, st);
        (a + b, x2)
    }
}

pub open spec fn title_view(t: Option<String>) -> Option<Seq<char>> {
    match t {
        Some(s) => Some(s@),
        None => None,
    }
}

/// Draws widget `w` at `*x` and moves `*x` past it.
pub fn render_widget(
    out: &mut Vec<BarElement>, w: &Widget, manager: &WorkspaceManager, title: &Option<String>, t: u64,
    x: &mut i32, y: i32, fg: Rgba, st: &BarStyle,
)
    ensures
        ({
            let (s, nx) = widget_shapes(*w, manager.spaces(), manager.active_id(), title_view(*title), t as nat, *old(x), y, fg, *st);
            &&& shapes(final(out)@) == shapes(old(out)@) + s
            &&& *final(x) == nx
        }),
{
    match w {
        Widget::Workspaces { display: _ } => {
            render_workspaces(out, manager, x, y, fg, st);
        },
        Widget::WindowTitle { max_width } => {
            match title {
                Some(tt) => {
                    let shown = truncate_title(tt.as_str(), *max_width);
                    let n = shown.as_str().unicode_len();
                    let ghost before = shapes(out@);
                    push_text(out, *x, add_clamped(y, 3), shown, fg);
                    *x = advance_text(*x, n);
                    proof {
                        assert(shapes(out@) =~= before + seq![Shape::Text {
                            position: (*old(x), clamp32(y + 3)), text: truncated(tt@, *max_width), color: fg, size: 13 }]);
                    }
                },
                None => {
                    assert(shapes(out@) =~= shapes(out@) + Seq::<Shape>::empty());
                },
            }
        },
        Widget::SystemTray => {
            assert(shapes(out@) =~= shapes(out@) + Seq::<Shape>::empty());
        },
        Widget::Clock { format } => {
            let shown = format_time_at(format.as_str(), t);
            let n = shown.as_str().unicode_len();
            let ghost before = shapes(out@);
            push_text(out, *x, add_clamped(y, 3), shown, fg);
            *x = advance_text(*x, n);
            proof {
                assert(shapes(out@) =~= before + seq![Shape::Text {
                    position: (*old(x), clamp32(y + 3)), text: clock_text(format@, t as nat), color: fg, size: 13 }]);
            }
        },
        Widget::Spacer { flex } => {
            *x = add_clamped(*x, 100 * (*flex as i64));
            assert(shapes(out@) =~= shapes(out@) + Seq::<Shape>::empty());
        },
    }
}

/// The style that applies to bar `i`: its entry in `styles`, or none.
pub open spec fn style_for(styles: Seq<BarStyle>, i: int) -> BarStyle {
    if 0 <= i < styles.len() {
        styles[i]
    } else {
        BarStyle { background: None, color: None, active_background: None, active_color: None, workspace_background: None }
    }
}

/// The primitives of one bar: its background, then its widgets from 16
/// pixels in, 5 pixels below its top edge.
pub open spec fn bar_shapes(bar: Bar, spaces: Seq<Workspace>, active: u32, title: Option<Seq<char>>, t: nat, st: BarStyle) -> Seq<Shape> {
    seq![Shape::Rectangle { geometry: bar.geometry, color: or_else(st.background, bar_background()) }]
        + widgets_shapes(bar.config.widgets@, spaces, active, title, t, 16, clamp32(bar.geometry.y + 5),
            or_else(st.color, bar_foreground()), st).0
}

/// The primitives of `bars`, one bar after the other.
pub open spec fn bars_shapes(bars: Seq<Bar>, spaces: Seq<Workspace>, active: u32, title: Option<Seq<char>>, t: nat, styles: Seq<BarStyle>) -> Seq<Shape>
    decreases bars.len(),
{
    if bars.len() == 0 {
        Seq::empty()
    } else {
        bars_shapes(bars.drop_last(), spaces, active, title, t, styles)
            + bar_shapes(bars.last(), spaces, active, title, t, style_for(styles, bars.len() - 1))
    }
}

fn render_bar(
    out: &mut Vec<BarElement>, bar: &Bar, manager: &WorkspaceManager, title: &Option<String>, t: u64, st: &BarStyle,
)
    ensures
        shapes(final(out)@) == shapes(old(out)@)
            + bar_shapes(*bar, manager.spaces(), manager.active_id(), title_view(*title), t as nat, *st),
{
    let bg = pick(st.background, Rgba { r: 28, g: 28, b: 46, a: 242 });
    let fg = pick(st.color, Rgba { r: 204, g: 212, b: 245, a: 255 });
    let ghost start = shapes(out@);
    push_shape(out, BarElement::Rectangle { geometry: bar.geometry, color: bg });
    let mut x: i32 = 16;
    let y = add_clamped(bar.geometry.y, 5);
    let widgets = &bar.config.widgets;
    let ghost spaces = manager.spaces();
    let ghost active = manager.active_id();
    let ghost tv = title_view(*title);
    let mut k: usize = 0;
    proof { assert(widgets@.subrange(0, 0) =~= Seq::<Widget>::empty()); }
    while k < widgets.len()
        invariant
            0 <= k <= widgets@.len(),
            ({
                let (s, nx) = widgets_shapes(widgets@.subrange(0, k as int), spaces, active, tv, t as nat, 16, y, fg, *st);
                &&& shapes(out@) == start.push(Shape::Rectangle { geometry: bar.geometry, color: bg }) + s
                &&& x == nx
            }),
            spaces == manager.spaces(),
            active == manager.active_id(),
            tv == title_view(*title),
        decreases widgets@.len() - k,
    {
        proof {
            let pre = widgets@.subrange(0, k + 1);
            assert(pre.drop_last() =~= widgets@.subrange(0, k as int));
            assert(pre.last() == widgets@[k as int]);
        }
        let ghost before = shapes(out@);
        render_widget(out, &widgets[k], manager, title, t, &mut x, y, fg, st);
        proof {
            let (a, x1) = widgets_shapes(widgets@.subrange(0, k as int), spaces, active, tv, t as nat, 16, y, fg, *st);
            let (b, x2) = widget_shapes(widgets@[k as int], spaces, active, tv, t as nat, x1, y, fg, *st);
            assert(shapes(out@) =~= start.push(Shape::Rectangle { geometry: bar.geometry, color: bg }) + (a + b));
        }
        k = k + 1;
    }
    proof {
        assert(widgets@.subrange(0, widgets@.len() as int) =~= widgets@);
        let (s, nx) = widgets_shapes(widgets@, spaces, active, tv, t as nat, 16, y, fg, *st);
        assert(shapes(out@) =~= start + (seq![Shape::Rectangle { geometry: bar.geometry, color: bg }] + s));
    }
}

/// The bars of one output.
pub struct BarRenderer {
    pub bars: Vec<Bar>,
}

impl BarRenderer {
    /// One bar per configuration, in order, on an output `output_width` wide.
    pub fn new(bar_configs: Vec<BarConfig>, output_width: i32) -> (r: BarRenderer)
        requires
            forall|i: int| 0 <= i < bar_configs@.len() ==> #[trigger] bar_configs@[i].height <= i32::MAX,
            forall|i: int| 0 <= i < bar_configs@.len() && #[trigger] bar_configs@[i].position == Position::Right
                ==> output_width - bar_configs@[i].height >= i32::MIN,
        ensures
            r.bars@.len() == bar_configs@.len(),
            forall|i: int| 0 <= i < r.bars@.len() ==> {
                let b = #[trigger] r.bars@[i];
                &&& b.config == bar_configs@[i]
                &&& b.geometry == bar_geometry(bar_configs@[i].position, output_width as int, bar_configs@[i].height as int)
            },
    {
        let mut configs = bar_configs;
        let ghost all = configs@;
        let mut rev: Vec<Bar> = Vec::new();
        while configs.len() > 0
            invariant
                rev@.len() + configs@.len() == all.len(),
                configs@ == all.subrange(0, configs@.len() as int),
                forall|i: int| 0 <= i < rev@.len() ==> {
                    let b = #[trigger] rev@[i];
                    let c = all[all.len() - 1 - i];
                    &&& b.config == c
                    &&& b.geometry == bar_geometry(c.position, output_width as int, c.height as int)
                },
                forall|i: int| 0 <= i < all.len() ==> #[trigger] all[i].height <= i32::MAX,
                forall|i: int| 0 <= i < all.len() && #[trigger] all[i].position == Position::Right
                    ==> output_width - all[i].height >= i32::MIN,
            decreases configs@.len(),
        {
            let c = configs.pop().unwrap();
            rev.push(Bar::new(c, output_width));
            assert(configs@ =~= all.subrange(0, configs@.len() as int));
        }
        let mut bars: Vec<Bar> = Vec::new();
        while rev.len() > 0
            invariant
                rev@.len() + bars@.len() == all.len(),
                forall|i: int| 0 <= i < rev@.len() ==> {
                    let b = #[trigger] rev@[i];
                    let c = all[all.len() - 1 - i];
                    &&& b.config == c
                    &&& b.geometry == bar_geometry(c.position, output_width as int, c.height as int)
                },
                forall|i: int| 0 <= i < bars@.len() ==> {
                    let b = #[trigger] bars@[i];
                    &&& b.config == all[i]
                    &&& b.geometry == bar_geometry(all[i].position, output_width as int, all[i].height as int)
                },
            decreases rev@.len(),
        {
            let b = rev.pop().unwrap();
            bars.push(b);
        }
        BarRenderer { bars }
    }

    /// Height of the first bar, which relayouts keep clear; 0 without bars.
    pub fn bar_height(&self) -> (r: i32)
        ensures
            r == if self.bars@.len() > 0 { clamp32(self.bars@[0].config.height as int) } else { 0 },
    {
        if self.bars.len() > 0 {
            let h = self.bars[0].config.height;
            if h > 2147483647 { 2147483647 } else { h as i32 }
        } else {
            0
        }
    }

    /// The primitives of every bar at time `t`; `styles[i]` styles bar `i`,
    /// and a bar without an entry gets the built-in colors.
    pub fn render_bars_at(&self, manager: &WorkspaceManager, focused_window_title: Option<String>, styles: &[BarStyle], t: u64) -> (r: Vec<BarElement>)
        ensures
            shapes(r@) == bars_shapes(self.bars@, manager.spaces(), manager.active_id(), title_view(focused_window_title), t as nat, styles@),
    {
        let mut out: Vec<BarElement> = Vec::new();
        let mut k: usize = 0;
        assert(shapes(out@) =~= Seq::<Shape>::empty());
        while k < self.bars.len()
            invariant
                0 <= k <= self.bars@.len(),
                shapes(out@) == bars_shapes(self.bars@.subrange(0, k as int), manager.spaces(), manager.active_id(),
                    title_view(focused_window_title), t as nat, styles@),
            decreases self.bars@.len() - k,
        {
            proof {
                let pre = self.bars@.subrange(0, k + 1);
                assert(pre.drop_last() =~= self.bars@.subrange(0, k as int));
            }
            let none = BarStyle { background: None, color: None, active_background: None, active_color: None, workspace_background: None };
            let st = if k < styles.len() { styles[k] } else { none };
            render_bar(&mut out, &self.bars[k], manager, &focused_window_title, t, &st);
            k = k + 1;
        }
        proof { assert(self.bars@.subrange(0, self.bars@.len() as int) =~= self.bars@); }
        out
    }

    /// The primitives of every bar at the current time.
    pub fn render_bars(&self, manager: &WorkspaceManager, focused_window_title: Option<String>, styles: &[BarStyle]) -> (r: Vec<BarElement>)
        ensures
            exists|t: u64| shapes(r@) == #[trigger] bars_shapes(self.bars@, manager.spaces(), manager.active_id(),
                title_view(focused_window_title), t as nat, styles@),
    {
        self.render_bars_at(manager, focused_window_title, styles, seconds_now())
    }
}

} // verus!
