//! Software rasterization of bar primitives into an RGBA8 buffer.

use vstd::prelude::*;
use vstd::string::StrSliceExecFns;
use crate::bar::{BarElement, Rgba, Shape, shapes};

verus! {

/// Rows of the 5 by 7 glyph of `ch`, top first; bit 4 is the leftmost column.
/// Digits, letters of either case, space and `: / - . ,` have glyphs; any
/// other character is blank.
pub open spec fn glyph(ch: char) -> Seq<u8> {
    match ch {
        '0' => seq![0x0E, 0x11, 0x13, 0x15, 0x19, 0x11, 0x0E],
        '1' => seq![0x04, 0x0C, 0x04, 0x04, 0x04, 0x04, 0x0E],
        '2' => seq![0x0E, 0x11, 0x01, 0x02, 0x04, 0x08, 0x1F],
        '3' => seq![0x1F, 0x02, 0x04, 0x02, 0x01, 0x11, 0x0E],
        '4' => seq![0x02, 0x06, 0x0A, 0x12, 0x1F, 0x02, 0x02],
        '5' => seq![0x1F, 0x10, 0x1E, 0x01, 0x01, 0x11, 0x0E],
        '6' => seq![0x06, 0x08, 0x10, 0x1E, 0x11, 0x11, 0x0E],
        '7' => seq![0x1F, 0x01, 0x02, 0x04, 0x08, 0x08, 0x08],
        '8' => seq![0x0E, 0x11, 0x11, 0x0E, 0x11, 0x11, 0x0E],
        '9' => seq![0x0E, 0x11, 0x11, 0x0F, 0x01, 0x02, 0x0C],
        'A' | 'a' => seq![0x0E, 0x11, 0x11, 0x1F, 0x11, 0x11, 0x11],
        'B' | 'b' => seq![0x1E, 0x11, 0x11, 0x1E, 0x11, 0x11, 0x1E],
        'C' | 'c' => seq![0x0E, 0x11, 0x10, 0x10, 0x10, 0x11, 0x0E],
        'D' | 'd' => seq![0x1E, 0x11, 0x11, 0x11, 0x11, 0x11, 0x1E],
        'E' | 'e' => seq![0x1F, 0x10, 0x10, 0x1E, 0x10, 0x10, 0x1F],
        'F' | 'f' => seq![0x1F, 0x10, 0x10, 0x1E, 0x10, 0x10, 0x10],
        'G' | 'g' => seq![0x0E, 0x11, 0x10, 0x17, 0x11, 0x11, 0x0F],
        'H' | 'h' => seq![0x11, 0x11, 0x11, 0x1F, 0x11, 0x11, 0x11],
        'I' | 'i' => seq![0x0E, 0x04, 0x04, 0x04, 0x04, 0x04, 0x0E],
        'J' | 'j' => seq![0x07, 0x02, 0x02, 0x02, 0x02, 0x12, 0x0C],
        'K' | 'k' => seq![0x11, 0x12, 0x14, 0x18, 0x14, 0x12, 0x11],
        'L' | 'l' => seq![0x10, 0x10, 0x10, 0x10, 0x10, 0x10, 0x1F],
        'M' | 'm' => seq![0x11, 0x1B, 0x15, 0x15, 0x11, 0x11, 0x11],
        'N' | 'n' => seq![0x11, 0x11, 0x19, 0x15, 0x13, 0x11, 0x11],
        'O' | 'o' => seq![0x0E, 0x11, 0x11, 0x11, 0x11, 0x11, 0x0E],
        'P' | 'p' => seq![0x1E, 0x11, 0x11, 0x1E, 0x10, 0x10, 0x10],
        'Q' | 'q' => seq![0x0E, 0x11, 0x11, 0x11, 0x15, 0x12, 0x0D],
        'R' | 'r' => seq![0x1E, 0x11, 0x11, 0x1E, 0x14, 0x12, 0x11],
        'S' | 's' => seq![0x0F, 0x10, 0x10, 0x0E, 0x01, 0x01, 0x1E],
        'T' | 't' => seq![0x1F, 0x04, 0x04, 0x04, 0x04, 0x04, 0x04],
        'U' | 'u' => seq![0x11, 0x11, 0x11, 0x11, 0x11, 0x11, 0x0E],
        'V' | 'v' => seq![0x11, 0x11, 0x11, 0x11, 0x11, 0x0A, 0x04],
        'W' | 'w' => seq![0x11, 0x11, 0x11, 0x15, 0x15, 0x1B, 0x11],
        'X' | 'x' => seq![0x11, 0x11, 0x0A, 0x04, 0x0A, 0x11, 0x11],
        'Y' | 'y' => seq![0x11, 0x11, 0x11, 0x0A, 0x04, 0x04, 0x04],
        'Z' | 'z' => seq![0x1F, 0x01, 0x02, 0x04, 0x08, 0x10, 0x1F],
        ' ' => seq![0x00, 0x00, 0x00, 0x00, 0x00, 0x00, 0x00],
        ':' => seq![0x00, 0x0C, 0x0C, 0x00, 0x0C, 0x0C, 0x00],
        '/' => seq![0x01, 0x01, 0x02, 0x04, 0x08, 0x10, 0x10],
        '-' => seq![0x00, 0x00, 0x00, 0x1F, 0x00, 0x00, 0x00],
        '.' => seq![0x00, 0x00, 0x00, 0x00, 0x00, 0x0C, 0x0C],
        ',' => seq![0x00, 0x00, 0x00, 0x00, 0x00, 0x0C, 0x04],
        _ => seq![0x00, 0x00, 0x00, 0x00, 0x00, 0x00, 0x00],
    }
}

/// The 5 by 7 bitmap of `ch`.
pub fn get_char_bitmap(ch: char) -> (r: [u8; 7])
    ensures
        r@ == glyph(ch),
{
    let r: [u8; 7] = match ch {
        '0' => [0x0E, 0x11, 0x13, 0x15, 0x19, 0x11, 0x0E],
        '1' => [0x04, 0x0C, 0x04, 0x04, 0x04, 0x04, 0x0E],
        '2' => [0x0E, 0x11, 0x01, 0x02, 0x04, 0x08, 0x1F],
        '3' => [0x1F, 0x02, 0x04, 0x02, 0x01, 0x11, 0x0E],
        '4' => [0x02, 0x06, 0x0A, 0x12, 0x1F, 0x02, 0x02],
        '5' => [0x1F, 0x10, 0x1E, 0x01, 0x01, 0x11, 0x0E],
        '6' => [0x06, 0x08, 0x10, 0x1E, 0x11, 0x11, 0x0E],
        '7' => [0x1F, 0x01, 0x02, 0x04, 0x08, 0x08, 0x08],
        '8' => [0x0E, 0x11, 0x11, 0x0E, 0x11, 0x11, 0x0E],
        '9' => [0x0E, 0x11, 0x11, 0x0F, 0x01, 0x02, 0x0C],
        'A' | 'a' => [0x0E, 0x11, 0x11, 0x1F, 0x11, 0x11, 0x11],
        'B' | 'b' => [0x1E, 0x11, 0x11, 0x1E, 0x11, 0x11, 0x1E],
        'C' | 'c' => [0x0E, 0x11, 0x10, 0x10, 0x10, 0x11, 0x0E],
        'D' | 'd' => [0x1E, 0x11, 0x11, 0x11, 0x11, 0x11, 0x1E],
        'E' | 'e' => [0x1F, 0x10, 0x10, 0x1E, 0x10, 0x10, 0x1F],
        'F' | 'f' => [0x1F, 0x10, 0x10, 0x1E, 0x10, 0x10, 0x10],
        'G' | 'g' => [0x0E, 0x11, 0x10, 0x17, 0x11, 0x11, 0x0F],
        'H' | 'h' => [0x11, 0x11, 0x11, 0x1F, 0x11, 0x11, 0x11],
        'I' | 'i' => [0x0E, 0x04, 0x04, 0x04, 0x04, 0x04, 0x0E],
        'J' | 'j' => [0x07, 0x02, 0x02, 0x02, 0x02, 0x12, 0x0C],
        'K' | 'k' => [0x11, 0x12, 0x14, 0x18, 0x14, 0x12, 0x11],
        'L' | 'l' => [0x10, 0x10, 0x10, 0x10, 0x10, 0x10, 0x1F],
        'M' | 'm' => [0x11, 0x1B, 0x15, 0x15, 0x11, 0x11, 0x11],
        'N' | 'n' => [0x11, 0x11, 0x19, 0x15, 0x13, 0x11, 0x11],
        'O' | 'o' => [0x0E, 0x11, 0x11, 0x11, 0x11, 0x11, 0x0E],
        'P' | 'p' => [0x1E, 0x11, 0x11, 0x1E, 0x10, 0x10, 0x10],
        'Q' | 'q' => [0x0E, 0x11, 0x11, 0x11, 0x15, 0x12, 0x0D],
        'R' | 'r' => [0x1E, 0x11, 0x11, 0x1E, 0x14, 0x12, 0x11],
        'S' | 's' => [0x0F, 0x10, 0x10, 0x0E, 0x01, 0x01, 0x1E],
        'T' | 't' => [0x1F, 0x04, 0x04, 0x04, 0x04, 0x04, 0x04],
        'U' | 'u' => [0x11, 0x11, 0x11, 0x11, 0x11, 0x11, 0x0E],
        'V' | 'v' => [0x11, 0x11, 0x11, 0x11, 0x11, 0x0A, 0x04],
        'W' | 'w' => [0x11, 0x11, 0x11, 0x15, 0x15, 0x1B, 0x11],
        'X' | 'x' => [0x11, 0x11, 0x0A, 0x04, 0x0A, 0x11, 0x11],
        'Y' | 'y' => [0x11, 0x11, 0x11, 0x0A, 0x04, 0x04, 0x04],
        'Z' | 'z' => [0x1F, 0x01, 0x02, 0x04, 0x08, 0x10, 0x1F],
        ' ' => [0x00, 0x00, 0x00, 0x00, 0x00, 0x00, 0x00],
        ':' => [0x00, 0x0C, 0x0C, 0x00, 0x0C, 0x0C, 0x00],
        '/' => [0x01, 0x01, 0x02, 0x04, 0x08, 0x10, 0x10],
        '-' => [0x00, 0x00, 0x00, 0x1F, 0x00, 0x00, 0x00],
        '.' => [0x00, 0x00, 0x00, 0x00, 0x00, 0x0C, 0x0C],
        ',' => [0x00, 0x00, 0x00, 0x00, 0x00, 0x0C, 0x04],
        _ => [0x00, 0x00, 0x00, 0x00, 0x00, 0x00, 0x00],
    };
    assert(r@ =~= glyph(ch));
    r
}

/// Weight of column `col` (0 to 4, left to right) in a glyph row.
pub open spec fn col_weight(col: int) -> int {
    if col == 0 { 16 } else if col == 1 { 8 } else if col == 2 { 4 } else if col == 3 { 2 } else { 1 }
}

/// Whether column `col` of glyph row `bits` is set.
pub open spec fn bit_set(bits: u8, col: int) -> bool {
    (bits as int / col_weight(col)) % 2 == 1
}

/// The ASCII characters of `t`, in order: the ones that text drawing places.
pub open spec fn ascii_only(t: Seq<char>) -> Seq<char>
    decreases t.len(),
{
    if t.len() == 0 {
        Seq::empty()
    } else if (t.last() as u32) < 128 {
        ascii_only(t.drop_last()).push(t.last())
    } else {
        ascii_only(t.drop_last())
    }
}

/// Whether the pixel at offset `(dx, dy)` from the text origin is set: glyphs
/// are 5 by 7 and stand 6 pixels apart.
pub open spec fn text_lit(glyphs: Seq<char>, dx: int, dy: int) -> bool {
    &&& 0 <= dx
    &&& 0 <= dy < 7
    &&& dx % 6 < 5
    &&& dx / 6 < glyphs.len()
    &&& bit_set(glyph(glyphs[dx / 6])[dy], dx % 6)
}

/// Whether primitive `s` paints the pixel at `(x, y)`.
pub open spec fn covers(s: Shape, x: int, y: int) -> bool {
    match s {
        Shape::Rectangle { geometry: g, color } => g.x <= x < g.x + g.w && g.y <= y < g.y + g.h,
        Shape::Circle { center, radius, color } => {
            let (dx, dy) = (x - center.0, y - center.1);
            0 <= radius && dx * dx + dy * dy <= radius * radius
        },
        Shape::Text { position, text, color, size } => text_lit(ascii_only(text), x - position.0, y - position.1),
    }
}

pub open spec fn color_of(s: Shape) -> Rgba {
    match s {
        Shape::Rectangle { geometry, color } => color,
        Shape::Circle { center, radius, color } => color,
        Shape::Text { position, text, color, size } => color,
    }
}

/// Opacity after source-over compositing, scaled by 255 * 255.
pub open spec fn out_alpha255(sa: int, da: int) -> int {
    sa * 255 + da * (255 - sa)
}

/// A color channel after source-over compositing of source `(sc, sa)` onto
/// destination `(dc, da)`.
pub open spec fn blend_channel(sc: int, sa: int, dc: int, da: int) -> int {
    (sc * sa * 255 + dc * da * (255 - sa)) / out_alpha255(sa, da)
}

/// Byte `k` of `buf` after compositing `c` onto the pixel that holds it; a
/// result of zero opacity leaves the pixel as it was.
pub open spec fn blended_byte(buf: Seq<u8>, k: int, c: Rgba) -> u8 {
    let base = k - k % 4;
    let da = buf[base + 3] as int;
    let oa = out_alpha255(c.a as int, da);
    if oa == 0 {
        buf[k]
    } else if k % 4 == 0 {
        blend_channel(c.r as int, c.a as int, buf[base] as int, da) as u8
    } else if k % 4 == 1 {
        blend_channel(c.g as int, c.a as int, buf[base + 1] as int, da) as u8
    } else if k % 4 == 2 {
        blend_channel(c.b as int, c.a as int, buf[base + 2] as int, da) as u8
    } else {
        (oa / 255) as u8
    }
}

/// `buf`, a `w` pixels wide RGBA8 image, with primitive `s` composited onto it.
pub open spec fn draw(buf: Seq<u8>, s: Shape, w: int) -> Seq<u8> {
    Seq::new(buf.len(), |k: int| if covers(s, (k / 4) % w, (k / 4) / w) {
        blended_byte(buf, k, color_of(s))
    } else {
        buf[k]
    })
}

/// A transparent `w` by `h` image, then each primitive of `elems` in order.
pub open spec fn render(elems: Seq<Shape>, w: int, h: int) -> Seq<u8>
    decreases elems.len(),
{
    if elems.len() == 0 {
        Seq::new((4 * w * h) as nat, |k: int| 0u8)
    } else {
        draw(render(elems.drop_last(), w, h), elems.last(), w)
    }
}

proof fn lemma_blend_bounds(sc: int, sa: int, dc: int, da: int)
    requires
        0 <= sc <= 255,
        0 <= sa <= 255,
        0 <= dc <= 255,
        0 <= da <= 255,
        out_alpha255(sa, da) > 0,
    ensures
        0 <= blend_channel(sc, sa, dc, da) <= 255,
        0 <= out_alpha255(sa, da) <= 255 * 255,
{
    let oa = out_alpha255(sa, da);
    let num = sc * sa * 255 + dc * da * (255 - sa);
    assert(0 <= sc * sa * 255 <= 255 * (sa * 255)) by (nonlinear_arith)
        requires 0 <= sc <= 255, 0 <= sa <= 255;
    assert(0 <= dc * da * (255 - sa) <= 255 * (da * (255 - sa))) by (nonlinear_arith)
        requires 0 <= dc <= 255, 0 <= da <= 255, 0 <= sa <= 255;
    assert(0 <= da * (255 - sa) <= 255 * (255 - sa)) by (nonlinear_arith)
        requires 0 <= da <= 255, 0 <= sa <= 255;
    assert(num <= 255 * oa);
    vstd::arithmetic::div_mod::lemma_div_is_ordered(num, 255 * oa, oa);
    vstd::arithmetic::div_mod::lemma_div_multiples_vanish(255, oa);
    vstd::arithmetic::div_mod::lemma_div_pos_is_pos(num, oa);
}

/// Composites `c` onto the pixel whose bytes start at `base`.
fn blend_pixel(buf: &mut Vec<u8>, base: usize, c: Rgba)
    requires
        base % 4 == 0,
        base + 4 <= old(buf)@.len(),
    ensures
        final(buf)@.len() == old(buf)@.len(),
        forall|k: int| 0 <= k < old(buf)@.len() ==> #[trigger] final(buf)@[k] == if base <= k < base + 4 {
            blended_byte(old(buf)@, k, c)
        } else {
            old(buf)@[k]
        },
{
    let sa = c.a as u32;
    let da = buf[base + 3] as u32;
    assert(0 <= da * (255 - sa) <= 255 * 255) by (nonlinear_arith)
        requires da <= 255, sa <= 255;
    let oa = sa * 255 + da * (255 - sa);
    if oa == 0 {
        return;
    }
    let dr = buf[base] as u32;
    let dg = buf[base + 1] as u32;
    let db = buf[base + 2] as u32;
    proof {
        lemma_blend_bounds(c.r as int, sa as int, dr as int, da as int);
        lemma_blend_bounds(c.g as int, sa as int, dg as int, da as int);
        lemma_blend_bounds(c.b as int, sa as int, db as int, da as int);
        assert(0 <= (c.r as u32) * sa * 255 <= 255 * 255 * 255) by (nonlinear_arith)
            requires c.r <= 255, sa <= 255;
        assert(0 <= (c.g as u32) * sa * 255 <= 255 * 255 * 255) by (nonlinear_arith)
            requires c.g <= 255, sa <= 255;
        assert(0 <= (c.b as u32) * sa * 255 <= 255 * 255 * 255) by (nonlinear_arith)
            requires c.b <= 255, sa <= 255;
        assert(0 <= dr * da * (255 - sa) <= 255 * 255 * 255) by (nonlinear_arith)
            requires dr <= 255, da <= 255, sa <= 255;
        assert(0 <= dg * da * (255 - sa) <= 255 * 255 * 255) by (nonlinear_arith)
            requires dg <= 255, da <= 255, sa <= 255;
        assert(0 <= db * da * (255 - sa) <= 255 * 255 * 255) by (nonlinear_arith)
            requires db <= 255, da <= 255, sa <= 255;
        assert(0 <= da * (255 - sa) <= 255 * 255) by (nonlinear_arith)
            requires da <= 255, sa <= 255;
        assert(dr * da <= 255 * 255 && dg * da <= 255 * 255 && db * da <= 255 * 255) by (nonlinear_arith)
            requires dr <= 255, dg <= 255, db <= 255, da <= 255;
        assert((c.r as u32) * sa <= 255 * 255 && (c.g as u32) * sa <= 255 * 255 && (c.b as u32) * sa <= 255 * 255)
            by (nonlinear_arith)
            requires c.r <= 255, c.g <= 255, c.b <= 255, sa <= 255;
    }
    let r = ((c.r as u32) * sa * 255 + dr * da * (255 - sa)) / oa;
    let g = ((c.g as u32) * sa * 255 + dg * da * (255 - sa)) / oa;
    let b = ((c.b as u32) * sa * 255 + db * da * (255 - sa)) / oa;
    let ghost before = buf@;
    buf.set(base, r as u8);
    buf.set(base + 1, g as u8);
    buf.set(base + 2, b as u8);
    buf.set(base + 3, (oa / 255) as u8);
    proof {
        assert forall|k: int| base <= k < base + 4 implies k - #[trigger] (k % 4) == base && (k % 4 == k - base) by {
            vstd::arithmetic::div_mod::lemma_fundamental_div_mod_converse(k, 4, (base / 4) as int, k - base);
        }
    }
}

/// The ASCII characters of `text`, in order.
fn ascii_chars(text: &str) -> (r: Vec<char>)
    ensures
        r@ == ascii_only(text@),
{
    let n = text.unicode_len();
    let mut r: Vec<char> = Vec::new();
    let mut i: usize = 0;
    while i < n
        invariant
            n == text@.len(),
            0 <= i <= n,
            r@ == ascii_only(text@.subrange(0, i as int)),
        decreases n - i,
    {
        let c = text.get_char(i);
        proof {
            let pre = text@.subrange(0, i + 1);
            assert(pre.drop_last() =~= text@.subrange(0, i as int));
            assert(pre.last() == c);
        }
        if (c as u32) < 128 {
            r.push(c);
        }
        i = i + 1;
    }
    proof { assert(text@.subrange(0, n as int) =~= text@); }
    r
}

fn bit_at(bits: u8, col: i64) -> (r: bool)
    requires
        0 <= col < 5,
    ensures
        r == bit_set(bits, col as int),
{
    let weight: u8 = if col == 0 { 16 } else if col == 1 { 8 } else if col == 2 { 4 } else if col == 3 { 2 } else { 1 };
    (bits / weight) % 2 == 1
}

/// Whether element `e` paints pixel `(x, y)`; `glyphs` are the ASCII
/// characters of its text, if it has one.
fn covers_at(e: &BarElement, glyphs: &Vec<char>, x: i64, y: i64) -> (r: bool)
    requires
        0 <= x <= i32::MAX,
        0 <= y <= i32::MAX,
        e matches BarElement::Text { text, .. } ==> glyphs@ == ascii_only(text@),
    ensures
        r == covers(e@, x as int, y as int),
{
    match e {
        BarElement::Rectangle { geometry: g, color: _ } => {
            g.x as i64 <= x && x < g.x as i64 + g.w as i64 && g.y as i64 <= y && y < g.y as i64 + g.h as i64
        },
        BarElement::Circle { center, radius, color: _ } => {
            let dx = (x - center.0 as i64) as i128;
            let dy = (y - center.1 as i64) as i128;
            let r = *radius as i128;
            assert(0 <= dx * dx <= 0x1_0000_0000_0000_0000_0 && 0 <= dy * dy <= 0x1_0000_0000_0000_0000_0) by (nonlinear_arith)
                requires -0x1_0000_0000 <= dx <= 0x1_0000_0000, -0x1_0000_0000 <= dy <= 0x1_0000_0000;
            assert(0 <= r * r <= 0x1_0000_0000_0000_0000) by (nonlinear_arith)
                requires -0x8000_0000 <= r <= 0x8000_0000;
            0 <= r && dx * dx + dy * dy <= r * r
        },
        BarElement::Text { position, text: _, color: _, size: _ } => {
            let dx = x - position.0 as i64;
            let dy = y - position.1 as i64;
            if dx < 0 || dy < 0 || dy >= 7 || dx % 6 >= 5 {
                return false;
            }
            let j = dx / 6;
            if j as u64 >= glyphs.len() as u64 {
                return false;
            }
            let bits = get_char_bitmap(glyphs[j as usize]);
            bit_at(bits[dy as usize], dx % 6)
        },
    }
}

/// Bytes of a `w` by `h` RGBA8 image; none when a side is not positive.
pub open spec fn buffer_len(w: int, h: int) -> int {
    if w > 0 && h > 0 { 4 * w * h } else { 0 }
}

/// Composites element `e` onto `buf`, a `w` by `h` image.
fn draw_element(buf: &mut Vec<u8>, w: i32, h: i32, e: &BarElement)
    requires
        w > 0,
        h > 0,
        old(buf)@.len() == 4 * w * h,
    ensures
        final(buf)@ == draw(old(buf)@, e@, w as int),
{
    let glyphs = match e {
        BarElement::Text { text, .. } => ascii_chars(text.as_str()),
        _ => Vec::new(),
    };
    let ghost orig = buf@;
    let ghost target = draw(orig, e@, w as int);
    let ghost c = color_of(e@);
    let color = match e {
        BarElement::Rectangle { color, .. } => *color,
        BarElement::Circle { color, .. } => *color,
        BarElement::Text { color, .. } => *color,
    };
    assert(orig.len() <= usize::MAX) by {
        assert(buf@.len() == buf.len());
    }
    assert(w as int * h as int <= orig.len() && orig.len() == 4 * (w as int * h as int)) by (nonlinear_arith)
        requires orig.len() == 4 * w * h, w > 0, h > 0;
    let total: usize = (w as usize) * (h as usize);
    let mut p: usize = 0;
    let mut x: i32 = 0;
    let mut y: i32 = 0;
    while p < total
        invariant
            total == w * h,
            orig.len() == 4 * total,
            orig.len() <= usize::MAX,
            w > 0,
            h > 0,
            orig.len() == 4 * w * h,
            target == draw(orig, e@, w as int),
            c == color_of(e@),
            color == c,
            e matches BarElement::Text { text, .. } ==> glyphs@ == ascii_only(text@),
            0 <= x < w,
            0 <= y,
            p == y * w + x,
            p <= total,
            buf@.len() == orig.len(),
            forall|k: int| 0 <= k < orig.len() ==> #[trigger] buf@[k] == if k / 4 < p { target[k] } else { orig[k] },
        decreases total - p,
    {
        proof {
            vstd::arithmetic::div_mod::lemma_fundamental_div_mod_converse(p as int, w as int, y as int, x as int);
        }
        assert(y < h) by (nonlinear_arith)
            requires p == y * w + x, p < w * h, x >= 0, w > 0, y >= 0;
        let ghost before = buf@;
        if covers_at(e, &glyphs, x as i64, y as i64) {
            blend_pixel(buf, 4 * p, color);
        }
        proof {
            assert forall|k: int| 0 <= k < orig.len() implies #[trigger] buf@[k] == if k / 4 < p + 1 { target[k] } else { orig[k] } by {
                if 4 * p <= k < 4 * p + 4 {
                    vstd::arithmetic::div_mod::lemma_fundamental_div_mod_converse(k, 4, p as int, k - 4 * p);
                    assert(k / 4 == p);
                    assert(k - k % 4 == 4 * p);
                    assert forall|d: int| 0 <= d < 4 implies #[trigger] before[4 * p + d] == orig[4 * p + d] by {
                        assert(4 * p + d < orig.len());
                        vstd::arithmetic::div_mod::lemma_fundamental_div_mod_converse(4 * p + d, 4, p as int, d);
                    }
                    assert(before[4 * p + 3] == orig[4 * p + 3]);
                    assert(before[4 * p + 0] == orig[4 * p + 0]);
                    assert(before[4 * p + 1] == orig[4 * p + 1]);
                    assert(before[4 * p + 2] == orig[4 * p + 2]);
                } else {
                    if k < 4 * p {
                        vstd::arithmetic::div_mod::lemma_div_is_ordered(k, 4 * p - 1, 4);
                        vstd::arithmetic::div_mod::lemma_fundamental_div_mod_converse(4 * p - 1, 4, p - 1, 3);
                    } else {
                        vstd::arithmetic::div_mod::lemma_div_is_ordered(4 * p + 4, k, 4);
                        vstd::arithmetic::div_mod::lemma_fundamental_div_mod_converse(4 * p + 4, 4, p + 1, 0);
                    }
                }
            }
        }
        p = p + 1;
        if x == w - 1 {
            assert((y + 1) * w == y * w + w) by (nonlinear_arith);
            x = 0;
            y = y + 1;
        } else {
            x = x + 1;
        }
    }
    proof {
        assert forall|k: int| 0 <= k < orig.len() implies #[trigger] (k / 4) < p by {
            vstd::arithmetic::div_mod::lemma_div_is_ordered(k, 4 * p - 1, 4);
            vstd::arithmetic::div_mod::lemma_fundamental_div_mod_converse(4 * p - 1, 4, p - 1, 3);
        }
        assert(buf@ =~= target);
    }
}

/// Rasterizes bar primitives into a `width` by `height` RGBA8 image.
pub struct BarTextureRenderer {
    width: i32,
    height: i32,
}

impl BarTextureRenderer {
    pub closed spec fn width(&self) -> i32 {
        self.width
    }

    pub closed spec fn height(&self) -> i32 {
        self.height
    }

    pub fn new(width: i32, height: i32) -> (r: Self)
        ensures
            r.width() == width,
            r.height() == height,
    {
        BarTextureRenderer { width, height }
    }

    /// A transparent image with every element composited onto it in order.
    /// Drawing clips to the image.
    pub fn render_to_buffer(&self, elements: &[BarElement]) -> (r: Vec<u8>)
        requires
            buffer_len(self.width() as int, self.height() as int) <= usize::MAX,
        ensures
            r@.len() == buffer_len(self.width() as int, self.height() as int),
            self.width() > 0 && self.height() > 0 ==> r@ == render(shapes(elements@), self.width() as int, self.height() as int),
    {
        let w = self.width;
        let h = self.height;
        if w <= 0 || h <= 0 {
            return Vec::new();
        }
        assert(4 * w * h == 4 * (w as int * h as int)) by (nonlinear_arith);
        assert(0 < w as int * h as int) by (nonlinear_arith) requires w > 0, h > 0;
        let size: usize = 4 * ((w as usize) * (h as usize));
        let mut buf: Vec<u8> = Vec::new();
        while buf.len() < size
            invariant
                buf@.len() <= size,
                forall|k: int| 0 <= k < buf@.len() ==> buf@[k] == 0u8,
            decreases size - buf@.len(),
        {
            buf.push(0u8);
        }
        proof {
            assert(buf@ =~= render(shapes(elements@).subrange(0, 0), w as int, h as int));
        }
        let mut i: usize = 0;
        while i < elements.len()
            invariant
                0 <= i <= elements@.len(),
                w > 0,
                h > 0,
                buf@ == render(shapes(elements@).subrange(0, i as int), w as int, h as int),
                buf@.len() == 4 * w * h,
            decreases elements@.len() - i,
        {
            proof {
                let pre = shapes(elements@).subrange(0, i + 1);
                assert(pre.drop_last() =~= shapes(elements@).subrange(0, i as int));
                assert(pre.last() == elements@[i as int]@);
            }
            draw_element(&mut buf, w, h, &elements[i]);
            i = i + 1;
        }
        proof { assert(shapes(elements@).subrange(0, elements@.len() as int) =~= shapes(elements@)); }
        buf
    }
}

} // verus!
