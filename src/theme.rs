//! Window border styling: stylesheet values first, then the theme.

use vstd::prelude::*;
use vstd::string::StrSliceExecFns;
use crate::bar::Rgba;
use crate::config::{LayoutConfig, ThemeConfig};

verus! {

/// Value of a hexadecimal digit.
pub open spec fn hex_digit(c: char) -> Option<nat> {
    if '0' <= c && c <= '9' {
        Some((c as u32 - 48) as nat)
    } else if 'a' <= c && c <= 'f' {
        Some((c as u32 - 87) as nat)
    } else if 'A' <= c && c <= 'F' {
        Some((c as u32 - 55) as nat)
    } else {
        None
    }
}

/// A two-character base-16 byte as `u8::from_str_radix` reads it (two
/// digits, or `+` and one digit), or 0 when it is not one.
pub open spec fn hex_byte(a: char, b: char) -> nat {
    match (hex_digit(a), hex_digit(b)) {
        (Some(x), Some(y)) => 16 * x + y,
        (_, Some(y)) => if a == '+' { y } else { 0 },
        _ => 0,
    }
}

/// `s` without its leading `#` characters.
pub open spec fn strip_hashes(s: Seq<char>) -> Seq<char>
    decreases s.len(),
{
    if s.len() > 0 && s[0] == '#' {
        strip_hashes(s.subrange(1, s.len() as int))
    } else {
        s
    }
}

/// An opaque color from `#rrggbb`; mid gray when the text after the leading
/// `#`s is not six characters long.
pub open spec fn hex_color(s: Seq<char>) -> Rgba {
    let h = strip_hashes(s);
    if h.len() == 6 {
        Rgba { r: hex_byte(h[0], h[1]) as u8, g: hex_byte(h[2], h[3]) as u8, b: hex_byte(h[4], h[5]) as u8, a: 255 }
    } else {
        Rgba { r: 128, g: 128, b: 128, a: 255 }
    }
}

fn digit_value(c: char) -> (r: Option<u32>)
    ensures
        match hex_digit(c) {
            Some(v) => r == Some(v as u32),
            None => r is None,
        },
        r matches Some(v) ==> v < 16,
{
    if '0' <= c && c <= '9' {
        Some(c as u32 - 48)
    } else if 'a' <= c && c <= 'f' {
        Some(c as u32 - 87)
    } else if 'A' <= c && c <= 'F' {
        Some(c as u32 - 55)
    } else {
        None
    }
}

fn byte_value(a: char, b: char) -> (r: u8)
    ensures
        r == hex_byte(a, b),
        hex_byte(a, b) < 256,
{
    match (digit_value(a), digit_value(b)) {
        (Some(x), Some(y)) => (16 * x + y) as u8,
        (_, Some(y)) => if a == '+' { y as u8 } else { 0 },
        _ => 0,
    }
}

/// Reads a `#rrggbb` color.
pub fn parse_hex_color(hex: &str) -> (r: Rgba)
    ensures
        r == hex_color(hex@),
{
    let n = hex.unicode_len();
    let mut i: usize = 0;
    assert(hex@.subrange(0, n as int) =~= hex@);
    while i < n && hex.get_char(i) == '#'
        invariant
            n == hex@.len(),
            0 <= i <= n,
            strip_hashes(hex@.subrange(i as int, n as int)) == strip_hashes(hex@),
        decreases n - i,
    {
        proof {
            let rest = hex@.subrange(i as int, n as int);
            assert(rest.subrange(1, rest.len() as int) =~= hex@.subrange(i + 1, n as int));
        }
        i = i + 1;
    }
    let ghost rest = hex@.subrange(i as int, n as int);
    assert(strip_hashes(rest) == rest);
    if n - i == 6 {
        Rgba {
            r: byte_value(hex.get_char(i), hex.get_char(i + 1)),
            g: byte_value(hex.get_char(i + 2), hex.get_char(i + 3)),
            b: byte_value(hex.get_char(i + 4), hex.get_char(i + 5)),
            a: 255,
        }
    } else {
        Rgba { r: 128, g: 128, b: 128, a: 255 }
    }
}

/// Border color of a window: the stylesheet's `border-color` for it when
/// given, else the theme's color for focused or other windows.
pub fn get_border_color(focused: bool, styled: Option<Rgba>, theme: &ThemeConfig) -> (r: Rgba)
    ensures
        r == match styled {
            Some(c) => c,
            None => hex_color(if focused { theme.border_focused@ } else { theme.border_normal@ }),
        },
{
    match styled {
        Some(c) => c,
        None => if focused {
            parse_hex_color(theme.border_focused.as_str())
        } else {
            parse_hex_color(theme.border_normal.as_str())
        },
    }
}

/// Border width: the stylesheet's `border-width` when given, else the layout's.
pub fn get_border_width(styled: Option<u32>, layout: &LayoutConfig) -> (r: u32)
    ensures
        r == match styled {
            Some(w) => w,
            None => layout.border_width,
        },
{
    match styled {
        Some(w) => w,
        None => layout.border_width,
    }
}

} // verus!
