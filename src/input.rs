//! Keyboard input: modifier state, key names and keybinding matching.

use vstd::prelude::*;
use vstd::string::StringExecFns;
use crate::config::Keybinding;
use crate::text::{decimal, eq_ignore_case, fold_case, push_char, push_decimal, str_eq, str_eq_ignore_case};

verus! {

/// The four modifier flags of live keyboard state.
#[derive(Clone, Copy, Debug, PartialEq, Eq, Structural)]
pub struct Modifiers {
    pub ctrl: bool,
    pub alt: bool,
    pub shift: bool,
    pub super_key: bool,
}

pub open spec fn is_ctrl_alias(m: Seq<char>) -> bool {
    eq_ignore_case(m, seq!['c', 't', 'r', 'l'])
        || eq_ignore_case(m, seq!['c', 'o', 'n', 't', 'r', 'o', 'l'])
}

pub open spec fn is_alt_alias(m: Seq<char>) -> bool {
    eq_ignore_case(m, seq!['a', 'l', 't']) || eq_ignore_case(m, seq!['m', 'o', 'd', '1'])
}

pub open spec fn is_shift_alias(m: Seq<char>) -> bool {
    eq_ignore_case(m, seq!['s', 'h', 'i', 'f', 't'])
}

pub open spec fn is_super_alias(m: Seq<char>) -> bool {
    eq_ignore_case(m, seq!['s', 'u', 'p', 'e', 'r'])
        || eq_ignore_case(m, seq!['m', 'o', 'd', '4'])
        || eq_ignore_case(m, seq!['l', 'o', 'g', 'o'])
}

/// The modifier set that a list of modifier names asks for; unknown names
/// are ignored.
pub open spec fn required_mods(names: Seq<String>) -> Modifiers {
    Modifiers {
        ctrl: exists|i: int| 0 <= i < names.len() && is_ctrl_alias(#[trigger] names[i]@),
        alt: exists|i: int| 0 <= i < names.len() && is_alt_alias(#[trigger] names[i]@),
        shift: exists|i: int| 0 <= i < names.len() && is_shift_alias(#[trigger] names[i]@),
        super_key: exists|i: int| 0 <= i < names.len() && is_super_alias(#[trigger] names[i]@),
    }
}

/// No name equals, up to case, two words that differ in letter `i`.
proof fn lemma_not_both(s: Seq<char>, a: Seq<char>, b: Seq<char>, i: int)
    requires
        0 <= i < a.len(),
        fold_case(a[i]) != fold_case(b[i]),
    ensures
        !(eq_ignore_case(s, a) && eq_ignore_case(s, b)),
{
    if eq_ignore_case(s, a) && eq_ignore_case(s, b) {
        assert(fold_case(s[i]) == fold_case(a[i]));
        assert(fold_case(s[i]) == fold_case(b[i]));
    }
}

/// A name is an alias of at most one modifier.
proof fn lemma_alias_exclusive(s: Seq<char>)
    ensures
        is_ctrl_alias(s) ==> !is_alt_alias(s) && !is_shift_alias(s) && !is_super_alias(s),
        is_alt_alias(s) ==> !is_shift_alias(s) && !is_super_alias(s),
        is_shift_alias(s) ==> !is_super_alias(s),
{
    let ctrl = seq!['c', 't', 'r', 'l'];
    let mod1 = seq!['m', 'o', 'd', '1'];
    let mod4 = seq!['m', 'o', 'd', '4'];
    let logo = seq!['l', 'o', 'g', 'o'];
    let shift = seq!['s', 'h', 'i', 'f', 't'];
    let sup = seq!['s', 'u', 'p', 'e', 'r'];
    lemma_not_both(s, ctrl, mod1, 0);
    lemma_not_both(s, ctrl, mod4, 0);
    lemma_not_both(s, ctrl, logo, 0);
    lemma_not_both(s, mod1, mod4, 3);
    lemma_not_both(s, mod1, logo, 0);
    lemma_not_both(s, shift, sup, 1);
}

impl Modifiers {
    pub fn new(ctrl: bool, alt: bool, shift: bool, super_key: bool) -> (r: Modifiers)
        ensures
            r == (Modifiers { ctrl, alt, shift, super_key }),
    {
        Modifiers { ctrl, alt, shift, super_key }
    }

    /// Whether this live state is exactly the set that `binding_mods` names:
    /// an extra held modifier breaks the match.
    pub fn matches(&self, binding_mods: &[String]) -> (r: bool)
        ensures
            r == (*self == required_mods(binding_mods@)),
    {
        let mut req = Modifiers { ctrl: false, alt: false, shift: false, super_key: false };
        let mut i: usize = 0;
        while i < binding_mods.len()
            invariant
                0 <= i <= binding_mods@.len(),
                req.ctrl == exists|k: int| 0 <= k < i && is_ctrl_alias(#[trigger] binding_mods@[k]@),
                req.alt == exists|k: int| 0 <= k < i && is_alt_alias(#[trigger] binding_mods@[k]@),
                req.shift == exists|k: int| 0 <= k < i && is_shift_alias(#[trigger] binding_mods@[k]@),
                req.super_key == exists|k: int| 0 <= k < i && is_super_alias(#[trigger] binding_mods@[k]@),
            decreases binding_mods@.len() - i,
        {
            let m = binding_mods[i].as_str();
            proof {
                reveal_strlit("ctrl");
                reveal_strlit("control");
                reveal_strlit("alt");
                reveal_strlit("mod1");
                reveal_strlit("shift");
                reveal_strlit("super");
                reveal_strlit("mod4");
                reveal_strlit("logo");
                assert("ctrl"@ =~= seq!['c', 't', 'r', 'l']);
                assert("control"@ =~= seq!['c', 'o', 'n', 't', 'r', 'o', 'l']);
                assert("alt"@ =~= seq!['a', 'l', 't']);
                assert("mod1"@ =~= seq!['m', 'o', 'd', '1']);
                assert("shift"@ =~= seq!['s', 'h', 'i', 'f', 't']);
                assert("super"@ =~= seq!['s', 'u', 'p', 'e', 'r']);
                assert("mod4"@ =~= seq!['m', 'o', 'd', '4']);
                assert("logo"@ =~= seq!['l', 'o', 'g', 'o']);
            }
            if str_eq_ignore_case(m, "ctrl") || str_eq_ignore_case(m, "control") {
                req.ctrl = true;
            } else if str_eq_ignore_case(m, "alt") || str_eq_ignore_case(m, "mod1") {
                req.alt = true;
            } else if str_eq_ignore_case(m, "shift") {
                req.shift = true;
            } else if str_eq_ignore_case(m, "super") || str_eq_ignore_case(m, "mod4") || str_eq_ignore_case(m, "logo") {
                req.super_key = true;
            }
            proof {
                lemma_alias_exclusive(binding_mods@[i as int]@);
                assert(req.ctrl == exists|k: int| 0 <= k < i + 1 && is_ctrl_alias(#[trigger] binding_mods@[k]@));
                assert(req.alt == exists|k: int| 0 <= k < i + 1 && is_alt_alias(#[trigger] binding_mods@[k]@));
                assert(req.shift == exists|k: int| 0 <= k < i + 1 && is_shift_alias(#[trigger] binding_mods@[k]@));
                assert(req.super_key == exists|k: int| 0 <= k < i + 1 && is_super_alias(#[trigger] binding_mods@[k]@));
            }
            i = i + 1;
        }
        self.ctrl == req.ctrl && self.alt == req.alt && self.shift == req.shift
            && self.super_key == req.super_key
    }
}

/// Keysym of the Return key.
pub const KEY_RETURN: u32 = 0xff0d;
/// Keysym of the Escape key.
pub const KEY_ESCAPE: u32 = 0xff1b;
/// Keysym of the BackSpace key.
pub const KEY_BACKSPACE: u32 = 0xff08;
/// Keysym of the Tab key.
pub const KEY_TAB: u32 = 0xff09;
/// Keysym of the space bar.
pub const KEY_SPACE: u32 = 0x20;
/// Keysym of the left arrow; up, right and down follow it.
pub const KEY_LEFT: u32 = 0xff51;
pub const KEY_UP: u32 = 0xff52;
pub const KEY_RIGHT: u32 = 0xff53;
pub const KEY_DOWN: u32 = 0xff54;
/// Keysym of F1; F2 to F12 follow it.
pub const KEY_F1: u32 = 0xffbe;
pub const KEY_F12: u32 = 0xffc9;

/// Canonical name of a keysym: named keys, lower-case letters, digits,
/// F1 to F12, arrows, and `Unknown(<code>)` for anything else.
pub open spec fn key_name(sym: u32) -> Seq<char> {
    if sym == KEY_RETURN {
        "Return"@
    } else if sym == KEY_ESCAPE {
        "Escape"@
    } else if sym == KEY_BACKSPACE {
        "BackSpace"@
    } else if sym == KEY_TAB {
        "Tab"@
    } else if sym == KEY_SPACE {
        "space"@
    } else if 0x61 <= sym <= 0x7a || 0x30 <= sym <= 0x39 {
        seq![(sym as u8) as char]
    } else if KEY_F1 <= sym <= KEY_F12 {
        seq!['F'] + decimal((sym - KEY_F1 + 1) as nat)
    } else if sym == KEY_LEFT {
        "Left"@
    } else if sym == KEY_RIGHT {
        "Right"@
    } else if sym == KEY_UP {
        "Up"@
    } else if sym == KEY_DOWN {
        "Down"@
    } else {
        "Unknown("@ + decimal(sym as nat) + ")"@
    }
}

/// The canonical name of a keysym.
pub fn keysym_to_string(sym: u32) -> (r: String)
    ensures
        r@ == key_name(sym),
{
    if sym == KEY_RETURN {
        String::from_str("Return")
    } else if sym == KEY_ESCAPE {
        String::from_str("Escape")
    } else if sym == KEY_BACKSPACE {
        String::from_str("BackSpace")
    } else if sym == KEY_TAB {
        String::from_str("Tab")
    } else if sym == KEY_SPACE {
        String::from_str("space")
    } else if (0x61 <= sym && sym <= 0x7a) || (0x30 <= sym && sym <= 0x39) {
        let mut s = String::new();
        push_char(&mut s, (sym as u8) as char);
        assert(s@ =~= key_name(sym));
        s
    } else if KEY_F1 <= sym && sym <= KEY_F12 {
        let mut s = String::from_str("F");
        push_decimal(&mut s, (sym - KEY_F1 + 1) as u64);
        proof {
            reveal_strlit("F");
            assert(s@ =~= key_name(sym));
        }
        s
    } else if sym == KEY_LEFT {
        String::from_str("Left")
    } else if sym == KEY_RIGHT {
        String::from_str("Right")
    } else if sym == KEY_UP {
        String::from_str("Up")
    } else if sym == KEY_DOWN {
        String::from_str("Down")
    } else {
        let mut s = String::from_str("Unknown(");
        push_decimal(&mut s, sym as u64);
        s.append(")");
        s
    }
}

/// The lower-case form of `s`, as `str::to_lowercase` gives it.
pub uninterp spec fn lower_of(s: Seq<char>) -> Seq<char>;

/// Relies on `str::to_lowercase`: the full Unicode lower-case mapping of the
/// characters, which depends on them alone.
#[verifier::external_body]
fn lower_case(s: &str) -> (r: String)
    ensures
        r@ == lower_of(s@),
{
    s.to_lowercase()
}

/// Binding `b` fires for key `name` under live modifiers `mods`: the key
/// names agree once lower-cased and the modifier sets are equal.
pub open spec fn binding_fires(b: Keybinding, name: Seq<char>, mods: Modifiers) -> bool {
    lower_of(b.key@) == lower_of(name) && mods == required_mods(b.modifiers@)
}

/// Whether a binding with lower-cased key `lower_key` and modifier names
/// `binding_mods` fires for the lower-cased key name `lower_name` under `mods`.
pub fn binding_matches_lowered(lower_key: &str, lower_name: &str, mods: Modifiers, binding_mods: &[String]) -> (r: bool)
    ensures
        r == (lower_key@ == lower_name@ && mods == required_mods(binding_mods@)),
{
    str_eq(lower_key, lower_name) && mods.matches(binding_mods)
}

/// Position of the first binding at or after `i` that fires, or -1.
pub open spec fn first_binding_from(bs: Seq<Keybinding>, name: Seq<char>, mods: Modifiers, i: int) -> int
    decreases bs.len() - i,
{
    if i < 0 || i >= bs.len() {
        -1
    } else if binding_fires(bs[i], name, mods) {
        i
    } else {
        first_binding_from(bs, name, mods, i + 1)
    }
}

/// Position of the first binding, in configuration order, that fires; -1 when none does.
pub open spec fn first_binding(bs: Seq<Keybinding>, name: Seq<char>, mods: Modifiers) -> int {
    first_binding_from(bs, name, mods, 0)
}

pub proof fn lemma_first_binding_from(bs: Seq<Keybinding>, name: Seq<char>, mods: Modifiers, i: int)
    requires
        0 <= i <= bs.len(),
    ensures
        first_binding_from(bs, name, mods, i) == -1 || i <= first_binding_from(bs, name, mods, i) < bs.len(),
        first_binding_from(bs, name, mods, i) >= 0 ==> binding_fires(bs[first_binding_from(bs, name, mods, i)], name, mods),
    decreases bs.len() - i,
{
    if i < bs.len() && !binding_fires(bs[i], name, mods) {
        lemma_first_binding_from(bs, name, mods, i + 1);
    }
}

/// Finds the first binding, in configuration order, that fires for `name`
/// under `mods`.
pub fn find_binding(bindings: &[Keybinding], name: &str, mods: Modifiers) -> (r: Option<usize>)
    ensures
        match r {
            Some(i) => i as int == first_binding(bindings@, name@, mods),
            None => first_binding(bindings@, name@, mods) == -1,
        },
{
    let lower_name = lower_case(name);
    let mut i: usize = 0;
    while i < bindings.len()
        invariant
            0 <= i <= bindings@.len(),
            lower_name@ == lower_of(name@),
            first_binding_from(bindings@, name@, mods, i as int) == first_binding(bindings@, name@, mods),
        decreases bindings@.len() - i,
    {
        let b = &bindings[i];
        let lower_key = lower_case(b.key.as_str());
        if binding_matches_lowered(lower_key.as_str(), lower_name.as_str(), mods, b.modifiers.as_slice()) {
            return Some(i);
        }
        i = i + 1;
    }
    None
}

/// Holding one modifier more than a binding asks for stops it from firing.
pub proof fn law_extra_modifier_blocks(b: Keybinding, name: Seq<char>, held: Modifiers, more: Modifiers)
    requires
        binding_fires(b, name, held),
        held != more,
        more.ctrl == (held.ctrl || more.ctrl),
        more.alt == (held.alt || more.alt),
        more.shift == (held.shift || more.shift),
        more.super_key == (held.super_key || more.super_key),
    ensures
        !binding_fires(b, name, more),
{
}

} // verus!
