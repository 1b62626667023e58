//! The normalized configuration: keybindings, window rules, layout and theme.

use vstd::prelude::*;
use vstd::string::{StrSliceExecFns, StringExecFns};
use crate::text::{push_char, trimmed, trim_bounds, trim_range};

verus! {

/// What a keybinding does.
pub enum Action {
    /// Run a shell command, detached.
    Spawn { command: String },
    /// Close the focused window of the active workspace.
    Close,
    /// Move the focus: "up" or "left" backward, "down" or "right" forward.
    Focus { direction: String },
    /// Move the focused window to a workspace.
    Move { workspace: u32 },
    /// Make a workspace active.
    SwitchWorkspace { workspace: u32 },
    /// Not yet defined: does nothing.
    ToggleFloating,
    /// A script callback, not yet defined: does nothing.
    Custom { js: String },
}

pub struct Keybinding {
    pub key: String,
    pub modifiers: Vec<String>,
    pub action: Action,
}

/// Applied once, when a window with exactly this `app_id` is created.
pub struct WindowRule {
    pub app_id: String,
    pub workspace: Option<u32>,
    pub floating: Option<bool>,
    pub css_class: Option<String>,
}

pub struct LayoutConfig {
    pub default_mode: String,
    pub gaps: u32,
    pub border_width: u32,
}

pub struct ThemeConfig {
    pub border_focused: String,
    pub border_normal: String,
    pub background: String,
}

pub struct Config {
    pub keybindings: Vec<Keybinding>,
    pub window_rules: Vec<WindowRule>,
    pub layout: LayoutConfig,
    pub theme: ThemeConfig,
}

/// The configuration used when none is given: Super+Return spawns a terminal,
/// Super+q closes the focused window, tiling with gaps of 10 and borders of 2.
pub fn default_config() -> (r: Config)
    ensures
        r.keybindings@.len() == 2,
        r.keybindings@[0].key@ == "Return"@,
        r.keybindings@[0].modifiers@.len() == 1,
        r.keybindings@[0].modifiers@[0]@ == "Super"@,
        r.keybindings@[0].action matches Action::Spawn { command } && command@ == "alacritty"@,
        r.keybindings@[1].key@ == "q"@,
        r.keybindings@[1].modifiers@.len() == 1,
        r.keybindings@[1].modifiers@[0]@ == "Super"@,
        r.keybindings@[1].action is Close,
        r.window_rules@.len() == 0,
        r.layout.default_mode@ == "tiling"@,
        r.layout.gaps == 10,
        r.layout.border_width == 2,
        r.theme.border_focused@ == "#4c7899"@,
        r.theme.border_normal@ == "#333333"@,
        r.theme.background@ == "#1e1e1e"@,
{
    let mut keybindings: Vec<Keybinding> = Vec::new();
    let mut mods: Vec<String> = Vec::new();
    mods.push(String::from_str("Super"));
    keybindings.push(Keybinding {
        key: String::from_str("Return"),
        modifiers: mods,
        action: Action::Spawn { command: String::from_str("alacritty") },
    });
    let mut mods: Vec<String> = Vec::new();
    mods.push(String::from_str("Super"));
    keybindings.push(Keybinding {
        key: String::from_str("q"),
        modifiers: mods,
        action: Action::Close,
    });
    Config {
        keybindings,
        window_rules: Vec::new(),
        layout: LayoutConfig { default_mode: String::from_str("tiling"), gaps: 10, border_width: 2 },
        theme: ThemeConfig {
            border_focused: String::from_str("#4c7899"),
            border_normal: String::from_str("#333333"),
            background: String::from_str("#1e1e1e"),
        },
    }
}

/// The pieces of `s` between occurrences of `sep`; always at least one.
pub open spec fn split_on(s: Seq<char>, sep: char) -> Seq<Seq<char>>
    decreases s.len(),
{
    if s.len() == 0 {
        seq![Seq::empty()]
    } else {
        let parts = split_on(s.drop_last(), sep);
        if s.last() == sep {
            parts.push(Seq::empty())
        } else {
            parts.update(parts.len() - 1, parts.last().push(s.last()))
        }
    }
}

proof fn lemma_split_nonempty(s: Seq<char>, sep: char)
    ensures
        split_on(s, sep).len() >= 1,
    decreases s.len(),
{
    if s.len() > 0 {
        lemma_split_nonempty(s.drop_last(), sep);
    }
}

/// Splits a combination such as "Super+Shift+q" at each `+`: the modifiers
/// are all pieces but the last, the key is the last.
pub fn parse_key_combo(combo: &str) -> (r: (Vec<String>, String))
    ensures
        ({
            let parts = split_on(combo@, '+');
            &&& r.0@.len() == parts.len() - 1
            &&& forall|k: int| 0 <= k < r.0@.len() ==> #[trigger] r.0@[k]@ == parts[k]
            &&& r.1@ == parts.last()
        }),
{
    let n = combo.unicode_len();
    let mut parts: Vec<String> = Vec::new();
    let mut cur = String::new();
    let mut i: usize = 0;
    proof { assert(combo@.subrange(0, 0) =~= Seq::<char>::empty()); }
    while i < n
        invariant
            n == combo@.len(),
            0 <= i <= n,
            ({
                let sp = split_on(combo@.subrange(0, i as int), '+');
                &&& parts@.len() + 1 == sp.len()
                &&& forall|k: int| 0 <= k < parts@.len() ==> #[trigger] parts@[k]@ == sp[k]
                &&& cur@ == sp.last()
            }),
        decreases n - i,
    {
        let c = combo.get_char(i);
        proof {
            let t = combo@.subrange(0, i + 1);
            assert(t.drop_last() =~= combo@.subrange(0, i as int));
            assert(t.last() == c);
            lemma_split_nonempty(combo@.subrange(0, i as int), '+');
        }
        if c == '+' {
            let done = cur;
            parts.push(done);
            cur = String::new();
        } else {
            push_char(&mut cur, c);
        }
        i = i + 1;
    }
    proof { assert(combo@.subrange(0, n as int) =~= combo@); }
    (parts, cur)
}

/// `s` without its trailing `;` characters.
pub open spec fn strip_semicolons(s: Seq<char>) -> Seq<char>
    decreases s.len(),
{
    if s.len() > 0 && s.last() == ';' {
        strip_semicolons(s.drop_last())
    } else {
        s
    }
}

/// Position of the first `:` in `s` at or after `i`, or -1.
pub open spec fn colon_from(s: Seq<char>, i: int) -> int
    decreases s.len() - i,
{
    if i < 0 || i >= s.len() {
        -1
    } else if s[i] == ':' {
        i
    } else {
        colon_from(s, i + 1)
    }
}

/// Splits a `name: value;` line at its first colon: the name trimmed, and
/// the value trimmed, stripped of trailing semicolons and trimmed again.
/// None when the line holds no colon.
pub fn parse_css_variable(line: &str) -> (r: Option<(String, String)>)
    ensures
        colon_from(line@, 0) == -1 ==> r is None,
        colon_from(line@, 0) >= 0 ==> (r matches Some((k, v)) && {
            let c = colon_from(line@, 0);
            &&& k@ == trimmed(line@.subrange(0, c))
            &&& v@ == trimmed(strip_semicolons(trimmed(line@.subrange(c + 1, line@.len() as int))))
        }),
{
    let n = line.unicode_len();
    let mut c: usize = 0;
    while c < n && line.get_char(c) != ':'
        invariant
            n == line@.len(),
            0 <= c <= n,
            colon_from(line@, c as int) == colon_from(line@, 0),
        decreases n - c,
    {
        c = c + 1;
    }
    if c == n {
        return None;
    }
    let key = trim_range(line, 0, c);
    let (a, b) = trim_bounds(line, c + 1, n);
    let mut e = b;
    while e > a && line.get_char(e - 1) == ';'
        invariant
            a <= e <= b <= n,
            n == line@.len(),
            strip_semicolons(line@.subrange(a as int, e as int)) == strip_semicolons(line@.subrange(a as int, b as int)),
        decreases e - a,
    {
        proof {
            assert(line@.subrange(a as int, e as int).drop_last() =~= line@.subrange(a as int, e - 1));
        }
        e = e - 1;
    }
    proof {
        let sub = line@.subrange(a as int, e as int);
        assert(strip_semicolons(sub) == sub);
    }
    let value = trim_range(line, a, e);
    Some((key, value))
}

/// Digits of `s` read in base 10.
pub open spec fn decimal_value(s: Seq<char>) -> nat
    decreases s.len(),
{
    if s.len() == 0 {
        0
    } else {
        decimal_value(s.drop_last()) * 10 + (s.last() as u32 - 48) as nat
    }
}

pub open spec fn all_digits(s: Seq<char>) -> bool {
    forall|i: int| 0 <= i < s.len() ==> '0' <= #[trigger] s[i] && s[i] <= '9'
}

/// What `str::parse::<u32>` gives: an optional `+`, then one or more digits
/// whose value fits in a `u32`.
pub open spec fn parsed_u32(s: Seq<char>) -> Option<u32> {
    let d = if s.len() > 0 && s[0] == '+' { s.subrange(1, s.len() as int) } else { s };
    if d.len() > 0 && all_digits(d) && decimal_value(d) <= u32::MAX {
        Some(decimal_value(d) as u32)
    } else {
        None
    }
}

proof fn lemma_decimal_grows(s: Seq<char>, k: int)
    requires
        0 <= k <= s.len(),
        all_digits(s),
    ensures
        decimal_value(s.subrange(0, k)) <= decimal_value(s),
    decreases s.len() - k,
{
    if k < s.len() {
        lemma_decimal_grows(s, k + 1);
        let p = s.subrange(0, k + 1);
        assert(p.drop_last() =~= s.subrange(0, k));
    } else {
        assert(s.subrange(0, k) =~= s);
    }
}

/// Reads a `u32` as `str::parse` does.
pub fn parse_u32(s: &str) -> (r: Option<u32>)
    ensures
        r == parsed_u32(s@),
{
    let n = s.unicode_len();
    let start: usize = if n > 0 && s.get_char(0) == '+' { 1 } else { 0 };
    let ghost d = if s@.len() > 0 && s@[0] == '+' { s@.subrange(1, s@.len() as int) } else { s@ };
    assert(d =~= s@.subrange(start as int, n as int));
    if start == n {
        return None;
    }
    let mut acc: u64 = 0;
    let mut i: usize = start;
    assert(d.subrange(0, 0) =~= Seq::<char>::empty());
    while i < n
        invariant
            n == s@.len(),
            start <= i <= n,
            d == s@.subrange(start as int, n as int),
            d == (if s@.len() > 0 && s@[0] == '+' { s@.subrange(1, s@.len() as int) } else { s@ }),
            acc == decimal_value(d.subrange(0, i - start)),
            acc <= u32::MAX,
            all_digits(d.subrange(0, i - start)),
        decreases n - i,
    {
        let c = s.get_char(i);
        if c < '0' || c > '9' {
            assert(d[i - start] == c);
            assert(!all_digits(d));
            assert(parsed_u32(s@) is None);
            return None;
        }
        proof {
            let p = d.subrange(0, i - start + 1);
            assert(p.drop_last() =~= d.subrange(0, i - start));
            assert(p.last() == c);
            assert(all_digits(p)) by {
                assert forall|j: int| 0 <= j < p.len() implies '0' <= #[trigger] p[j] && p[j] <= '9' by {
                    if j < p.len() - 1 {
                        assert(p[j] == d.subrange(0, i - start)[j]);
                    }
                }
            }
        }
        acc = acc * 10 + (c as u64 - 48);
        assert(acc == decimal_value(d.subrange(0, i - start + 1)));
        if acc > 4294967295 {
            proof {
                if all_digits(d) {
                    lemma_decimal_grows(d, i - start + 1);
                }
            }
            assert(parsed_u32(s@) is None);
            return None;
        }
        i = i + 1;
    }
    proof { assert(d.subrange(0, n - start) =~= d); }
    Some(acc as u32)
}

/// `s` without its trailing `ms` suffixes.
pub open spec fn strip_ms(s: Seq<char>) -> Seq<char>
    decreases s.len(),
{
    if s.len() >= 2 && s[s.len() - 2] == 'm' && s[s.len() - 1] == 's' {
        strip_ms(s.subrange(0, s.len() - 2))
    } else {
        s
    }
}

/// A duration in milliseconds, written with or without `ms`; 200 when it is
/// absent or not a number.
pub fn parse_duration(duration_str: Option<&str>) -> (r: u32)
    ensures
        r == match duration_str {
            Some(s) => match parsed_u32(strip_ms(s@)) {
                Some(v) => v,
                None => 200,
            },
            None => 200,
        },
{
    match duration_str {
        Some(s) => {
            let n = s.unicode_len();
            let mut e = n;
            assert(s@.subrange(0, n as int) =~= s@);
            while e >= 2 && s.get_char(e - 2) == 'm' && s.get_char(e - 1) == 's'
                invariant
                    e <= n,
                    n == s@.len(),
                    strip_ms(s@.subrange(0, e as int)) == strip_ms(s@),
                decreases e,
            {
                proof {
                    let t = s@.subrange(0, e as int);
                    assert(t.subrange(0, t.len() - 2) =~= s@.subrange(0, e - 2));
                }
                e = e - 2;
            }
            match parse_u32(s.substring_char(0, e)) {
                Some(v) => v,
                None => 200,
            }
        },
        None => 200,
    }
}

} // verus!
