//! A reduced strftime over an approximate calendar of 365-day years and
//! 30-day months, for display only.

use vstd::prelude::*;
use vstd::string::{StrSliceExecFns, StringExecFns};
use crate::text::{decimal, padded2, push_char, push_decimal, push_padded2};

verus! {

pub open spec fn hours_of(t: nat) -> nat { (t / 3600) % 24 }
pub open spec fn minutes_of(t: nat) -> nat { (t / 60) % 60 }
pub open spec fn seconds_of(t: nat) -> nat { t % 60 }
pub open spec fn days_of(t: nat) -> nat { t / 86400 }
pub open spec fn year_of(t: nat) -> nat { 1970 + days_of(t) / 365 }
/// Month number, from 1; the last five days of a year fall in a 13th.
pub open spec fn month_of(t: nat) -> nat { (days_of(t) % 365) / 30 + 1 }
pub open spec fn day_of(t: nat) -> nat { (days_of(t) % 365) % 30 + 1 }

pub open spec fn weekday_name(d: nat) -> Seq<char> {
    if d == 0 { "Sun"@ }
    else if d == 1 { "Mon"@ }
    else if d == 2 { "Tue"@ }
    else if d == 3 { "Wed"@ }
    else if d == 4 { "Thu"@ }
    else if d == 5 { "Fri"@ }
    else { "Sat"@ }
}

pub open spec fn month_name(m: nat) -> Seq<char> {
    if m == 0 { "Jan"@ }
    else if m == 1 { "Feb"@ }
    else if m == 2 { "Mar"@ }
    else if m == 3 { "Apr"@ }
    else if m == 4 { "May"@ }
    else if m == 5 { "Jun"@ }
    else if m == 6 { "Jul"@ }
    else if m == 7 { "Aug"@ }
    else if m == 8 { "Sep"@ }
    else if m == 9 { "Oct"@ }
    else if m == 10 { "Nov"@ }
    else { "Dec"@ }
}

pub open spec fn is_field(c: char) -> bool {
    c == 'H' || c == 'M' || c == 'S' || c == 'd' || c == 'm' || c == 'Y' || c == 'y' || c == 'a' || c == 'b'
}

/// What `%c` stands for at `t` seconds after the epoch.
pub open spec fn field_text(c: char, t: nat) -> Seq<char> {
    if c == 'H' { padded2(hours_of(t)) }
    else if c == 'M' { padded2(minutes_of(t)) }
    else if c == 'S' { padded2(seconds_of(t)) }
    else if c == 'd' { padded2(day_of(t)) }
    else if c == 'm' { padded2(month_of(t)) }
    else if c == 'Y' { decimal(year_of(t)) }
    else if c == 'y' { padded2(year_of(t) % 100) }
    else if c == 'a' { weekday_name(days_of(t) % 7) }
    else { month_name(((month_of(t) - 1) as nat) % 12) }
}

/// `fmt` with each `%H %M %S %d %m %Y %y %a %b` replaced by its field at `t`,
/// read left to right; every other character is kept.
pub open spec fn clock_text(fmt: Seq<char>, t: nat) -> Seq<char>
    decreases fmt.len(),
{
    if fmt.len() == 0 {
        Seq::empty()
    } else if fmt.len() >= 2 && fmt[0] == '%' && is_field(fmt[1]) {
        field_text(fmt[1], t) + clock_text(fmt.subrange(2, fmt.len() as int), t)
    } else {
        seq![fmt[0]] + clock_text(fmt.subrange(1, fmt.len() as int), t)
    }
}

fn push_field(s: &mut String, c: char, t: u64)
    requires
        is_field(c),
    ensures
        final(s)@ == old(s)@ + field_text(c, t as nat),
{
    let days = t / 86400;
    let month = (days % 365) / 30 + 1;
    if c == 'H' {
        push_padded2(s, (t / 3600) % 24);
    } else if c == 'M' {
        push_padded2(s, (t / 60) % 60);
    } else if c == 'S' {
        push_padded2(s, t % 60);
    } else if c == 'd' {
        push_padded2(s, (days % 365) % 30 + 1);
    } else if c == 'm' {
        push_padded2(s, month);
    } else if c == 'Y' {
        push_decimal(s, 1970 + days / 365);
    } else if c == 'y' {
        push_padded2(s, (1970 + days / 365) % 100);
    } else if c == 'a' {
        let d = days % 7;
        let name = if d == 0 { "Sun" } else if d == 1 { "Mon" } else if d == 2 { "Tue" }
            else if d == 3 { "Wed" } else if d == 4 { "Thu" } else if d == 5 { "Fri" } else { "Sat" };
        s.append(name);
    } else {
        let m = (month - 1) % 12;
        let name = if m == 0 { "Jan" } else if m == 1 { "Feb" } else if m == 2 { "Mar" }
            else if m == 3 { "Apr" } else if m == 4 { "May" } else if m == 5 { "Jun" }
            else if m == 6 { "Jul" } else if m == 7 { "Aug" } else if m == 8 { "Sep" }
            else if m == 9 { "Oct" } else if m == 10 { "Nov" } else { "Dec" };
        s.append(name);
    }
}

/// Formats `t` seconds after the epoch by `format`.
pub fn format_time_at(format: &str, t: u64) -> (r: String)
    ensures
        r@ == clock_text(format@, t as nat),
{
    let n = format.unicode_len();
    let mut out = String::new();
    let mut i: usize = 0;
    proof { assert(format@.subrange(0, n as int) =~= format@); }
    while i < n
        invariant
            n == format@.len(),
            0 <= i <= n,
            out@ + clock_text(format@.subrange(i as int, n as int), t as nat) == clock_text(format@, t as nat),
        decreases n - i,
    {
        let ghost rest = format@.subrange(i as int, n as int);
        let c = format.get_char(i);
        if c == '%' && i + 1 < n && is_field_char(format.get_char(i + 1)) {
            let f = format.get_char(i + 1);
            push_field(&mut out, f, t);
            proof {
                assert(rest.subrange(2, rest.len() as int) =~= format@.subrange(i + 2, n as int));
            }
            i = i + 2;
        } else {
            push_char(&mut out, c);
            proof {
                assert(rest.subrange(1, rest.len() as int) =~= format@.subrange(i + 1, n as int));
            }
            i = i + 1;
        }
    }
    proof { assert(format@.subrange(n as int, n as int) =~= Seq::<char>::empty()); }
    assert(out@ =~= out@ + Seq::<char>::empty());
    out
}

fn is_field_char(c: char) -> (r: bool)
    ensures
        r == is_field(c),
{
    c == 'H' || c == 'M' || c == 'S' || c == 'd' || c == 'm' || c == 'Y' || c == 'y' || c == 'a' || c == 'b'
}

/// Relies on `SystemTime::now` and `SystemTime::duration_since(UNIX_EPOCH)`:
/// whole seconds since the epoch, or none for a clock set before it. Nothing
/// is promised of the value.
#[verifier::external_body]
pub(crate) fn unix_seconds_now() -> (r: Option<u64>) {
    std::time::SystemTime::now().duration_since(std::time::UNIX_EPOCH).ok().map(|d| d.as_secs())
}

/// Seconds since the epoch now; 0 when the clock is set before it.
pub(crate) fn seconds_now() -> (r: u64) {
    match unix_seconds_now() {
        Some(t) => t,
        None => 0,
    }
}

/// Formats the current time by `format`.
pub fn format_time(format: &str) -> (r: String)
    ensures
        exists|t: u64| r@ == clock_text(format@, t as nat),
{
    format_time_at(format, seconds_now())
}

} // verus!
