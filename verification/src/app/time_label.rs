//! How far an instant lies from the clock reading, in words such as
//! `in 1d22h` or `5m ago`.

use vstd::prelude::*;

use crate::domain::matches::Match;
use crate::domain::time::{local_date_time, valid_local, LocalDateTime, Timestamp};
use crate::text::{chars_of, decimal, decimal_text, owned, push_char, push_decimal, push_text};

verus! {

/// `nanos` nanoseconds in whole seconds, rounded half away from zero.
pub open spec fn rounded_seconds(nanos: int) -> int {
    if nanos >= 0 {
        (nanos + 500_000_000) / 1_000_000_000
    } else {
        -((-nanos + 500_000_000) / 1_000_000_000)
    }
}

pub open spec fn at_least_one(n: int) -> nat {
    if n < 1 {
        1
    } else {
        n as nat
    }
}

/// A span of `seconds` seconds in its largest units: seconds under a
/// minute, minutes under an hour, hours and minutes under a day, days and
/// (when not whole) hours beyond.
pub open spec fn span_text(seconds: nat) -> Seq<char> {
    if seconds < 60 {
        decimal(at_least_one(seconds as int)) + "s"@
    } else if seconds < 3600 {
        decimal(at_least_one((seconds / 60) as int)) + "m"@
    } else if seconds < 86400 {
        decimal(at_least_one((seconds / 3600) as int)) + "h"@ + decimal((seconds % 3600) / 60) + "m"@
    } else {
        let hours = (seconds % 86400) / 3600;
        if hours > 0 {
            decimal(at_least_one((seconds / 86400) as int)) + "d"@ + decimal(hours) + "h"@
        } else {
            decimal(at_least_one((seconds / 86400) as int)) + "d"@
        }
    }
}

/// `target` as seen from `now` (both in nanoseconds since the epoch):
/// `in ...` when it is ahead (or within half a second), `... ago` when past.
pub open spec fn relative_text(target: int, now: int) -> Seq<char> {
    let s = rounded_seconds(target - now);
    if s >= 0 {
        "in "@ + span_text(s as nat)
    } else {
        span_text((-s) as nat) + " ago"@
    }
}

/// An instant as far ahead as another lies behind reads the same span:
/// `in <span>` ahead and `<span> ago` behind, once at least half a second
/// apart; and the label depends only on how far apart the two instants are.
pub proof fn relative_labels_mirror(now: int, d: int, shift: int)
    requires
        d >= 500_000_000,
    ensures
        exists|span: Seq<char>|
            relative_text(now + d, now) == "in "@ + span && relative_text(now - d, now) == span + " ago"@,
        relative_text(now + d + shift, now + shift) == relative_text(now + d, now),
{
    let s = rounded_seconds(d);
    assert(s >= 1);
    assert(rounded_seconds(-d) == -s);
    let span = span_text(s as nat);
    assert(relative_text(now + d, now) == "in "@ + span);
    assert(relative_text(now - d, now) == span + " ago"@);
}

fn push_span(out: &mut String, seconds: u64)
    ensures
        final(out)@ == old(out)@ + span_text(seconds as nat),
{
    if seconds < 60 {
        push_decimal(out, if seconds < 1 { 1 } else { seconds });
        push_text(out, "s");
    } else if seconds < 3600 {
        push_decimal(out, seconds / 60);
        push_text(out, "m");
    } else if seconds < 86400 {
        push_decimal(out, seconds / 3600);
        push_text(out, "h");
        push_decimal(out, (seconds % 3600) / 60);
        push_text(out, "m");
    } else {
        let hours = (seconds % 86400) / 3600;
        push_decimal(out, seconds / 86400);
        push_text(out, "d");
        if hours > 0 {
            push_decimal(out, hours);
            push_text(out, "h");
        }
    }
}

proof fn lemma_rounded_bounds(n: int)
    requires
        -1_000_000_000_000_000_000_000 <= n <= 1_000_000_000_000_000_000_000,
    ensures
        -1_000_000_000_000 <= rounded_seconds(n) <= 1_000_000_000_000,
{
    if n >= 0 {
        assert((n + 500_000_000) / 1_000_000_000 <= 1_000_000_000_000) by (nonlinear_arith)
            requires
                0 <= n <= 1_000_000_000_000_000_000_000,
        ;
        assert((n + 500_000_000) / 1_000_000_000 >= 0) by (nonlinear_arith)
            requires
                0 <= n,
        ;
    } else {
        assert((-n + 500_000_000) / 1_000_000_000 <= 1_000_000_000_000) by (nonlinear_arith)
            requires
                0 < -n <= 1_000_000_000_000_000_000_000,
        ;
        assert((-n + 500_000_000) / 1_000_000_000 >= 0) by (nonlinear_arith)
            requires
                0 < -n,
        ;
    }
}

/// How far `target` lies from `now`, such as `in 1d22h` or `1d22h ago`.
pub fn relative_time_label(target: Timestamp, now: Timestamp) -> (r: String)
    ensures
        r@ == relative_text(target@, now@),
{
    let a = target.as_nanosecond();
    let b = now.as_nanosecond();
    let nanos: i128 = a - b;
    proof {
        lemma_rounded_bounds(nanos as int);
    }
    let seconds: i128 = if nanos >= 0 {
        (nanos + 500_000_000) / 1_000_000_000
    } else {
        -((-nanos + 500_000_000) / 1_000_000_000)
    };
    assert(seconds as int == rounded_seconds(nanos as int));
    if seconds >= 0 {
        let mut out = owned("in ");
        push_span(&mut out, seconds as u64);
        out
    } else {
        let mut out = String::new();
        push_span(&mut out, (-seconds) as u64);
        push_text(&mut out, " ago");
        out
    }
}

/// `n` written with at least `width` digits, zeros in front.
pub open spec fn zero_padded(n: nat, width: nat) -> Seq<char> {
    let digits = decimal(n);
    if digits.len() >= width {
        digits
    } else {
        Seq::new((width - digits.len()) as nat, |i: int| '0') + digits
    }
}

/// A year as calendar dates write it: four digits, or a minus sign and
/// three for a year before year zero.
pub open spec fn year_text(y: int) -> Seq<char> {
    if y < 0 {
        seq!['-'] + zero_padded((-y) as nat, 3)
    } else {
        zero_padded(y as nat, 4)
    }
}

/// A local date as `YYYY-MM-DD`.
pub open spec fn date_key_text(d: LocalDateTime) -> Seq<char> {
    year_text(d.year as int) + "-"@ + zero_padded(d.month as nat, 2) + "-"@ + zero_padded(d.day as nat, 2)
}

/// A local time of day as `HH:MM`.
pub open spec fn clock_text(d: LocalDateTime) -> Seq<char> {
    zero_padded(d.hour as nat, 2) + ":"@ + zero_padded(d.minute as nat, 2)
}

/// A local date as `DD/MM`.
pub open spec fn day_month_text(d: LocalDateTime) -> Seq<char> {
    zero_padded(d.day as nat, 2) + "/"@ + zero_padded(d.month as nat, 2)
}

fn push_zero_padded(s: &mut String, n: u64, width: usize)
    ensures
        final(s)@ == old(s)@ + zero_padded(n as nat, width as nat),
{
    let digits = decimal_text(n);
    let len = chars_of(digits.as_str()).len();
    let ghost start = s@;
    if len < width {
        let mut i: usize = len;
        while i < width
            invariant
                len <= i <= width,
                s@ == start + Seq::new((i - len) as nat, |k: int| '0'),
            decreases width - i,
        {
            push_char(s, '0');
            i = i + 1;
            assert(s@ =~= start + Seq::new((i - len) as nat, |k: int| '0'));
        }
    }
    push_text(s, digits.as_str());
    assert(s@ =~= start + zero_padded(n as nat, width as nat));
}

fn push_year(s: &mut String, y: i16)
    ensures
        final(s)@ == old(s)@ + year_text(y as int),
{
    if y < 0 {
        let ghost start = s@;
        push_char(s, '-');
        push_zero_padded(s, (-(y as i32)) as u64, 3);
        assert(s@ =~= start + year_text(y as int));
    } else {
        push_zero_padded(s, y as u64, 4);
    }
}

/// A local date as `YYYY-MM-DD`.
pub fn date_key(d: &LocalDateTime) -> (r: String)
    requires
        valid_local(*d),
    ensures
        r@ == date_key_text(*d),
{
    let mut r = String::new();
    push_year(&mut r, d.year);
    push_text(&mut r, "-");
    push_zero_padded(&mut r, d.month as u64, 2);
    push_text(&mut r, "-");
    push_zero_padded(&mut r, d.day as u64, 2);
    assert(r@ =~= date_key_text(*d));
    r
}

/// A local time of day as `HH:MM`.
pub fn clock(d: &LocalDateTime) -> (r: String)
    requires
        valid_local(*d),
    ensures
        r@ == clock_text(*d),
{
    let mut r = String::new();
    push_zero_padded(&mut r, d.hour as u64, 2);
    push_text(&mut r, ":");
    push_zero_padded(&mut r, d.minute as u64, 2);
    assert(r@ =~= clock_text(*d));
    r
}

/// A local date as `DD/MM`.
pub fn day_month(d: &LocalDateTime) -> (r: String)
    requires
        valid_local(*d),
    ensures
        r@ == day_month_text(*d),
{
    let mut r = String::new();
    push_zero_padded(&mut r, d.day as u64, 2);
    push_text(&mut r, "/");
    push_zero_padded(&mut r, d.month as u64, 2);
    assert(r@ =~= day_month_text(*d));
    r
}

/// Whether `t` is some local date written `YYYY-MM-DD`.
pub open spec fn is_local_day(t: Seq<char>) -> bool {
    exists|d: LocalDateTime| #[trigger] valid_local(d) && t == date_key_text(d)
}

/// Whether `t` is some local date and time written `YYYY-MM-DD HH:MM`.
pub open spec fn is_local_stamp(t: Seq<char>) -> bool {
    exists|d: LocalDateTime| #[trigger] valid_local(d) && t == date_key_text(d) + " "@ + clock_text(d)
}

/// The local day (`DD/MM`) and time (`HH:MM`) of a match's kick-off, as the
/// bracket cards show them; which day and time depends on the machine's
/// time zone.
pub fn date_time_labels(m: &Match) -> (r: (String, String))
    ensures
        exists|d: LocalDateTime|
            #[trigger] valid_local(d) && r.0@ == day_month_text(d) && r.1@ == clock_text(d),
{
    let d = local_date_time(&m.utc_start);
    (day_month(&d), clock(&d))
}

} // verus!
