//! Time spans as they are written in a configuration: `800ms`, `5s`, `2m`, `1h`, or a bare number
//! of milliseconds.

use vstd::prelude::*;

use crate::text;

verus! {

/// The unit of a time span.
#[derive(Clone, Copy, Debug, PartialEq, Eq, Structural)]
pub enum Unit {
    Millis,
    Seconds,
    Minutes,
    Hours,
}

/// The number in front of a unit; white space around it does not count.
pub open spec fn number(s: Seq<char>) -> Option<nat> {
    match text::parse_uint(text::trimmed(s), 10, u64::MAX as nat) {
        Ok(v) => Some(v),
        Err(_) => None,
    }
}

/// Only decimal digits.
pub open spec fn all_digits(s: Seq<char>) -> bool {
    forall|i: int| 0 <= i < s.len() ==> '0' <= #[trigger] s[i] <= '9'
}

/// A number in a unit.
pub open spec fn amount_in(s: Seq<char>, unit: Unit) -> Option<(nat, Unit)> {
    match number(s) {
        Some(v) => Some((v, unit)),
        None => None,
    }
}

/// The number and the unit that a time span is written with.
pub open spec fn amount(s: Seq<char>) -> Option<(nat, Unit)> {
    let t = text::trimmed(s);
    if text::ends(t, "ms"@) {
        amount_in(t.take(t.len() - "ms"@.len()), Unit::Millis)
    } else if text::ends(t, "h"@) {
        amount_in(t.take(t.len() - "h"@.len()), Unit::Hours)
    } else if text::ends(t, "m"@) {
        amount_in(t.take(t.len() - "m"@.len()), Unit::Minutes)
    } else if text::ends(t, "s"@) {
        amount_in(t.take(t.len() - "s"@.len()), Unit::Seconds)
    } else if t.len() > 0 && all_digits(t) {
        match text::parse_uint(t, 10, u64::MAX as nat) {
            Ok(v) => Some((v, Unit::Millis)),
            Err(_) => None,
        }
    } else {
        None
    }
}

/// The length of a time span in milliseconds.
pub open spec fn span_ms(s: Seq<char>) -> Option<nat> {
    match amount(s) {
        Some((v, Unit::Millis)) => Some(v),
        Some((v, Unit::Seconds)) => Some(v * 1_000),
        Some((v, Unit::Minutes)) => Some(v * 60_000),
        Some((v, Unit::Hours)) => Some(v * 3_600_000),
        None => None,
    }
}

/// Whether the length of a time span can be counted in milliseconds.
pub open spec fn countable(s: Seq<char>) -> bool {
    span_ms(s) matches Some(v) ==> v <= u64::MAX
}

fn read_number(s: &str, unit: Unit) -> (r: Option<(u64, Unit)>)
    ensures
        match amount_in(s@, unit) {
            Some(a) => r is Some && r->Some_0.0 == a.0 && r->Some_0.1 == a.1,
            None => r is None,
        },
{
    match text::parse_u64(text::trim(s)) {
        Ok(v) => Some((v, unit)),
        Err(_) => None,
    }
}

fn only_digits(s: &str) -> (r: bool)
    ensures
        r == all_digits(s@),
{
    let cs = text::chars_of(s);
    let mut i: usize = 0;
    while i < cs.len()
        invariant
            i <= cs.len(),
            cs@ == s@,
            forall|k: int| 0 <= k < i ==> '0' <= #[trigger] s@[k] <= '9',
        decreases cs.len() - i,
    {
        if !('0' <= cs[i] && cs[i] <= '9') {
            assert(!('0' <= s@[i as int] <= '9'));
            return false;
        }
        i = i + 1;
    }
    true
}

/// The number and the unit that a time span is written with.
pub fn read_amount(s: &str) -> (r: Option<(u64, Unit)>)
    ensures
        match amount(s@) {
            Some(a) => r is Some && r->Some_0.0 == a.0 && r->Some_0.1 == a.1,
            None => r is None,
        },
{
    let t = text::trim(s);
    if let Some(n) = text::strip_suffix(t, "ms") {
        return read_number(n, Unit::Millis);
    }
    if let Some(n) = text::strip_suffix(t, "h") {
        return read_number(n, Unit::Hours);
    }
    if let Some(n) = text::strip_suffix(t, "m") {
        return read_number(n, Unit::Minutes);
    }
    if let Some(n) = text::strip_suffix(t, "s") {
        return read_number(n, Unit::Seconds);
    }
    if !t.is_empty() && only_digits(t) {
        match text::parse_u64(t) {
            Ok(v) => Some((v, Unit::Millis)),
            Err(_) => None,
        }
    } else {
        None
    }
}

/// The length of a time span in milliseconds, at full width.
pub fn read_span(s: &str) -> (r: Option<u128>)
    ensures
        match span_ms(s@) {
            Some(v) => r is Some && r->Some_0 == v,
            None => r is None,
        },
{
    match read_amount(s) {
        Some((v, Unit::Millis)) => Some(v as u128),
        Some((v, Unit::Seconds)) => Some(v as u128 * 1_000),
        Some((v, Unit::Minutes)) => Some(v as u128 * 60_000),
        Some((v, Unit::Hours)) => Some(v as u128 * 3_600_000),
        None => None,
    }
}

/// Whether the length of a time span can be counted in milliseconds.
pub fn is_countable(s: &str) -> (r: bool)
    ensures
        r == countable(s@),
{
    match read_span(s) {
        Some(v) => v <= u64::MAX as u128,
        None => true,
    }
}

/// The length of a time span in milliseconds.
pub fn parse_duration_str(s: &str) -> (r: Option<u64>)
    requires
        countable(s@),
    ensures
        match span_ms(s@) {
            Some(v) => r is Some && r->Some_0 == v,
            None => r is None,
        },
{
    match read_span(s) {
        Some(v) => Some(v as u64),
        None => None,
    }
}

// ---------------------------------------------------------------- laws

proof fn digits_are_ink(n: nat)
    ensures
        text::decimal(n).len() > 0,
        forall|i: int|
            0 <= i < text::decimal(n).len() ==> '0' <= #[trigger] text::decimal(n)[i] <= '9'
                && !text::is_white(text::decimal(n)[i]),
        text::trimmed(text::decimal(n)) == text::decimal(n),
{
    text::decimal_is_plain(n);
    text::trimming_leaves_the_rest(text::decimal(n));
}

/// A number with a unit behind it is that many milliseconds, seconds, minutes or hours; a bare
/// number is milliseconds.
pub proof fn spans_are_read_by_unit(n: nat)
    requires
        n <= u64::MAX,
    ensures
        span_ms(text::decimal(n)) == Some(n),
        span_ms(text::decimal(n) + seq!['m', 's']) == Some(n),
        span_ms(text::decimal(n) + seq!['s']) == Some(1_000 * n),
        span_ms(text::decimal(n) + seq!['m']) == Some(60_000 * n),
        span_ms(text::decimal(n) + seq!['h']) == Some(3_600_000 * n),
{
    let d = text::decimal(n);
    let k = d.len() as int;
    digits_are_ink(n);
    text::decimal_round_trip(n, u64::MAX as nat);
    reveal_strlit("ms");
    reveal_strlit("s");
    reveal_strlit("m");
    reveal_strlit("h");
    let ms = d + seq!['m', 's'];
    text::trimming_leaves_the_rest(ms);
    assert(ms.skip(k) =~= "ms"@);
    assert(ms.take(k) =~= d);
    let s = d + seq!['s'];
    text::trimming_leaves_the_rest(s);
    assert(s.skip(k) =~= "s"@);
    assert(s.take(k) =~= d);
    assert(s.skip(s.len() - 2)[0] == d[k - 1]);
    assert("ms"@[0] == 'm');
    assert(s.skip(s.len() - 1)[0] == 's');
    assert("h"@[0] == 'h');
    assert("m"@[0] == 'm');
    assert("s"@[0] == 's');
    let m = d + seq!['m'];
    text::trimming_leaves_the_rest(m);
    assert(m.skip(k) =~= "m"@);
    assert(m.take(k) =~= d);
    assert(m.skip(m.len() - 2)[1] == 'm');
    assert("ms"@[1] == 's');
    assert(m.skip(m.len() - 1)[0] == 'm');
    let h = d + seq!['h'];
    text::trimming_leaves_the_rest(h);
    assert(h.skip(k) =~= "h"@);
    assert(h.take(k) =~= d);
    assert(h.skip(h.len() - 2)[1] == 'h');
    assert(h.skip(h.len() - 1)[0] == 'h');
    if d.len() >= 2 {
        assert(d.skip(d.len() - 2)[1] == d[k - 1]);
    }
    assert(d.skip(d.len() - 1)[0] == d[k - 1]);
}

/// White space around a span does not count.
pub proof fn white_space_around_spans(s: Seq<char>)
    ensures
        span_ms(s) == span_ms(text::trimmed(s)),
{
    text::trimmed_idempotent(s);
}

} // verus!
