//! The delay before a typing pass: reading it from text, and counting it down.

use vstd::prelude::*;

verus! {

/// The longest delay accepted, in seconds: one day.
pub const MAX_DELAY_SECONDS: u64 = 86400;

/// The delay offered when none was saved, in seconds.
pub const DEFAULT_DELAY_SECONDS: u64 = 3;

pub open spec fn is_ascii_digit(c: char) -> bool {
    '0' <= c <= '9'
}

/// The number written by the decimal digits `s`.
pub open spec fn digits_value(s: Seq<char>) -> int
    decreases s.len(),
{
    if s.len() == 0 {
        0
    } else {
        digits_value(s.drop_last()) * 10 + ((s.last() as u32) - ('0' as u32))
    }
}

/// What std's decimal `u64` parser accepts: an optional `+`, then one or more
/// ASCII digits whose value fits in a `u64`.
pub open spec fn parsed_u64(s: Seq<char>) -> Option<u64> {
    let d = if s.len() > 0 && s[0] == '+' {
        s.drop_first()
    } else {
        s
    };
    if d.len() > 0 && (forall|i: int| 0 <= i < d.len() ==> is_ascii_digit(#[trigger] d[i]))
        && digits_value(d) <= u64::MAX {
        Some(digits_value(d) as u64)
    } else {
        None
    }
}

/// Relies on `<u64 as FromStr>::from_str` (through `str::parse`): an optional
/// `+` followed by decimal digits, rejected when empty or out of range.
#[verifier::external_body]
fn parse_u64(s: &str) -> (r: Option<u64>)
    ensures
        r == parsed_u64(s@),
{
    s.parse::<u64>().ok()
}

/// The delay written in `s`, in seconds, if it is a whole number of at most
/// one day.
pub fn parse_delay(s: &str) -> (r: Option<u64>)
    ensures
        r == (if parsed_u64(s@) is Some && parsed_u64(s@)->0 <= MAX_DELAY_SECONDS {
            parsed_u64(s@)
        } else {
            None
        }),
{
    match parse_u64(s) {
        Some(d) => if d <= MAX_DELAY_SECONDS {
            Some(d)
        } else {
            None
        },
        None => None,
    }
}

/// One second of the countdown: the seconds still to wait, or `None` once
/// typing starts.
pub fn countdown_tick(remaining: u64) -> (r: Option<u64>)
    requires
        remaining > 0,
    ensures
        remaining > 1 ==> r == Some((remaining - 1) as u64),
        remaining == 1 ==> r is None,
{
    if remaining > 1 {
        Some(remaining - 1)
    } else {
        None
    }
}

} // verus!
