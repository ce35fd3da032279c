//! Durations and dates as text.
//!
//! Durations are written as minutes and seconds, each with at least two
//! digits and any sign in front, as in `03:07`; dates as `YYYY-MM-DD`.

use vstd::prelude::*;
use vstd::string::*;
use crate::progress::{chars_of, find_char, find_from};
use crate::text::{append_decimal, decimal_text};

verus! {

/// A number written with at least two characters: a minus sign and its
/// digits if it is negative, else its digits after a zero where it has only
/// one.
pub open spec fn two_digit_text(n: int) -> Seq<char> {
    if n < 0 {
        seq!['-'] + decimal_text((-n) as nat)
    } else if n < 10 {
        seq!['0'] + decimal_text(n as nat)
    } else {
        decimal_text(n as nat)
    }
}

/// The quotient of `a` by a positive `b`, rounded towards zero.
pub open spec fn quotient(a: int, b: int) -> int {
    if a >= 0 {
        a / b
    } else {
        -((-a) / b)
    }
}

/// What is left of `a` after taking out `quotient(a, b)` times `b`; it has
/// the sign of `a`.
pub open spec fn remainder(a: int, b: int) -> int {
    a - quotient(a, b) * b
}

/// Minutes and seconds of a number of seconds, as `MM:SS`.
pub open spec fn minutes_seconds_text(seconds: int) -> Seq<char> {
    two_digit_text(quotient(seconds, 60)) + seq![':'] + two_digit_text(remainder(seconds, 60))
}

/// A number of milliseconds as `MM:SS`, the part below a second cut off.
pub open spec fn millis_text(milliseconds: int) -> Seq<char> {
    minutes_seconds_text(quotient(milliseconds, 1000))
}

/// A number of seconds as `MM:SS`, or as `HH:MM:SS` from one hour on.
pub open spec fn seconds_text(seconds: int) -> Seq<char> {
    let minutes = quotient(seconds, 60);
    if minutes >= 60 {
        two_digit_text(minutes / 60) + seq![':'] + two_digit_text(minutes % 60) + seq![':']
            + two_digit_text(remainder(seconds, 60))
    } else {
        minutes_seconds_text(seconds)
    }
}

/// The date of the Unix epoch.
pub open spec fn epoch_date() -> Seq<char> {
    "1970-01-01"@
}

/// The date of a moment written as date, `T` and time: what stands before
/// the first `T`. Without a moment it is the date of the Unix epoch.
pub open spec fn date_text(moment: Option<Seq<char>>) -> Seq<char> {
    match moment {
        Some(text) => text.subrange(0, find_from(text, 'T', 0)),
        None => epoch_date(),
    }
}

/// The moment that lies `timestamp` seconds after the Unix epoch, in UTC and
/// in the notation of RFC 3339, where that notation has one.
pub uninterp spec fn rfc3339_utc(timestamp: int) -> Option<Seq<char>>;

/// Calls `time::OffsetDateTime::from_unix_timestamp` and, on the moment it
/// gives, `OffsetDateTime::format` with `Rfc3339`. The result is `None`
/// where either of them refuses, and is named `rfc3339_utc`: nothing is
/// claimed of the text but that it depends on the timestamp alone.
#[verifier::external_body]
fn rfc3339_of_timestamp(timestamp: i64) -> (r: Option<String>)
    ensures
        r is Some <==> rfc3339_utc(timestamp as int) is Some,
        r matches Some(text) ==> rfc3339_utc(timestamp as int) == Some(text@),
{
    match ::time::OffsetDateTime::from_unix_timestamp(timestamp) {
        Ok(moment) => moment.format(&::time::format_description::well_known::Rfc3339).ok(),
        Err(_) => None,
    }
}

/// Appends `n` to `out` with at least two characters.
pub(crate) fn append_two_digits(out: &mut String, n: i64)
    ensures
        final(out)@ == old(out)@ + two_digit_text(n as int),
{
    proof {
        reveal_strlit("-");
        reveal_strlit("0");
    }
    let ghost before = out@;
    if n < 0 {
        out.append("-");
        let magnitude: u64 = if n == i64::MIN {
            9_223_372_036_854_775_808u64
        } else {
            (-n) as u64
        };
        append_decimal(out, magnitude as u128);
        assert(out@ =~= before + two_digit_text(n as int));
    } else if n < 10 {
        out.append("0");
        append_decimal(out, n as u128);
        assert(out@ =~= before + two_digit_text(n as int));
    } else {
        append_decimal(out, n as u128);
    }
}

/// Divides by a positive number, rounding towards zero.
pub(crate) fn divide(a: i64, b: i64) -> (r: (i64, i64))
    requires
        b > 0,
    ensures
        r.0 == quotient(a as int, b as int),
        r.1 == remainder(a as int, b as int),
        -b < r.1 < b,
{
    if a >= 0 {
        let q = a / b;
        let m = a % b;
        assert(a == q * b + m) by (nonlinear_arith)
            requires
                q == a as int / b as int,
                m == a as int % b as int,
                b > 0,
        ;
        (q, m)
    } else {
        // The magnitude of `a` may be one above the largest `i64`.
        let magnitude: u64 = if a == i64::MIN {
            9_223_372_036_854_775_808u64
        } else {
            (-a) as u64
        };
        let divisor = b as u64;
        let q = magnitude / divisor;
        let m = magnitude % divisor;
        assert(magnitude == q * divisor + m && q <= magnitude) by (nonlinear_arith)
            requires
                q == magnitude as int / divisor as int,
                m == magnitude as int % divisor as int,
                divisor > 0,
        ;
        assert((-(q as int)) * (b as int) == -(q * divisor)) by (nonlinear_arith)
            requires
                divisor == b,
        ;
        let quotient: i64 = if q == 9_223_372_036_854_775_808u64 {
            i64::MIN
        } else {
            -(q as i64)
        };
        (quotient, -(m as i64))
    }
}

fn append_minutes_seconds(out: &mut String, seconds: i64)
    ensures
        final(out)@ == old(out)@ + minutes_seconds_text(seconds as int),
{
    proof {
        reveal_strlit(":");
    }
    let ghost before = out@;
    let (minutes, rest) = divide(seconds, 60);
    append_two_digits(out, minutes);
    out.append(":");
    append_two_digits(out, rest);
    assert(out@ =~= before + minutes_seconds_text(seconds as int));
}

/// A number of milliseconds as minutes and seconds, `MM:SS`.
pub fn format_duration_millis(milliseconds: i64) -> (r: String)
    ensures
        r@ == millis_text(milliseconds as int),
{
    let (total_seconds, _) = divide(milliseconds, 1000);
    let mut out = String::new();
    append_minutes_seconds(&mut out, total_seconds);
    assert(out@ =~= millis_text(milliseconds as int));
    out
}

/// A number of seconds as `MM:SS`, or as `HH:MM:SS` from one hour on.
pub fn format_duration_seconds(seconds: i32) -> (r: String)
    ensures
        r@ == seconds_text(seconds as int),
{
    proof {
        reveal_strlit(":");
    }
    let (minutes, secs) = divide(seconds as i64, 60);
    let mut out = String::new();
    if minutes >= 60 {
        let hours = minutes / 60;
        let mins = minutes % 60;
        append_two_digits(&mut out, hours);
        out.append(":");
        append_two_digits(&mut out, mins);
        out.append(":");
        append_two_digits(&mut out, secs);
        assert(out@ =~= seconds_text(seconds as int));
    } else {
        append_minutes_seconds(&mut out, seconds as i64);
        assert(out@ =~= seconds_text(seconds as int));
    }
    out
}

/// The date of a moment written as date, `T` and time; the date of the Unix
/// epoch where there is no moment.
pub fn date_of_moment(moment: Option<String>) -> (r: String)
    ensures
        r@ == date_text(crate::task::option_text(moment)),
{
    match moment {
        Some(text) => {
            let chars = chars_of(text.as_str());
            let end = find_char(&chars, 'T', 0);
            text.as_str().substring_char(0, end).to_string()
        },
        None => "1970-01-01".to_string(),
    }
}

/// The date, in UTC, of the moment that lies `timestamp` seconds after the
/// Unix epoch, as `YYYY-MM-DD`; the date of the epoch itself where the
/// moment cannot be written.
pub fn format_unix_timestamp(timestamp: i64) -> (r: String)
    ensures
        r@ == date_text(rfc3339_utc(timestamp as int)),
{
    let moment = rfc3339_of_timestamp(timestamp);
    date_of_moment(moment)
}

} // verus!
