//! Time stamps and their human-readable rendering.
use vstd::prelude::*;
use crate::text::{decimal, decimal2, decimal_chars, decimal2_chars, extend, extend_str, string_of};

verus! {

/// The current time as whole seconds since the Unix epoch (0 when the clock
/// reads before the epoch).
///
/// Trusted: wraps `SystemTime::now` and `duration_since(UNIX_EPOCH)`; the
/// value depends on the clock, so nothing is stated of it.
#[verifier::external_body]
pub fn now_unix() -> u64 {
    std::time::SystemTime::now()
        .duration_since(std::time::UNIX_EPOCH)
        .unwrap_or(std::time::Duration::ZERO)
        .as_secs()
}


/// The text of a time stamp: `—` for 0, else `MM/DD hh:mm`, where the
/// day count since the epoch gives a month-like number (its remainder by
/// 365, then by 12, plus 1) and a day-like number (its remainder by 28,
/// plus 1), each two digits wide.
pub open spec fn timestamp_text(ts: nat) -> Seq<char> {
    if ts == 0 {
        "—"@
    } else {
        let days = ts / 86400;
        let rem = ts % 86400;
        decimal2((days % 365) % 12 + 1) + "/"@ + decimal2(days % 28 + 1) + " "@ + decimal2(rem / 3600)
            + ":"@ + decimal2((rem % 3600) / 60)
    }
}

/// A time stamp as `MM/DD hh:mm`, or `—` for none.
pub fn format_timestamp(ts: u64) -> (r: String)
    ensures
        r@ == timestamp_text(ts as nat),
{
    if ts == 0 {
        let mut v: Vec<char> = Vec::new();
        v.push('—');
        proof {
            reveal_strlit("—");
        }
        assert(v@ =~= "—"@);
        return string_of(&v);
    }
    let days = ts / 86400;
    let rem = ts % 86400;
    let hours = rem / 3600;
    let mins = (rem % 3600) / 60;
    let mut v = decimal2_chars((days % 365) % 12 + 1);
    extend_str(&mut v, "/");
    let d = decimal2_chars(days % 28 + 1);
    extend(&mut v, &d);
    extend_str(&mut v, " ");
    let h = decimal2_chars(hours);
    extend(&mut v, &h);
    extend_str(&mut v, ":");
    let m = decimal2_chars(mins);
    extend(&mut v, &m);
    string_of(&v)
}

/// The text of a duration: `Ns` under a minute, `Mm Ss` under an hour,
/// else `Hh Mm`.
pub open spec fn duration_text(secs: nat) -> Seq<char> {
    if secs < 60 {
        decimal(secs) + "s"@
    } else if secs < 3600 {
        decimal(secs / 60) + "m "@ + decimal(secs % 60) + "s"@
    } else {
        decimal(secs / 3600) + "h "@ + decimal((secs % 3600) / 60) + "m"@
    }
}

/// A duration in seconds, as seconds, minutes and seconds, or hours and
/// minutes.
pub fn format_duration(secs: u64) -> (r: String)
    ensures
        r@ == duration_text(secs as nat),
{
    let mut v: Vec<char>;
    if secs < 60 {
        v = decimal_chars(secs);
        extend_str(&mut v, "s");
    } else if secs < 3600 {
        v = decimal_chars(secs / 60);
        extend_str(&mut v, "m ");
        let s2 = decimal_chars(secs % 60);
        extend(&mut v, &s2);
        extend_str(&mut v, "s");
    } else {
        v = decimal_chars(secs / 3600);
        extend_str(&mut v, "h ");
        let m = decimal_chars((secs % 3600) / 60);
        extend(&mut v, &m);
        extend_str(&mut v, "m");
    }
    string_of(&v)
}

} // verus!
