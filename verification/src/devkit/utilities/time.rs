//! Time window parsing and timestamp conversions.
use std::time::Duration;
use vstd::prelude::*;
use crate::devkit::time_units::{duration_from_secs, secs_duration};
use crate::text::{chars_of, parse_u64_chars, parse_u64_spec, push_chars, string_from, trim, trim_chars};

verus! {

/// An invalid time window, with the reason.
#[derive(Debug, Clone, PartialEq, Eq)]
pub struct ParseError(pub String);

impl ParseError {
    /// The message the error displays.
    pub fn to_text(&self) -> (res: String)
        ensures
            res@ == "invalid time window: "@ + self.0@,
    {
        let mut m = string_from("invalid time window: ");
        crate::text::push_str(&mut m, self.0.as_str());
        m
    }
}

/// Seconds in one unit of a time window: an hour for `h`, a day for `d`.
pub open spec fn unit_secs(unit: char) -> Option<int> {
    if unit == 'h' {
        Some(3600)
    } else if unit == 'd' {
        Some(86400)
    } else {
        None
    }
}

/// What `parse_window` makes of `s`: the window in seconds, or the reason
/// it is refused.
pub open spec fn window_secs(s: Seq<char>) -> Result<int, Seq<char>> {
    let t = trim(s);
    if t.len() == 0 {
        Err("empty string"@)
    } else {
        let num = t.drop_last();
        let unit = t.last();
        match parse_u64_spec(num) {
            None => Err("'"@ + t + "' is not a valid time window"@),
            Some(v) => match unit_secs(unit) {
                Some(u) => Ok(v * u),
                None => Err("unknown unit '"@ + seq![unit] + "', expected 'h' or 'd'"@),
            },
        }
    }
}

/// The inputs `parse_window` accepts without panicking: the trimmed text
/// ends in a one-byte character, and the window fits in a `u64`.
pub open spec fn window_in_range(s: Seq<char>) -> bool {
    let t = trim(s);
    &&& (t.len() > 0 ==> (t.last() as int) < 128)
    &&& (window_secs(s) matches Ok(w) ==> w <= u64::MAX)
}

/// Parse a human-readable time window string into a `Duration`.
///
/// Supported formats: `1h`, `6h`, `24h`, `7d`, `30d`.
pub fn parse_window(s: &str) -> (res: Result<Duration, ParseError>)
    requires
        window_in_range(s@),
    ensures
        match window_secs(s@) {
            Ok(w) => res == Ok::<Duration, ParseError>(secs_duration(w as u64)),
            Err(m) => res matches Err(ParseError(e)) && e@ == m,
        },
{
    let t = trim_chars(&chars_of(s));
    if t.len() == 0 {
        return Err(ParseError(string_from("empty string")));
    }
    let mut num: Vec<char> = Vec::new();
    for k in 0..t.len() - 1
        invariant
            t.len() > 0,
            num@ == t@.take(k as int),
    {
        num.push(t[k]);
        assert(t@.take(k + 1) =~= t@.take(k as int).push(t@[k as int]));
    }
    assert(num@ =~= t@.drop_last());
    let unit = t[t.len() - 1];
    let value = match parse_u64_chars(&num) {
        Some(v) => v,
        None => {
            let mut m = string_from("'");
            push_chars(&mut m, &t);
            crate::text::push_str(&mut m, "' is not a valid time window");
            return Err(ParseError(m));
        },
    };
    if unit == 'h' {
        Ok(duration_from_secs(value * 3600))
    } else if unit == 'd' {
        Ok(duration_from_secs(value * 86400))
    } else {
        let mut m = string_from("unknown unit '");
        crate::text::push_char(&mut m, unit);
        crate::text::push_str(&mut m, "', expected 'h' or 'd'");
        assert(m@ =~= "unknown unit '"@ + seq![unit] + "', expected 'h' or 'd'"@);
        Err(ParseError(m))
    }
}

/// Converts a ledger close time in seconds to milliseconds.
pub fn ledger_close_time_to_unix_ms(close_time: u64) -> (res: u64)
    requires
        close_time * 1000 <= u64::MAX,
    ensures
        res == close_time * 1000,
{
    close_time * 1000
}

} // verus!
