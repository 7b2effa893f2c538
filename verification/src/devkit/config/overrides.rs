//! Settings overridden by text values, as the `DEVKIT_*` environment
//! variables supply them: a value that does not parse as the setting's
//! type leaves the setting unchanged.
use vstd::prelude::*;
use crate::text::{chars_of, parse_u64_chars, parse_u64_spec, str_is};

verus! {

/// What `str::parse::<i64>` accepts and yields: an optional sign, then one
/// or more ASCII digits whose signed value fits in an `i64`.
pub open spec fn parse_i64_spec(s: Seq<char>) -> Option<i64> {
    if s.len() > 0 && s[0] == '-' {
        let body = s.drop_first();
        if body.len() > 0 && body[0] != '+' {
            match parse_u64_spec(body) {
                Some(v) if v <= 0x8000_0000_0000_0000 => Some((0 - v) as i64),
                _ => None,
            }
        } else {
            None
        }
    } else {
        match parse_u64_spec(s) {
            Some(v) if v <= i64::MAX => Some(v as i64),
            _ => None,
        }
    }
}

/// `current`, or the `u64` that `text` spells.
pub fn u64_or(text: &str, current: u64) -> (res: u64)
    ensures
        res == match parse_u64_spec(text@) {
            Some(v) => v,
            None => current,
        },
{
    match parse_u64_chars(&chars_of(text)) {
        Some(v) => v,
        None => current,
    }
}

/// `current`, or the `u32` that `text` spells.
pub fn u32_or(text: &str, current: u32) -> (res: u32)
    ensures
        res == match parse_u64_spec(text@) {
            Some(v) if v <= u32::MAX => v as u32,
            _ => current,
        },
{
    match parse_u64_chars(&chars_of(text)) {
        Some(v) => if v <= 0xffff_ffff { v as u32 } else { current },
        None => current,
    }
}

/// `current`, or the `u16` that `text` spells.
pub fn u16_or(text: &str, current: u16) -> (res: u16)
    ensures
        res == match parse_u64_spec(text@) {
            Some(v) if v <= u16::MAX => v as u16,
            _ => current,
        },
{
    match parse_u64_chars(&chars_of(text)) {
        Some(v) => if v <= 0xffff { v as u16 } else { current },
        None => current,
    }
}

/// `current`, or the `i64` that `text` spells.
pub fn i64_or(text: &str, current: i64) -> (res: i64)
    ensures
        res == match parse_i64_spec(text@) {
            Some(v) => v,
            None => current,
        },
{
    let cs = chars_of(text);
    if cs.len() > 0 && cs[0] == '-' {
        let mut body: Vec<char> = Vec::new();
        for k in 1..cs.len()
            invariant
                cs.len() > 0,
                body@ == cs@.subrange(1, k as int),
        {
            body.push(cs[k]);
            assert(cs@.subrange(1, k + 1) =~= cs@.subrange(1, k as int).push(cs@[k as int]));
        }
        assert(body@ =~= cs@.drop_first());
        if body.len() == 0 || body[0] == '+' {
            return current;
        }
        match parse_u64_chars(&body) {
            Some(v) => if v <= 0x8000_0000_0000_0000 {
                (0i128 - v as i128) as i64
            } else {
                current
            },
            None => current,
        }
    } else {
        match parse_u64_chars(&cs) {
            Some(v) => if v <= 0x7fff_ffff_ffff_ffff { v as i64 } else { current },
            None => current,
        }
    }
}

/// Whether a flag's text turns it on: exactly `true` or `1`.
pub fn flag_on(text: &str) -> (res: bool)
    ensures
        res == (text@ == "true"@ || text@ == "1"@),
{
    str_is(text, "true") || str_is(text, "1")
}

} // verus!
