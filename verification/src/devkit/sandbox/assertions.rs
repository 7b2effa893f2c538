//! Assertion helpers for sandbox-based fee validation.
//!
//! Provides `Result`-returning assertion functions that can be used in tests
//! to verify fee behaviour without panicking.
use vstd::prelude::*;
use crate::text::{decimal, push_decimal, push_str, string_from};

verus! {

/// The message for a fee outside its range.
pub open spec fn out_of_range_message(fee: u64, min: u64, max: u64) -> Seq<char> {
    "Fee out of range: "@ + decimal(fee as nat) + " not in ["@ + decimal(min as nat) + ".."@
        + decimal(max as nat) + "]"@
}

/// Assert that `fee` falls within `[min, max]` (inclusive).
pub fn assert_fee_in_range(fee: u64, min: u64, max: u64) -> (res: Result<(), String>)
    ensures
        res is Ok <==> min <= fee <= max,
        res matches Err(m) ==> m@ == out_of_range_message(fee, min, max),
{
    if fee >= min && fee <= max {
        Ok(())
    } else {
        let mut m = string_from("Fee out of range: ");
        push_decimal(&mut m, fee);
        push_str(&mut m, " not in [");
        push_decimal(&mut m, min);
        push_str(&mut m, "..");
        push_decimal(&mut m, max);
        push_str(&mut m, "]");
        Err(m)
    }
}

/// `parts` joined with `sep` between consecutive parts.
pub open spec fn joined(parts: Seq<Seq<char>>, sep: Seq<char>) -> Seq<char>
    decreases parts.len(),
{
    if parts.len() == 0 {
        Seq::empty()
    } else if parts.len() == 1 {
        parts[0]
    } else {
        joined(parts.drop_last(), sep) + sep + parts.last()
    }
}

/// The character sequences of a list of strings.
pub open spec fn texts(s: Seq<String>) -> Seq<Seq<char>> {
    s.map_values(|t: String| t@)
}

/// The message listing unexpected anomalies.
pub open spec fn anomalies_message(anomalies: Seq<String>) -> Seq<char> {
    "Expected no anomalies, found "@ + decimal(anomalies.len()) + ": "@ + joined(
        texts(anomalies),
        "; "@,
    )
}

/// Assert that the anomaly list is empty.
pub fn assert_no_anomalies(anomalies: &[String]) -> (res: Result<(), String>)
    ensures
        res is Ok <==> anomalies@.len() == 0,
        res matches Err(m) ==> m@ == anomalies_message(anomalies@),
{
    if anomalies.len() == 0 {
        return Ok(());
    }
    let mut m = string_from("Expected no anomalies, found ");
    push_decimal(&mut m, anomalies.len() as u64);
    push_str(&mut m, ": ");
    let ghost head = m@;
    for k in 0..anomalies.len()
        invariant
            m@ == head + joined(texts(anomalies@.take(k as int)), "; "@),
    {
        let ghost before = m@;
        if k > 0 {
            push_str(&mut m, "; ");
        }
        push_str(&mut m, anomalies[k].as_str());
        proof {
            let t = texts(anomalies@.take(k + 1));
            assert(t.drop_last() =~= texts(anomalies@.take(k as int)));
            assert(t.last() == anomalies@[k as int]@);
            if k == 0 {
                assert(texts(anomalies@.take(0)) =~= Seq::<Seq<char>>::empty());
                assert(m@ =~= head + joined(t, "; "@));
            } else {
                assert(m@ =~= head + joined(t, "; "@));
            }
        }
    }
    assert(anomalies@.take(anomalies@.len() as int) =~= anomalies@);
    Err(m)
}

} // verus!
