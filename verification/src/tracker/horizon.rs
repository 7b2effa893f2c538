//! Horizon payloads and the reading of transaction records.
//!
//! Horizon reports fee statistics as decimal strings. A transaction
//! record becomes a fee data point when its hash, charged fee, ledger,
//! creation time and success flag are all present and readable.
use vstd::prelude::*;
use crate::text::{chars_of, parse_u64_chars, parse_u64_spec, string_from};
use crate::tracker::store::{FeeDataPoint, Timestamp};

verus! {

/// The fee-charged distribution surfaced by the public API; `avg` holds
/// Horizon's most common fee (`mode`).
#[derive(Debug, Clone)]
pub struct FeeCharged {
    pub min: String,
    pub max: String,
    pub avg: String,
    pub p10: String,
    pub p20: String,
    pub p30: String,
    pub p40: String,
    pub p50: String,
    pub p60: String,
    pub p70: String,
    pub p80: String,
    pub p90: String,
    pub p95: String,
    pub p99: String,
}

/// The subset of `/fee_stats` surfaced by the public API.
#[derive(Debug, Clone)]
pub struct HorizonFeeStats {
    pub last_ledger_base_fee: String,
    pub fee_charged: FeeCharged,
}

/// The complete fee-charged distribution of `/fee_stats`.
#[derive(Debug, Clone)]
pub struct FeeChargedStats {
    pub min: String,
    pub max: String,
    pub mode: String,
    pub mean: String,
    pub median: String,
    pub p10: String,
    pub p20: String,
    pub p30: String,
    pub p40: String,
    pub p50: String,
    pub p60: String,
    pub p70: String,
    pub p80: String,
    pub p90: String,
    pub p95: String,
    pub p99: String,
}

/// The max-fee distribution of `/fee_stats`.
#[derive(Debug, Clone)]
pub struct MaxFeeStats {
    pub min: String,
    pub max: String,
    pub mode: String,
    pub mean: String,
    pub median: String,
}

/// The complete `/fee_stats` payload.
#[derive(Debug, Clone)]
pub struct FeeStatsResponse {
    pub last_ledger: String,
    pub last_ledger_base_fee: String,
    pub ledger_capacity_usage: Option<String>,
    pub fee_charged: FeeChargedStats,
    pub max_fee: MaxFeeStats,
}

/// The instant an RFC 3339 date-time denotes, as whole seconds since the
/// Unix epoch and nanoseconds past that second, or `None` when the text is
/// not an RFC 3339 date-time.
pub uninterp spec fn rfc3339_instant(text: Seq<char>) -> Option<(i64, u32)>;

/// chrono's `DateTime::parse_from_rfc3339`, read back as seconds and
/// nanoseconds since the epoch (`timestamp`, `timestamp_subsec_nanos`).
/// The contract only names the result; the grammar is chrono's.
#[verifier::external_body]
pub(crate) fn parse_rfc3339(text: &str) -> (res: Option<(i64, u32)>)
    ensures
        res == rfc3339_instant(text@),
{
    match chrono::DateTime::parse_from_rfc3339(text) {
        Ok(dt) => Some((dt.timestamp(), dt.timestamp_subsec_nanos())),
        Err(_) => None,
    }
}

/// Whether every field a fee data point needs is present and readable.
pub open spec fn record_readable(
    hash: Option<&str>,
    fee_charged: Option<&str>,
    ledger: Option<&str>,
    created: Option<(i64, u32)>,
    successful: Option<bool>,
) -> bool {
    &&& hash is Some
    &&& fee_charged matches Some(f) && parse_u64_spec(f@) is Some
    &&& ledger matches Some(l) && parse_u64_spec(l@) is Some
    &&& created is Some
    &&& successful is Some
}

/// The fee data point of a transaction record whose creation instant has
/// been read: `None` unless every field is present and the fee and ledger
/// are decimal `u64` values.
pub fn point_from_fields(
    hash: Option<&str>,
    fee_charged: Option<&str>,
    ledger: Option<&str>,
    created: Option<(i64, u32)>,
    successful: Option<bool>,
) -> (res: Option<FeeDataPoint>)
    ensures
        res is Some <==> record_readable(hash, fee_charged, ledger, created, successful),
        res matches Some(p) ==> {
            &&& p.transaction_hash@ == hash.unwrap()@
            &&& Some(p.fee_amount) == parse_u64_spec(fee_charged.unwrap()@)
            &&& Some(p.ledger_sequence) == parse_u64_spec(ledger.unwrap()@)
            &&& p.timestamp == (Timestamp { secs: created.unwrap().0, nanos: created.unwrap().1 })
        },
{
    let h = match hash {
        Some(h) => h,
        None => return None,
    };
    let fee = match fee_charged {
        Some(f) => match parse_u64_chars(&chars_of(f)) {
            Some(v) => v,
            None => return None,
        },
        None => return None,
    };
    let seq = match ledger {
        Some(l) => match parse_u64_chars(&chars_of(l)) {
            Some(v) => v,
            None => return None,
        },
        None => return None,
    };
    let (secs, nanos) = match created {
        Some(c) => c,
        None => return None,
    };
    if successful.is_none() {
        return None;
    }
    Some(
        FeeDataPoint {
            fee_amount: fee,
            timestamp: Timestamp { secs, nanos },
            transaction_hash: string_from(h),
            ledger_sequence: seq,
        },
    )
}

/// The fee data point of a transaction record, reading its creation time
/// as an RFC 3339 date-time.
pub fn transaction_point(
    hash: Option<&str>,
    fee_charged: Option<&str>,
    ledger: Option<&str>,
    created_at: Option<&str>,
    successful: Option<bool>,
) -> (res: Option<FeeDataPoint>)
    ensures
        ({
            let created = match created_at {
                Some(c) => rfc3339_instant(c@),
                None => None,
            };
            &&& res is Some <==> record_readable(hash, fee_charged, ledger, created, successful)
            &&& res matches Some(p) ==> {
                &&& p.transaction_hash@ == hash.unwrap()@
                &&& Some(p.fee_amount) == parse_u64_spec(fee_charged.unwrap()@)
                &&& Some(p.ledger_sequence) == parse_u64_spec(ledger.unwrap()@)
                &&& p.timestamp == (Timestamp {
                    secs: created.unwrap().0,
                    nanos: created.unwrap().1,
                })
            }
        }),
{
    let created = match created_at {
        Some(c) => parse_rfc3339(c),
        None => None,
    };
    point_from_fields(hash, fee_charged, ledger, created, successful)
}

} // verus!
