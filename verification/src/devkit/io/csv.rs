//! CSV rows for fee records.
use vstd::prelude::*;
use crate::text::{decimal, push_decimal, push_str, string_from};

verus! {

/// A single fee record suitable for CSV serialisation.
#[derive(Debug, Clone, Copy, PartialEq, Eq, Structural)]
pub struct FeeRecord {
    /// Milliseconds since the Unix epoch.
    pub timestamp_ms: u64,
    /// Fee amount in stroops.
    pub fee_stroops: u64,
    /// Ledger sequence number.
    pub sequence: u64,
}

/// The CSV header line.
pub open spec fn header_line() -> Seq<char> {
    "timestamp_ms,fee_stroops,sequence\n"@
}

/// The CSV line for `r`.
pub open spec fn row_line(r: FeeRecord) -> Seq<char> {
    decimal(r.timestamp_ms as nat) + ","@ + decimal(r.fee_stroops as nat) + ","@ + decimal(
        r.sequence as nat,
    ) + "\n"@
}

/// The CSV header line, newline included.
pub fn csv_header() -> (res: String)
    ensures
        res@ == header_line(),
{
    string_from("timestamp_ms,fee_stroops,sequence\n")
}

/// The CSV line for `record`, newline included.
pub fn csv_row(record: &FeeRecord) -> (res: String)
    ensures
        res@ == row_line(*record),
{
    let mut out = String::new();
    push_decimal(&mut out, record.timestamp_ms);
    push_str(&mut out, ",");
    push_decimal(&mut out, record.fee_stroops);
    push_str(&mut out, ",");
    push_decimal(&mut out, record.sequence);
    push_str(&mut out, "\n");
    assert(out@ =~= row_line(*record));
    out
}

} // verus!
