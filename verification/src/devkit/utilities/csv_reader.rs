//! Reading fee records from CSV.
//!
//! Expected columns: `timestamp,fee_amount,ledger_sequence,is_spike`,
//! after a header row. Malformed rows are skipped. Fields are trimmed;
//! the first three are unsigned decimals and the flag is `true`/`1` or
//! `false`/`0`, in any ASCII case.
use vstd::prelude::*;
use crate::text::{
    chars_eq, chars_eq_ignore_ascii_case, chars_of, eq_ignore_ascii_case, parse_u64_chars, parse_u64_spec,
    trim, trim_chars,
};

verus! {

/// One fee observation of a simulated or recorded run.
#[derive(Debug, Clone, Copy, PartialEq, Eq, Structural)]
pub struct FeePoint {
    pub timestamp: u64,
    pub fee: u64,
    pub ledger: u64,
    pub is_spike: bool,
}

/// The data records (header excluded) that the `csv` crate reads from
/// `data` with its default settings; `None` stands for a record the crate
/// reports as an error.
pub uninterp spec fn csv_records(data: Seq<u8>) -> Seq<Option<Seq<Seq<char>>>>;

/// The character sequences of a list of read records.
pub open spec fn records_view(records: Seq<Option<Vec<String>>>) -> Seq<Option<Seq<Seq<char>>>> {
    records.map_values(
        |r: Option<Vec<String>>|
            match r {
                Some(fields) => Some(fields@.map_values(|f: String| f@)),
                None => None,
            },
    )
}

/// The records of `data` as read by `csv::Reader::from_reader(..).records()`,
/// each field as an owned string, an erroneous record as `None`. The
/// contract only names the result; the CSV dialect is the crate's.
#[verifier::external_body]
fn read_records(data: &[u8]) -> (res: Vec<Option<Vec<String>>>)
    ensures
        records_view(res@) == csv_records(data@),
{
    let mut rdr = csv::Reader::from_reader(data);
    rdr.records().map(|r| r.ok().map(|rec| rec.iter().map(|f| f.to_string()).collect())).collect()
}

/// The spike flag a field spells, if any.
pub open spec fn flag_of(field: Seq<char>) -> Option<bool> {
    let t = trim(field);
    if eq_ignore_ascii_case(t, "true"@) || t == "1"@ {
        Some(true)
    } else if eq_ignore_ascii_case(t, "false"@) || t == "0"@ {
        Some(false)
    } else {
        None
    }
}

/// The fee point a record spells, if it is well formed.
pub open spec fn row_point(record: Seq<Seq<char>>) -> Option<FeePoint> {
    if record.len() < 4 {
        None
    } else {
        match (
            parse_u64_spec(trim(record[0])),
            parse_u64_spec(trim(record[1])),
            parse_u64_spec(trim(record[2])),
            flag_of(record[3]),
        ) {
            (Some(t), Some(f), Some(l), Some(s)) => Some(
                FeePoint { timestamp: t, fee: f, ledger: l, is_spike: s },
            ),
            _ => None,
        }
    }
}

/// The fee points of the well-formed records among the first `n`, in order.
pub open spec fn points_of(records: Seq<Option<Seq<Seq<char>>>>, n: int) -> Seq<FeePoint>
    decreases n,
{
    if n <= 0 {
        Seq::empty()
    } else {
        let rest = points_of(records, n - 1);
        match records[n - 1] {
            Some(r) => match row_point(r) {
                Some(p) => rest.push(p),
                None => rest,
            },
            None => rest,
        }
    }
}

fn trimmed_u64(field: &String) -> (res: Option<u64>)
    ensures
        res == parse_u64_spec(trim(field@)),
{
    parse_u64_chars(&trim_chars(&chars_of(field.as_str())))
}

fn spike_flag(field: &String) -> (res: Option<bool>)
    ensures
        res == flag_of(field@),
{
    let t = trim_chars(&chars_of(field.as_str()));
    let one = chars_of("1");
    let zero = chars_of("0");
    if chars_eq_ignore_ascii_case(&t, &chars_of("true")) || chars_eq(&t, &one) {
        Some(true)
    } else if chars_eq_ignore_ascii_case(&t, &chars_of("false")) || chars_eq(&t, &zero) {
        Some(false)
    } else {
        None
    }
}

/// The fee point a record spells, if it is well formed.
pub fn point_of_record(record: &Vec<String>) -> (res: Option<FeePoint>)
    ensures
        res == row_point(record@.map_values(|f: String| f@)),
{
    let ghost fields = record@.map_values(|f: String| f@);
    if record.len() < 4 {
        return None;
    }
    let t = trimmed_u64(&record[0]);
    let f = trimmed_u64(&record[1]);
    let l = trimmed_u64(&record[2]);
    let s = spike_flag(&record[3]);
    assert(fields[0] == record@[0]@ && fields[1] == record@[1]@);
    assert(fields[2] == record@[2]@ && fields[3] == record@[3]@);
    match (t, f, l, s) {
        (Some(t), Some(f), Some(l), Some(s)) => Some(
            FeePoint { timestamp: t, fee: f, ledger: l, is_spike: s },
        ),
        _ => None,
    }
}

/// The fee points of the well-formed records, in order; erroneous and
/// malformed records are skipped.
pub fn points_from_records(records: &Vec<Option<Vec<String>>>) -> (res: Vec<FeePoint>)
    ensures
        res@ == points_of(records_view(records@), records@.len() as int),
{
    let ghost view = records_view(records@);
    let mut points: Vec<FeePoint> = Vec::new();
    for i in 0..records.len()
        invariant
            view == records_view(records@),
            points@ == points_of(view, i as int),
    {
        assert(view[i as int] == match records@[i as int] {
            Some(fields) => Some(fields@.map_values(|f: String| f@)),
            None => None::<Seq<Seq<char>>>,
        });
        match &records[i] {
            Some(fields) => {
                match point_of_record(fields) {
                    Some(p) => points.push(p),
                    None => {},
                }
            },
            None => {},
        }
    }
    points
}

/// Reads CSV fee records from `data` into fee points, skipping erroneous
/// and malformed rows. It never fails.
pub fn read_csv(data: &[u8]) -> (res: Result<Vec<FeePoint>, String>)
    ensures
        res matches Ok(points) && points@ == points_of(
            csv_records(data@),
            csv_records(data@).len() as int,
        ),
{
    let records = read_records(data);
    Ok(points_from_records(&records))
}

} // verus!
