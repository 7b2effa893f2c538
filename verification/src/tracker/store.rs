//! In-memory fee history store.
//!
//! `FeeHistoryStore` holds a bounded window of `FeeDataPoint` values
//! collected across polling cycles. When the store is full the oldest
//! entry is evicted before the new one is inserted (ring-buffer semantics
//! backed by `VecDeque`).
use std::collections::VecDeque;
use vstd::prelude::*;
use crate::text::{chars_of, parse_u64_chars, parse_u64_spec, push_str, trim, trim_chars};

verus! {

/// Default maximum number of data points retained in memory.
pub const DEFAULT_CAPACITY: usize = 10_000;

/// A point in time: whole seconds since the Unix epoch and the nanoseconds
/// past that second. Instants are ordered by seconds, then nanoseconds.
#[derive(Debug, Clone, Copy, PartialEq, Eq, Structural)]
pub struct Timestamp {
    pub secs: i64,
    pub nanos: u32,
}

impl Timestamp {
    /// Whether `self` is at or after `other`.
    pub open spec fn spec_at_or_after(self, other: Timestamp) -> bool {
        self.secs > other.secs || (self.secs == other.secs && self.nanos >= other.nanos)
    }

    /// Whether `self` is at or after `other`.
    pub fn at_or_after(&self, other: &Timestamp) -> (res: bool)
        ensures
            res == self.spec_at_or_after(*other),
    {
        self.secs > other.secs || (self.secs == other.secs && self.nanos >= other.nanos)
    }
}

/// One observed transaction fee.
#[derive(Debug, PartialEq, Eq)]
pub struct FeeDataPoint {
    pub fee_amount: u64,
    pub timestamp: Timestamp,
    pub transaction_hash: String,
    pub ledger_sequence: u64,
}

impl Clone for FeeDataPoint {
    fn clone(&self) -> (res: Self)
        ensures
            res == *self,
    {
        FeeDataPoint {
            fee_amount: self.fee_amount,
            timestamp: self.timestamp,
            transaction_hash: self.transaction_hash.clone(),
            ledger_sequence: self.ledger_sequence,
        }
    }
}

/// The most recent `k` entries of `s`, oldest first (all of `s` when it
/// has fewer).
pub open spec fn last_n<T>(s: Seq<T>, k: int) -> Seq<T> {
    if s.len() <= k {
        s
    } else {
        s.subrange(s.len() - k, s.len() as int)
    }
}

/// How many points a store of `capacity` keeps: the capacity, but at least
/// one, since a push always inserts after evicting.
pub open spec fn retained(capacity: usize) -> int {
    if capacity == 0 {
        1
    } else {
        capacity as int
    }
}

/// The contents after pushing `p` onto contents `s` with the given capacity.
pub open spec fn pushed(s: Seq<FeeDataPoint>, capacity: usize, p: FeeDataPoint) -> Seq<
    FeeDataPoint,
> {
    if s.len() > 0 && s.len() >= capacity {
        s.drop_first().push(p)
    } else {
        s.push(p)
    }
}

/// The contents after pushing each of `ps` in turn onto contents `s`.
pub open spec fn pushed_all(s: Seq<FeeDataPoint>, capacity: usize, ps: Seq<FeeDataPoint>) -> Seq<
    FeeDataPoint,
>
    decreases ps.len(),
{
    if ps.len() == 0 {
        s
    } else {
        pushed(pushed_all(s, capacity, ps.drop_last()), capacity, ps.last())
    }
}

/// Capacity-bounded in-memory store for `FeeDataPoint` values.
#[derive(Debug)]
pub struct FeeHistoryStore {
    data: VecDeque<FeeDataPoint>,
    capacity: usize,
}

impl View for FeeHistoryStore {
    type V = Seq<FeeDataPoint>;

    /// The stored points, oldest first.
    closed spec fn view(&self) -> Seq<FeeDataPoint> {
        self.data@
    }
}

impl FeeHistoryStore {
    #[verifier::type_invariant]
    closed spec fn within_capacity(self) -> bool {
        self.data@.len() <= retained(self.capacity)
    }

    /// The capacity the store was made with.
    pub closed spec fn spec_capacity(&self) -> usize {
        self.capacity
    }

    /// Create a new store with the given maximum capacity.
    pub fn new(capacity: usize) -> (res: Self)
        ensures
            res@ == Seq::<FeeDataPoint>::empty(),
            res.spec_capacity() == capacity,
    {
        Self { data: VecDeque::with_capacity(capacity), capacity }
    }

    /// Append a new data point, evicting the oldest if the store is full.
    pub fn push(&mut self, point: FeeDataPoint)
        ensures
            final(self)@ == pushed(old(self)@, old(self).spec_capacity(), point),
            final(self).spec_capacity() == old(self).spec_capacity(),
            final(self)@.len() <= retained(final(self).spec_capacity()),
    {
        proof {
            use_type_invariant(&*self);
        }
        let mut data: VecDeque<FeeDataPoint> = VecDeque::new();
        std::mem::swap(&mut data, &mut self.data);
        if data.len() >= self.capacity {
            data.pop_front();
        }
        data.push_back(point);
        self.data = data;
        assert(self.data@ =~= pushed(old(self)@, old(self).spec_capacity(), point));
    }

    /// Append each of `points` in turn, as one polling cycle does.
    pub fn push_all(&mut self, points: &Vec<FeeDataPoint>)
        ensures
            final(self)@ == pushed_all(old(self)@, old(self).spec_capacity(), points@),
            final(self).spec_capacity() == old(self).spec_capacity(),
    {
        for i in 0..points.len()
            invariant
                self@ == pushed_all(old(self)@, old(self).spec_capacity(), points@.take(i as int)),
                self.spec_capacity() == old(self).spec_capacity(),
        {
            proof {
                assert(points@.take(i + 1).drop_last() =~= points@.take(i as int));
            }
            self.push(points[i].clone());
        }
        assert(points@.take(points.len() as int) =~= points@);
    }

    /// Return all data points with a timestamp >= `since`, oldest first.
    pub fn get_since(&self, since: Timestamp) -> (res: Vec<FeeDataPoint>)
        ensures
            res@ == self@.filter(|p: FeeDataPoint| p.timestamp.spec_at_or_after(since)),
    {
        let ghost pred = |p: FeeDataPoint| p.timestamp.spec_at_or_after(since);
        let mut res: Vec<FeeDataPoint> = Vec::new();
        let n = self.data.len();
        for i in 0..n
            invariant
                n == self@.len(),
                pred == (|p: FeeDataPoint| p.timestamp.spec_at_or_after(since)),
                res@ == self@.take(i as int).filter(pred),
        {
            proof {
                reveal(Seq::filter);
                assert(self@.take(i + 1).drop_last() =~= self@.take(i as int));
                assert(self@.take(i + 1).last() == self@[i as int]);
            }
            if self.data[i].timestamp.at_or_after(&since) {
                res.push(self.data[i].clone());
            }
        }
        assert(self@.take(n as int) =~= self@);
        res
    }

    /// Return the `n` most recent data points, oldest first.
    /// If fewer than `n` points exist, all points are returned.
    pub fn get_last_n(&self, n: usize) -> (res: Vec<FeeDataPoint>)
        ensures
            res@ == last_n(self@, n as int),
    {
        let len = self.data.len();
        let skip = len.saturating_sub(n);
        let mut res: Vec<FeeDataPoint> = Vec::new();
        for i in skip..len
            invariant
                len == self@.len(),
                skip <= len,
                res@ == self@.subrange(skip as int, i as int),
        {
            res.push(self.data[i].clone());
            assert(self@.subrange(skip as int, i + 1) =~= self@.subrange(skip as int, i as int).push(
                self@[i as int],
            ));
        }
        assert(res@ =~= last_n(self@, n as int));
        res
    }

    /// Number of data points currently held.
    pub fn len(&self) -> (res: usize)
        ensures
            res == self@.len(),
            res <= retained(self.spec_capacity()),
    {
        proof {
            use_type_invariant(self);
        }
        self.data.len()
    }

    /// `true` when the store contains no data points.
    pub fn is_empty(&self) -> (res: bool)
        ensures
            res == (self@.len() == 0),
    {
        self.data.len() == 0
    }

    /// Remove all data points from the store.
    pub fn clear(&mut self)
        ensures
            final(self)@ == Seq::<FeeDataPoint>::empty(),
            final(self).spec_capacity() == old(self).spec_capacity(),
    {
        self.data = VecDeque::new();
    }
}

/// Ring-buffer law: pushing points one by one onto a store keeps exactly
/// the most recent `capacity` of everything it has held, oldest first
/// (at least the latest point, when the capacity is zero).
pub proof fn lemma_pushes_keep_most_recent(
    s: Seq<FeeDataPoint>,
    capacity: usize,
    ps: Seq<FeeDataPoint>,
)
    requires
        s.len() <= retained(capacity),
    ensures
        pushed_all(s, capacity, ps) == last_n(s + ps, retained(capacity)),
    decreases ps.len(),
{
    if ps.len() == 0 {
        assert(s + ps =~= s);
    } else {
        let prev = ps.drop_last();
        lemma_pushes_keep_most_recent(s, capacity, prev);
        let mid = pushed_all(s, capacity, prev);
        let k = retained(capacity);
        let all_prev = s + prev;
        let all = s + ps;
        assert(all =~= all_prev.push(ps.last()));
        assert(mid == last_n(all_prev, k));
        if mid.len() > 0 && mid.len() >= capacity {
            assert(mid.len() == k);
            assert(all_prev.len() >= k);
            assert(pushed(mid, capacity, ps.last()) =~= last_n(all, k));
        } else {
            assert(pushed(mid, capacity, ps.last()) =~= last_n(all, k));
        }
    }
}

/// An error the fee tracker reports.
#[derive(Debug)]
pub enum AppError {
    /// A value could not be read.
    Parse(String),
    /// A request to an upstream service failed.
    Network(String),
    /// Any other failure.
    Unknown(String),
}

/// The message naming a field whose value is not a number.
pub open spec fn invalid_field_message(raw: Seq<char>, field: Seq<char>) -> Seq<char> {
    "Invalid "@ + field + " in fee_stats response: '"@ + raw + "'"@
}

/// Parses the (whitespace-trimmed) decimal `raw`, naming `field` in the
/// error when it is not an unsigned 64-bit integer.
pub fn parse_u64_field(raw: &str, field: &str) -> (res: Result<u64, AppError>)
    ensures
        parse_u64_spec(trim(raw@)) matches Some(v) ==> res == Ok::<u64, AppError>(v),
        parse_u64_spec(trim(raw@)) is None ==> (res matches Err(AppError::Parse(m))
            && m@ == invalid_field_message(raw@, field@)),
{
    let cs = trim_chars(&chars_of(raw));
    match parse_u64_chars(&cs) {
        Some(v) => Ok(v),
        None => {
            let mut m = String::new();
            push_str(&mut m, "Invalid ");
            push_str(&mut m, field);
            push_str(&mut m, " in fee_stats response: '");
            push_str(&mut m, raw);
            push_str(&mut m, "'");
            Err(AppError::Parse(m))
        },
    }
}

} // verus!
