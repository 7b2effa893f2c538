//! In-memory fee database for the sandbox environment.
//!
//! [`SandboxEnv`] holds 10,000 synthetic fee records spanning a 24-hour window
//! covering Normal, Rising, Congested, and Spike network scenarios.
use vstd::prelude::*;

verus! {

/// Network regime represented by a block of fee records.
#[derive(Debug, Clone, Copy, PartialEq, Eq, Structural)]
pub enum Regime {
    /// Quiet network — fees 100–500 stroops.
    Normal,
    /// Fees gradually climbing above the normal band.
    Rising,
    /// Sustained high demand; fees significantly elevated.
    Congested,
    /// Short-lived burst; fees spike then recover.
    Spike,
}

/// A single fee observation stored in the sandbox database.
#[derive(Debug, Clone, PartialEq, Eq)]
pub struct FeeRecord {
    /// Milliseconds since the Unix epoch.
    pub timestamp_ms: u64,
    /// Fee amount in stroops.
    pub fee_stroops: u64,
    /// Network regime this record belongs to.
    pub regime: Regime,
}

/// The anchor instant the seeded day ends at, in milliseconds.
pub const SEED_ANCHOR_MS: u64 = 1_753_315_200_000;
/// One day in milliseconds.
pub const DAY_MS: u64 = 86_400_000;
/// Records seeded per regime.
pub const PER_REGIME: u64 = 2_500;

/// The regime of the `q`-th quarter of the seeded day.
pub open spec fn quarter_regime(q: int) -> Regime {
    if q == 0 {
        Regime::Normal
    } else if q == 1 {
        Regime::Rising
    } else if q == 2 {
        Regime::Congested
    } else {
        Regime::Spike
    }
}

/// The fee of the `i`-th record of a regime's block.
pub open spec fn seeded_fee(regime: Regime, i: int) -> int {
    match regime {
        Regime::Normal => 100 + i * 400 / 2_500,
        Regime::Rising => 400 + i * 1_100 / 2_500,
        Regime::Congested => 1_000 + i * 4_000 / 2_500,
        Regime::Spike => if i % 50 == 0 {
            50_000
        } else {
            100 + (i % 50) * 4
        },
    }
}

/// The `k`-th seeded record: quarter `k / 2500` of the day before the
/// anchor, record `k % 2500` of that quarter, spaced 8.64 s apart.
pub open spec fn seeded_record(k: int) -> FeeRecord {
    let q = k / 2_500;
    let i = k % 2_500;
    let regime = quarter_regime(q);
    FeeRecord {
        timestamp_ms: ((SEED_ANCHOR_MS - DAY_MS) + q * (DAY_MS / 4) + i * (DAY_MS / 4 / 2_500)) as u64,
        fee_stroops: seeded_fee(regime, i) as u64,
        regime,
    }
}

/// The 10,000 records a sandbox is seeded with.
pub open spec fn seeded_records() -> Seq<FeeRecord> {
    Seq::new(10_000, |k: int| seeded_record(k))
}

/// The seeded records lie within the day before the anchor, in strictly
/// increasing time order, and each quarter of the day holds one regime.
pub proof fn lemma_seeded_day(j: int, k: int)
    requires
        0 <= j < k < 10_000,
    ensures
        SEED_ANCHOR_MS - DAY_MS <= seeded_record(j).timestamp_ms < seeded_record(k).timestamp_ms
            < SEED_ANCHOR_MS,
        seeded_record(k).regime == quarter_regime(k / 2_500),
{
    let qj = j / 2_500;
    let ij = j % 2_500;
    let qk = k / 2_500;
    let ik = k % 2_500;
    assert(j == qj * 2_500 + ij && 0 <= ij < 2_500 && 0 <= qj < 4) by (nonlinear_arith)
        requires
            qj == j / 2_500,
            ij == j % 2_500,
            0 <= j < 10_000,
    ;
    assert(k == qk * 2_500 + ik && 0 <= ik < 2_500 && 0 <= qk < 4) by (nonlinear_arith)
        requires
            qk == k / 2_500,
            ik == k % 2_500,
            0 <= k < 10_000,
    ;
    let tj = (SEED_ANCHOR_MS - DAY_MS) + qj * (DAY_MS / 4) + ij * (DAY_MS / 4 / 2_500);
    let tk = (SEED_ANCHOR_MS - DAY_MS) + qk * (DAY_MS / 4) + ik * (DAY_MS / 4 / 2_500);
    assert(tj == (SEED_ANCHOR_MS - DAY_MS) + j * 8_640 && tk == (SEED_ANCHOR_MS - DAY_MS) + k * 8_640)
        by (nonlinear_arith)
        requires
            j == qj * 2_500 + ij,
            k == qk * 2_500 + ik,
            tj == (SEED_ANCHOR_MS - DAY_MS) + qj * (DAY_MS / 4) + ij * (DAY_MS / 4 / 2_500),
            tk == (SEED_ANCHOR_MS - DAY_MS) + qk * (DAY_MS / 4) + ik * (DAY_MS / 4 / 2_500),
    ;
    assert(j * 8_640 < k * 8_640 && 0 <= j * 8_640 && k * 8_640 < DAY_MS) by (nonlinear_arith)
        requires
            0 <= j < k < 10_000,
    ;
}

/// In-memory fee database pre-seeded with 10,000 [`FeeRecord`]s spanning 24 hours.
pub struct SandboxEnv {
    records: Vec<FeeRecord>,
}

impl View for SandboxEnv {
    type V = Seq<FeeRecord>;

    closed spec fn view(&self) -> Seq<FeeRecord> {
        self.records@
    }
}

fn regime_of_quarter(q: u64) -> (r: Regime)
    requires
        q < 4,
    ensures
        r == quarter_regime(q as int),
{
    if q == 0 {
        Regime::Normal
    } else if q == 1 {
        Regime::Rising
    } else if q == 2 {
        Regime::Congested
    } else {
        Regime::Spike
    }
}

impl SandboxEnv {
    /// Creates a new [`SandboxEnv`] and seeds it with 10,000 records.
    pub fn new() -> (res: Self)
        ensures
            res@ == seeded_records(),
    {
        let mut env = Self { records: Vec::new() };
        env.seed();
        env
    }

    /// Seeds the database with 10,000 fee records spanning 24 hours,
    /// replacing what it held.
    pub fn seed(&mut self)
        ensures
            final(self)@ == seeded_records(),
    {
        self.records.clear();
        let start_ms: u64 = SEED_ANCHOR_MS.saturating_sub(DAY_MS);
        let per_regime: u64 = PER_REGIME;
        let regime_duration_ms: u64 = DAY_MS / 4;
        for quarter in 0..4u64
            invariant
                start_ms == 1_753_228_800_000,
                per_regime == 2_500,
                regime_duration_ms == 21_600_000,
                self.records@.len() == quarter * 2_500,
                forall|k: int| 0 <= k < quarter * 2_500 ==> #[trigger] self.records@[k] == seeded_record(k),
        {
            let regime = regime_of_quarter(quarter);
            let seg_start = start_ms + quarter * regime_duration_ms;
            let interval_ms = regime_duration_ms / per_regime;
            for i in 0..per_regime
                invariant
                    quarter < 4,
                    start_ms == 1_753_228_800_000,
                    per_regime == 2_500,
                    regime_duration_ms == 21_600_000,
                    regime == quarter_regime(quarter as int),
                    seg_start == start_ms + quarter * regime_duration_ms,
                    interval_ms == 8_640,
                    self.records@.len() == quarter * 2_500 + i,
                    forall|k: int|
                        0 <= k < quarter * 2_500 + i ==> #[trigger] self.records@[k] == seeded_record(k),
            {
                let timestamp_ms = seg_start + i * interval_ms;
                let fee_stroops = match regime {
                    Regime::Normal => 100 + (i * 400 / per_regime),
                    Regime::Rising => 400 + (i * 1_100 / per_regime),
                    Regime::Congested => 1_000 + (i * 4_000 / per_regime),
                    Regime::Spike => {
                        if i % 50 == 0 {
                            50_000
                        } else {
                            100 + (i % 50) * 4
                        }
                    },
                };
                let ghost k = quarter * 2_500 + i;
                assert(k / 2_500 == quarter && k % 2_500 == i) by (nonlinear_arith)
                    requires
                        k == quarter * 2_500 + i,
                        0 <= i < 2_500,
                ;
                self.records.push(FeeRecord { timestamp_ms, fee_stroops, regime });
            }
        }
        assert(self.records@ =~= seeded_records());
    }

    /// Discards all records and re-seeds the database from scratch.
    pub fn reset(&mut self)
        ensures
            final(self)@ == seeded_records(),
    {
        self.seed();
    }

    /// Returns a read-only slice of all fee records.
    pub fn records(&self) -> (res: &[FeeRecord])
        ensures
            res@ == self@,
    {
        self.records.as_slice()
    }

    /// Returns a mutable reference to the underlying record list.
    pub fn records_mut(&mut self) -> (res: &mut Vec<FeeRecord>)
        ensures
            res@ == old(self)@,
            final(self)@ == final(res)@,
    {
        &mut self.records
    }

    /// Returns only the records belonging to the given [`Regime`].
    pub fn records_for_regime(&self, regime: Regime) -> (res: Vec<&FeeRecord>)
        ensures
            res@.map_values(|r: &FeeRecord| *r) == self@.filter(|r: FeeRecord| r.regime == regime),
    {
        let ghost pred = |r: FeeRecord| r.regime == regime;
        let mut res: Vec<&FeeRecord> = Vec::new();
        for k in 0..self.records.len()
            invariant
                pred == (|r: FeeRecord| r.regime == regime),
                res@.map_values(|r: &FeeRecord| *r) == self.records@.take(k as int).filter(pred),
        {
            proof {
                reveal(Seq::filter);
                assert(self.records@.take(k + 1).drop_last() =~= self.records@.take(k as int));
            }
            let ghost before = res@;
            if self.records[k].regime == regime {
                res.push(&self.records[k]);
                assert(res@.map_values(|r: &FeeRecord| *r) =~= before.map_values(|r: &FeeRecord| *r).push(
                    self.records@[k as int],
                ));
            }
        }
        assert(self.records@.take(self.records.len() as int) =~= self.records@);
        res
    }

    /// Total number of fee records currently in the database.
    pub fn len(&self) -> (res: usize)
        ensures
            res == self@.len(),
    {
        self.records.len()
    }

    /// Returns `true` if the database contains no records.
    pub fn is_empty(&self) -> (res: bool)
        ensures
            res == (self@.len() == 0),
    {
        self.records.len() == 0
    }

    /// Creates a [`SandboxEnv`] holding the given `(timestamp_ms, fee_stroops)`
    /// samples as normal-regime records, in order.
    pub fn from_normal_samples(raw: Vec<(u64, u64)>) -> (res: Self)
        ensures
            res@.len() == raw@.len(),
            forall|k: int|
                0 <= k < raw@.len() ==> #[trigger] res@[k] == (FeeRecord {
                    timestamp_ms: raw@[k].0,
                    fee_stroops: raw@[k].1,
                    regime: Regime::Normal,
                }),
    {
        let mut records: Vec<FeeRecord> = Vec::new();
        for k in 0..raw.len()
            invariant
                records@.len() == k,
                forall|j: int|
                    0 <= j < k ==> #[trigger] records@[j] == (FeeRecord {
                        timestamp_ms: raw@[j].0,
                        fee_stroops: raw@[j].1,
                        regime: Regime::Normal,
                    }),
        {
            let (timestamp_ms, fee_stroops) = raw[k];
            records.push(FeeRecord { timestamp_ms, fee_stroops, regime: Regime::Normal });
        }
        Self { records }
    }
}

} // verus!
