//! Scenarios for sandbox runs: a fixture, a duration and an optional
//! injected spike, composed with a builder.
use chrono::TimeDelta;
use vstd::prelude::*;

verus! {

/// Network fixture type for a scenario.
#[derive(Debug, Clone, Copy, PartialEq, Eq, Structural)]
pub enum Fixture {
    Normal,
    Congested,
    Spike,
}

#[verifier::external_type_specification]
#[verifier::external_body]
pub struct ExTimeDelta(TimeDelta);

/// `TimeDelta` derives `Clone` beside `Copy`; its `clone` returns the same
/// value.
pub assume_specification[ <TimeDelta as Clone>::clone ](d: &TimeDelta) -> (res: TimeDelta)
    ensures
        res == *d,
;

/// The span `TimeDelta::hours(hours)` returns.
pub uninterp spec fn hours_delta(hours: i64) -> TimeDelta;

/// chrono's `TimeDelta::hours`, which panics when the span is out of
/// range (more than `i64::MAX` milliseconds either way); the contract only
/// names the result.
#[verifier::external_body]
fn delta_hours(hours: i64) -> (res: TimeDelta)
    requires
        -2_562_047_788_015 <= hours <= 2_562_047_788_015,
    ensures
        res == hours_delta(hours),
{
    TimeDelta::hours(hours)
}

/// A fully-resolved sandbox scenario configuration.
#[derive(Debug, Clone, PartialEq)]
pub struct Scenario {
    pub fixture: Fixture,
    pub duration: TimeDelta,
    /// Offset in seconds and fee in stroops of an injected spike.
    pub spike_at: Option<(i64, u64)>,
}

/// Builder for a [`Scenario`]: a normal one-hour run without spike unless
/// set otherwise.
#[derive(Debug, Clone)]
pub struct ScenarioBuilder {
    fixture: Fixture,
    duration: TimeDelta,
    spike_at: Option<(i64, u64)>,
}

impl ScenarioBuilder {
    /// The scenario the builder currently describes.
    pub closed spec fn spec_scenario(self) -> Scenario {
        Scenario { fixture: self.fixture, duration: self.duration, spike_at: self.spike_at }
    }

    /// Set the network fixture for the scenario.
    pub fn fixture(self, fixture: Fixture) -> (res: Self)
        ensures
            res.spec_scenario() == (Scenario { fixture, ..self.spec_scenario() }),
    {
        ScenarioBuilder { fixture, duration: self.duration, spike_at: self.spike_at }
    }

    /// Set the total duration of the scenario.
    pub fn duration(self, duration: TimeDelta) -> (res: Self)
        ensures
            res.spec_scenario() == (Scenario { duration, ..self.spec_scenario() }),
    {
        ScenarioBuilder { fixture: self.fixture, duration, spike_at: self.spike_at }
    }

    /// Inject a spike at the given offset (seconds) with the given fee
    /// (stroops).
    pub fn inject_spike_at(self, offset_secs: i64, fee_stroops: u64) -> (res: Self)
        ensures
            res.spec_scenario() == (Scenario {
                spike_at: Some((offset_secs, fee_stroops)),
                ..self.spec_scenario()
            }),
    {
        ScenarioBuilder {
            fixture: self.fixture,
            duration: self.duration,
            spike_at: Some((offset_secs, fee_stroops)),
        }
    }

    /// Consume the builder and produce the scenario.
    pub fn build(self) -> (res: Scenario)
        ensures
            res == self.spec_scenario(),
    {
        Scenario { fixture: self.fixture, duration: self.duration, spike_at: self.spike_at }
    }
}

impl Default for ScenarioBuilder {
    fn default() -> (res: Self)
        ensures
            res.spec_scenario() == (Scenario {
                fixture: Fixture::Normal,
                duration: hours_delta(1),
                spike_at: None,
            }),
    {
        ScenarioBuilder { fixture: Fixture::Normal, duration: delta_hours(1), spike_at: None }
    }
}

impl Scenario {
    /// Start building a new scenario from the defaults.
    pub fn builder() -> (res: ScenarioBuilder)
        ensures
            res.spec_scenario() == (Scenario {
                fixture: Fixture::Normal,
                duration: hours_delta(1),
                spike_at: None,
            }),
    {
        ScenarioBuilder::default()
    }
}

} // verus!
