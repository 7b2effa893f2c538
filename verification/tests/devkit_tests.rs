use std::time::Duration;

use stellar_fee_tracker::devkit::analytics::trend::TrendDirection;
use stellar_fee_tracker::devkit::config::overrides::{flag_on, i64_or, u16_or, u32_or, u64_or};
use stellar_fee_tracker::devkit::config::table::settings_table_text;
use stellar_fee_tracker::devkit::config::validator::{ConfigSnapshot, ConfigValidator};
use stellar_fee_tracker::devkit::io::csv::{csv_header, csv_row, FeeRecord as CsvFeeRecord};
use stellar_fee_tracker::devkit::protocol::horizon::HorizonClient;
use stellar_fee_tracker::devkit::protocol::ledger::{validate_ledger_sequence, LedgerGap};
use stellar_fee_tracker::devkit::protocol::version::ProtocolVersion;
use stellar_fee_tracker::devkit::resilience::backoff::{add_jitter, capped_delay, jittered_delay, DelayStrategy};
use stellar_fee_tracker::devkit::resilience::retry::{retry_step, RetryStep};
use stellar_fee_tracker::devkit::resilience::bulkhead::BulkheadFull;
use stellar_fee_tracker::devkit::resilience::circuit_breaker::{
    BreakerLimits, CircuitBreakerConfig, CircuitBreakerState, CircuitState,
};
use stellar_fee_tracker::devkit::sandbox::assertions::{assert_fee_in_range, assert_no_anomalies};
use stellar_fee_tracker::devkit::sandbox::collector::{FeeRecord, ResultCollector};
use stellar_fee_tracker::devkit::sandbox::environment::{Regime, SandboxEnv};
use stellar_fee_tracker::devkit::sandbox::fixtures::{congested_network, volatile_network};
use stellar_fee_tracker::devkit::sandbox::runner::{run, ResultCollector as RunCollector};
use stellar_fee_tracker::devkit::sandbox::scenario::{Fixture, Scenario};
use stellar_fee_tracker::devkit::utilities::converters::ConversionError;
use stellar_fee_tracker::devkit::utilities::csv_reader::{read_csv, FeePoint};
use stellar_fee_tracker::devkit::utilities::formatters::{format_fee_short, format_stroops, format_xlm};
use stellar_fee_tracker::devkit::utilities::json_reader::JsonReadError;
use stellar_fee_tracker::devkit::utilities::percentile_table::PercentileTable;
use stellar_fee_tracker::devkit::utilities::time::{
    ledger_close_time_to_unix_ms, parse_window, ParseError,
};

// ---- trend ----

#[test]
fn trend_display() {
    assert_eq!(TrendDirection::Up.to_text(), "up");
    assert_eq!(TrendDirection::Down.to_text(), "down");
    assert_eq!(TrendDirection::Sideways.to_text(), "sideways");
}

// ---- config validation ----

fn default_config() -> ConfigSnapshot {
    ConfigSnapshot::default()
}

#[test]
fn valid_default_config_passes() {
    let config = default_config();
    let result = ConfigValidator::validate(&config);
    assert!(result.is_valid(), "Default config should be valid");
}

#[test]
fn zero_port_is_error() {
    let mut config = default_config();
    config.port = 0;
    let result = ConfigValidator::validate(&config);
    assert!(!result.is_valid());
    assert!(result.errors().iter().any(|i| i.field == "port"));
}

#[test]
fn privileged_port_is_warning() {
    let mut config = default_config();
    config.port = 80;
    let result = ConfigValidator::validate(&config);
    assert!(result.is_valid());
    assert!(result.warnings().iter().any(|i| i.field == "port"));
}

#[test]
fn empty_horizon_url_is_error() {
    let mut config = default_config();
    config.horizon_url = String::new();
    let result = ConfigValidator::validate(&config);
    assert!(!result.is_valid());
    assert!(result.errors().iter().any(|i| i.field == "horizon_url"));
}

#[test]
fn invalid_horizon_url_is_error() {
    let mut config = default_config();
    config.horizon_url = "ftp://invalid".to_string();
    let result = ConfigValidator::validate(&config);
    assert!(!result.is_valid());
    assert!(result.errors().iter().any(|i| i.field == "horizon_url"));
}

#[test]
fn zero_poll_interval_is_error() {
    let mut config = default_config();
    config.poll_interval_secs = 0;
    let result = ConfigValidator::validate(&config);
    assert!(!result.is_valid());
    assert!(result.errors().iter().any(|i| i.field == "poll_interval_secs"));
}

#[test]
fn aggressive_poll_interval_is_warning() {
    let mut config = default_config();
    config.poll_interval_secs = 2;
    let result = ConfigValidator::validate(&config);
    assert!(result.is_valid());
    assert!(result.warnings().iter().any(|i| i.field == "poll_interval_secs"));
}

#[test]
fn invalid_spike_prob_is_error() {
    let mut config = default_config();
    config.spike_prob_out_of_range = Some("1.5".to_string());
    let result = ConfigValidator::validate(&config);
    assert!(!result.is_valid());
    assert!(result.errors().iter().any(|i| i.field == "simulation_spike_prob"));
}

#[test]
fn negative_spike_prob_is_error() {
    let mut config = default_config();
    config.spike_prob_out_of_range = Some("-0.1".to_string());
    let result = ConfigValidator::validate(&config);
    assert!(!result.is_valid());
    assert!(result.errors().iter().any(|i| i.field == "simulation_spike_prob"));
}

#[test]
fn unknown_scenario_is_warning() {
    let mut config = default_config();
    config.scenario = "unknown_scenario".to_string();
    let result = ConfigValidator::validate(&config);
    assert!(result.is_valid());
    assert!(result.warnings().iter().any(|i| i.field == "scenario"));
}

#[test]
fn validation_result_display_shows_errors() {
    let mut config = default_config();
    config.port = 0;
    config.horizon_url = String::new();
    let result = ConfigValidator::validate(&config);
    let display = result.display();
    assert!(display.contains("ERROR"));
    assert!(display.contains("2 error(s)"));
}

#[test]
fn validation_result_has_issues() {
    let mut config = default_config();
    config.port = 0;
    let result = ConfigValidator::validate(&config);
    assert!(result.has_issues());
}

#[test]
fn zero_simulation_duration_is_error() {
    let mut config = default_config();
    config.simulation_duration = 0;
    let result = ConfigValidator::validate(&config);
    assert!(!result.is_valid());
}

#[test]
fn zero_simulation_base_fee_is_error() {
    let mut config = default_config();
    config.simulation_base_fee = 0;
    let result = ConfigValidator::validate(&config);
    assert!(!result.is_valid());
}

#[test]
fn missing_db_parent_is_warning() {
    let mut config = default_config();
    config.db_path = "/no/such/dir/fees.db".to_string();
    config.db_parent_missing = Some("/no/such/dir".to_string());
    let result = ConfigValidator::validate(&config);
    assert!(result.is_valid());
    assert!(result
        .warnings()
        .iter()
        .any(|i| i.field == "db_path" && i.message == "Parent directory does not exist: /no/such/dir"));
}

#[test]
fn empty_db_path_is_error() {
    let mut config = default_config();
    config.db_path = String::new();
    let result = ConfigValidator::validate(&config);
    assert!(!result.is_valid());
    assert!(result.errors().iter().any(|i| i.field == "db_path"));
}

#[test]
fn default_config_display_reports_no_issues() {
    let result = ConfigValidator::validate(&default_config());
    assert!(!result.has_issues());
    assert!(result.errors().is_empty());
    assert!(result.warnings().is_empty());
}

// ---- backoff ----

#[test]
fn exponential_delay_attempts() {
    let strategy = DelayStrategy::Exponential { base_ms: 100, max_ms: 5000 };
    assert_eq!(capped_delay(&strategy, 0), 100);
    assert_eq!(capped_delay(&strategy, 1), 200);
    assert_eq!(capped_delay(&strategy, 2), 400);
    assert_eq!(capped_delay(&strategy, 3), 800);
}

#[test]
fn exponential_cap() {
    let strategy = DelayStrategy::Exponential { base_ms: 1000, max_ms: 3000 };
    assert_eq!(capped_delay(&strategy, 0), 1000);
    assert_eq!(capped_delay(&strategy, 1), 2000);
    assert_eq!(capped_delay(&strategy, 2), 3000);
    assert_eq!(capped_delay(&strategy, 3), 3000);
}

#[test]
fn linear_delay() {
    let strategy = DelayStrategy::Linear { base_ms: 100, max_ms: 1000 };
    assert_eq!(capped_delay(&strategy, 0), 0);
    assert_eq!(capped_delay(&strategy, 1), 100);
    assert_eq!(capped_delay(&strategy, 2), 200);
    assert_eq!(capped_delay(&strategy, 3), 300);
}

#[test]
fn linear_cap() {
    let strategy = DelayStrategy::Linear { base_ms: 500, max_ms: 1200 };
    assert_eq!(capped_delay(&strategy, 0), 0);
    assert_eq!(capped_delay(&strategy, 1), 500);
    assert_eq!(capped_delay(&strategy, 2), 1000);
    assert_eq!(capped_delay(&strategy, 3), 1200);
}

#[test]
fn fixed_delay() {
    let strategy = DelayStrategy::Fixed { delay_ms: 250 };
    assert_eq!(capped_delay(&strategy, 0), 250);
    assert_eq!(capped_delay(&strategy, 5), 250);
}

#[test]
fn exponential_delay_saturates_for_large_attempts() {
    let strategy = DelayStrategy::Exponential { base_ms: 3, max_ms: u64::MAX };
    assert_eq!(capped_delay(&strategy, 64), u64::MAX);
    assert_eq!(capped_delay(&strategy, 63), u64::MAX);
    assert_eq!(capped_delay(&strategy, 10), 3072);
}

#[test]
fn jittered_delay_stays_in_range() {
    for _ in 0..200 {
        let d = jittered_delay(1000, 100);
        assert!((1000..=1100).contains(&d), "jittered delay out of range: {d}");
    }
    assert_eq!(jittered_delay(1000, 0), 1000);
    assert_eq!(jittered_delay(u64::MAX - 1, 0), u64::MAX - 1);
}

#[test]
fn jittered_delay_varies() {
    let draws: Vec<u64> = (0..200).map(|_| jittered_delay(0, 1_000_000)).collect();
    assert!(draws.iter().any(|&d| d != draws[0]), "jitter never varied");
}

// ---- circuit breaker ----

fn limits(config: &CircuitBreakerConfig) -> BreakerLimits {
    BreakerLimits {
        failure_threshold: config.failure_threshold,
        success_threshold: config.success_threshold,
        open_duration_nanos: config.open_duration.as_nanos(),
    }
}

const MS: u128 = 1_000_000;

#[test]
fn starts_closed() {
    let mut cb = CircuitBreakerState::new(limits(&CircuitBreakerConfig::default()));
    assert_eq!(cb.state(), CircuitState::Closed);
    assert!(cb.allow_request(0));
}

#[test]
fn opens_after_threshold_failures() {
    let config = CircuitBreakerConfig { failure_threshold: 3, ..Default::default() };
    let mut cb = CircuitBreakerState::new(limits(&config));
    for _ in 0..3 {
        cb.record_failure(0);
    }
    assert_eq!(cb.state(), CircuitState::Open);
    assert!(!cb.allow_request(MS));
}

#[test]
fn transitions_to_half_open_after_open_duration() {
    let config = CircuitBreakerConfig {
        failure_threshold: 1,
        open_duration: Duration::from_millis(50),
        ..Default::default()
    };
    let mut cb = CircuitBreakerState::new(limits(&config));
    cb.record_failure(0);
    assert_eq!(cb.state(), CircuitState::Open);
    assert!(cb.allow_request(60 * MS));
    assert_eq!(cb.state(), CircuitState::HalfOpen);
}

#[test]
fn closes_after_successes_in_half_open() {
    let config = CircuitBreakerConfig {
        failure_threshold: 1,
        success_threshold: 2,
        open_duration: Duration::from_millis(10),
    };
    let mut cb = CircuitBreakerState::new(limits(&config));
    cb.record_failure(0);
    cb.allow_request(20 * MS);
    cb.record_success();
    assert_eq!(cb.state(), CircuitState::HalfOpen);
    cb.record_success();
    assert_eq!(cb.state(), CircuitState::Closed);
}

#[test]
fn half_open_failure_reopens() {
    let config = CircuitBreakerConfig {
        failure_threshold: 1,
        open_duration: Duration::from_millis(10),
        ..Default::default()
    };
    let mut cb = CircuitBreakerState::new(limits(&config));
    cb.record_failure(0);
    cb.allow_request(20 * MS);
    assert_eq!(cb.state(), CircuitState::HalfOpen);
    cb.record_failure(21 * MS);
    assert_eq!(cb.state(), CircuitState::Open);
}

#[test]
fn success_resets_failure_count() {
    let config = CircuitBreakerConfig { failure_threshold: 3, ..Default::default() };
    let mut cb = CircuitBreakerState::new(limits(&config));
    cb.record_failure(0);
    cb.record_failure(0);
    cb.record_success();
    cb.record_failure(0);
    assert_eq!(cb.state(), CircuitState::Closed);
}

#[test]
fn open_circuit_refuses_before_duration_elapses() {
    let config = CircuitBreakerConfig {
        failure_threshold: 1,
        open_duration: Duration::from_millis(50),
        ..Default::default()
    };
    let mut cb = CircuitBreakerState::new(limits(&config));
    cb.record_failure(100 * MS);
    assert!(!cb.allow_request(149 * MS));
    assert_eq!(cb.state(), CircuitState::Open);
    assert!(cb.allow_request(150 * MS));
    assert_eq!(cb.state(), CircuitState::HalfOpen);
}

#[test]
fn reopened_circuit_waits_a_full_duration_again() {
    let config = CircuitBreakerConfig {
        failure_threshold: 1,
        open_duration: Duration::from_millis(10),
        ..Default::default()
    };
    let mut cb = CircuitBreakerState::new(limits(&config));
    cb.record_failure(0);
    assert!(cb.allow_request(10 * MS));
    cb.record_failure(15 * MS);
    assert!(!cb.allow_request(24 * MS));
    assert!(cb.allow_request(25 * MS));
}

// ---- sandbox ----

#[test]
fn fee_in_range_ok() {
    assert_fee_in_range(500, 100, 1000).unwrap();
}

#[test]
fn fee_in_range_err() {
    assert_fee_in_range(99, 100, 1000).unwrap_err();
}

#[test]
fn fee_in_range_bounds_are_inclusive() {
    assert_fee_in_range(100, 100, 1000).unwrap();
    assert_fee_in_range(1000, 100, 1000).unwrap();
    assert_fee_in_range(1001, 100, 1000).unwrap_err();
}

#[test]
fn no_anomalies_ok() {
    assert_no_anomalies(&[]).unwrap();
}

#[test]
fn has_anomalies_err() {
    assert_no_anomalies(&["something went wrong".into()]).unwrap_err();
}

fn make_record(fee_stroops: u64) -> FeeRecord {
    FeeRecord { timestamp_ms: 1_000, fee_stroops, sequence: 1 }
}

#[test]
fn record_increments_count() {
    let mut c = ResultCollector::new();
    c.record(make_record(100));
    c.record(make_record(200));
    assert_eq!(c.record_count(), 2);
}

#[test]
fn new_collector_is_empty() {
    let c = ResultCollector::new();
    assert_eq!(c.record_count(), 0);
    assert!(c.records().is_empty());
}

#[test]
fn collector_keeps_records_in_order() {
    let mut c = ResultCollector::new();
    c.record(make_record(300));
    c.record(make_record(100));
    let fees: Vec<u64> = c.records().iter().map(|r| r.fee_stroops).collect();
    assert_eq!(fees, vec![300, 100]);
}

#[test]
fn seed_produces_10k_records() {
    let env = SandboxEnv::new();
    assert_eq!(env.len(), 10_000);
}

#[test]
fn each_regime_has_2500_records() {
    let env = SandboxEnv::new();
    for regime in [Regime::Normal, Regime::Rising, Regime::Congested, Regime::Spike] {
        assert_eq!(env.records_for_regime(regime).len(), 2_500);
    }
}

#[test]
fn reset_restores_10k_records() {
    let mut env = SandboxEnv::new();
    env.records_mut().clear();
    env.reset();
    assert_eq!(env.len(), 10_000);
}

#[test]
fn seeded_timestamps_ascend() {
    let env = SandboxEnv::new();
    for w in env.records().windows(2) {
        assert!(w[0].timestamp_ms < w[1].timestamp_ms);
    }
}

#[test]
fn from_normal_samples_keeps_every_sample() {
    let samples: Vec<(u64, u64)> = (0..10_000u64).map(|i| (i * 8_640, 100 + i % 400)).collect();
    let env = SandboxEnv::from_normal_samples(samples);
    assert_eq!(env.len(), 10_000);
    assert_eq!(env.records_for_regime(Regime::Normal).len(), 10_000);
    assert!(env.records_for_regime(Regime::Spike).is_empty());
}

#[test]
fn congested_network_count() {
    assert_eq!(congested_network().len(), 10_000);
}

#[test]
fn congested_network_fees_in_range() {
    for (_, fee) in congested_network() {
        assert!((10_000..=80_000).contains(&fee), "fee out of range: {fee}");
    }
}

#[test]
fn volatile_network_count() {
    assert_eq!(volatile_network().len(), 10_000);
}

#[test]
fn congested_network_first_and_last_values() {
    let records = congested_network();
    assert_eq!(records[0], (1_753_315_200_000, 10_000));
    assert_eq!(records[9_999], (1_753_315_200_000 + 9_999 * 8_640, 10_000 + 9_999 * 7));
}

#[test]
fn run_receives_seeded_env() {
    let count = run(|env| env.len());
    assert_eq!(count, 10_000);
}

// ---- utilities ----

#[test]
fn parse_valid_csv() {
    let data: &[u8] = b"timestamp,fee_amount,ledger_sequence,is_spike\n1000,100,1,false\n1005,500,2,true\n1010,100,3,false\n";
    let points = read_csv(data).unwrap();
    assert_eq!(points.len(), 3);
    assert_eq!(points[0].timestamp, 1000);
    assert_eq!(points[0].fee, 100);
    assert_eq!(points[0].ledger, 1);
    assert!(!points[0].is_spike);
    assert!(points[1].is_spike);
}

#[test]
fn skip_malformed_rows() {
    let data: &[u8] = b"timestamp,fee_amount,ledger_sequence,is_spike\nbad,100,1,false\n1000,abc,2,true\n1005,100,3,notbool\n1010,200,4,false\n";
    let points = read_csv(data).unwrap();
    assert_eq!(points.len(), 1);
    assert_eq!(points[0].timestamp, 1010);
}

#[test]
fn empty_csv() {
    let data: &[u8] = b"timestamp,fee_amount,ledger_sequence,is_spike\n";
    let points = read_csv(data).unwrap();
    assert!(points.is_empty());
}

#[test]
fn malformed_header_only() {
    let data: &[u8] = b"not,a,valid,header\n";
    let points = read_csv(data).unwrap();
    assert!(points.is_empty());
}

#[test]
fn csv_fields_are_trimmed_and_flags_case_insensitive() {
    let data: &[u8] = b"timestamp,fee_amount,ledger_sequence,is_spike\n 7 , 8 ,9, TRUE \n10,11,12,0\n13,14,15,1\n";
    let points = read_csv(data).unwrap();
    assert_eq!(
        points,
        vec![
            FeePoint { timestamp: 7, fee: 8, ledger: 9, is_spike: true },
            FeePoint { timestamp: 10, fee: 11, ledger: 12, is_spike: false },
            FeePoint { timestamp: 13, fee: 14, ledger: 15, is_spike: true },
        ]
    );
}

#[test]
fn csv_row_with_missing_field_is_skipped() {
    let data: &[u8] = b"timestamp,fee_amount,ledger_sequence,is_spike\n1,2,3\n4,5,6,false\n";
    let points = read_csv(data).unwrap();
    assert_eq!(points, vec![FeePoint { timestamp: 4, fee: 5, ledger: 6, is_spike: false }]);
}

#[test]
fn csv_header_and_row_format() {
    assert_eq!(csv_header(), "timestamp_ms,fee_stroops,sequence\n");
    let r = CsvFeeRecord { timestamp_ms: 1_700_000_000_000, fee_stroops: 250, sequence: 42 };
    assert_eq!(csv_row(&r), "1700000000000,250,42\n");
}

#[test]
fn test_format_stroops() {
    assert_eq!(format_stroops(0), "0 str");
    assert_eq!(format_stroops(100), "100 str");
    assert_eq!(format_stroops(3849), "3,849 str");
    assert_eq!(format_stroops(1000000), "1,000,000 str");
}

#[test]
fn test_format_xlm() {
    assert_eq!(format_xlm(0), "0.0000000 XLM");
    assert_eq!(format_xlm(10_000_000), "1.0000000 XLM");
    assert_eq!(format_xlm(3849), "0.0003849 XLM");
}

#[test]
fn test_format_fee_short() {
    assert_eq!(format_fee_short(3849), "3,849 str");
    assert_eq!(format_fee_short(10_000_000), "1.0000000 XLM");
}

#[test]
fn format_edges() {
    assert_eq!(format_stroops(999), "999 str");
    assert_eq!(format_stroops(1000), "1,000 str");
    assert_eq!(format_fee_short(999_999), "999,999 str");
    assert_eq!(format_fee_short(1_000_000), "0.1000000 XLM");
    assert_eq!(format_xlm(123_456_789), "12.3456789 XLM");
}

#[test]
fn build_basic() {
    let fees: Vec<u64> = (1..=100).collect();
    let table = PercentileTable::build(&fees).unwrap();
    assert_eq!(table.p10, 10);
    assert_eq!(table.p50, 50);
    assert_eq!(table.p90, 90);
    assert_eq!(table.p95, 95);
    assert_eq!(table.p99, 99);
}

#[test]
fn build_single_element() {
    let table = PercentileTable::build(&[42]).unwrap();
    assert_eq!(table.p10, 42);
    assert_eq!(table.p50, 42);
    assert_eq!(table.p99, 42);
}

#[test]
fn build_empty_returns_none() {
    assert!(PercentileTable::build(&[]).is_none());
}

#[test]
fn build_unsorted_input() {
    let fees = vec![50, 10, 90, 30, 70, 20, 80, 40, 60];
    let table = PercentileTable::build(&fees).unwrap();
    assert_eq!(table.p10, 10);
    assert_eq!(table.p50, 50);
    assert_eq!(table.p90, 90);
    assert_eq!(table.p99, 90);
}

#[test]
fn build_two_elements() {
    let table = PercentileTable::build(&[10, 20]).unwrap();
    assert_eq!(table.p10, 10);
    assert_eq!(table.p50, 10);
    assert_eq!(table.p99, 20);
}

#[test]
fn parse_hours() {
    assert_eq!(parse_window("1h").unwrap(), Duration::from_secs(3600));
    assert_eq!(parse_window("6h").unwrap(), Duration::from_secs(21600));
    assert_eq!(parse_window("24h").unwrap(), Duration::from_secs(86400));
}

#[test]
fn parse_days() {
    assert_eq!(parse_window("7d").unwrap(), Duration::from_secs(604800));
    assert_eq!(parse_window("30d").unwrap(), Duration::from_secs(2592000));
}

#[test]
fn parse_with_whitespace() {
    assert_eq!(parse_window("  1h  ").unwrap(), Duration::from_secs(3600));
}

#[test]
fn parse_empty_string() {
    assert!(parse_window("").is_err());
}

#[test]
fn parse_invalid_unit() {
    assert!(parse_window("5m").is_err());
}

#[test]
fn parse_invalid_number() {
    assert!(parse_window("ah").is_err());
}

#[test]
fn parse_no_number() {
    assert!(parse_window("h").is_err());
}

#[test]
fn parse_window_error_messages() {
    assert_eq!(parse_window("").unwrap_err(), ParseError("empty string".to_string()));
    assert_eq!(
        parse_window("5m").unwrap_err(),
        ParseError("unknown unit 'm', expected 'h' or 'd'".to_string())
    );
    assert_eq!(
        parse_window(" ah ").unwrap_err(),
        ParseError("'ah' is not a valid time window".to_string())
    );
    assert_eq!(
        ParseError("empty string".to_string()).to_text(),
        "invalid time window: empty string"
    );
}

#[test]
fn ledger_close_time_converts_to_millis() {
    assert_eq!(ledger_close_time_to_unix_ms(1_700_000_000), 1_700_000_000_000);
    assert_eq!(ledger_close_time_to_unix_ms(0), 0);
}

#[test]
fn error_messages() {
    assert_eq!(BulkheadFull.to_text(), "bulkhead at capacity");
    assert_eq!(ConversionError::NegativeXlm.to_text(), "XLM value must be non-negative");
    assert_eq!(JsonReadError::Io("denied".to_string()).to_text(), "IO error: denied");
    assert_eq!(
        JsonReadError::Parse { message: "eof".to_string(), line: 3, column: 14 }.to_text(),
        "JSON parse error at line 3, column 14: eof"
    );
    assert_eq!(
        JsonReadError::Serialize("bad".to_string()).to_text(),
        "JSON serialize error: bad"
    );
}

// ---- protocol ----

#[test]
fn ledger_gaps_are_found_after_sorting() {
    let gaps = validate_ledger_sequence(&[105, 100, 101, 103, 103]);
    assert_eq!(gaps, vec![LedgerGap { from: 101, to: 103 }, LedgerGap { from: 103, to: 105 }]);
}

#[test]
fn contiguous_ledgers_have_no_gaps() {
    assert!(validate_ledger_sequence(&[7, 8, 9, 10]).is_empty());
    assert!(validate_ledger_sequence(&[7]).is_empty());
    assert!(validate_ledger_sequence(&[]).is_empty());
}

#[test]
fn protocol_version_from_headers() {
    let headers = vec![
        ("Content-Type".to_string(), "application/json".to_string()),
        ("X-Soroban-Version".to_string(), "22".to_string()),
        ("x-soroban-version".to_string(), "23".to_string()),
    ];
    let v = ProtocolVersion::from_headers(&headers).unwrap();
    assert_eq!(v.version, "22");
    assert!(v.is_compatible());

    let none = ProtocolVersion::from_headers(&[]).unwrap();
    assert_eq!(none.version, "unknown");
    assert!(!none.is_compatible());

    let empty = ProtocolVersion { version: String::new() };
    assert!(!empty.is_compatible());
}

// ---- scenarios and client settings ----

#[test]
fn scenario_builder_defaults_and_overrides() {
    let default = Scenario::builder().build();
    assert_eq!(default.fixture, Fixture::Normal);
    assert_eq!(default.duration, chrono::Duration::hours(1));
    assert_eq!(default.spike_at, None);

    let s = Scenario::builder()
        .fixture(Fixture::Congested)
        .duration(chrono::Duration::minutes(30))
        .inject_spike_at(600, 90_000)
        .build();
    assert_eq!(s.fixture, Fixture::Congested);
    assert_eq!(s.duration, chrono::Duration::minutes(30));
    assert_eq!(s.spike_at, Some((600, 90_000)));
}

#[test]
fn devkit_client_settings() {
    let c = HorizonClient::new("https://horizon.stellar.org".to_string());
    assert_eq!(c.timeout_ms, 10_000);
    let c = c.with_timeout_ms(2_500);
    assert_eq!(c.base_url, "https://horizon.stellar.org");
    assert_eq!(c.timeout_ms, 2_500);
}

#[test]
fn percentile_table_is_ordered() {
    let fees: Vec<u64> = (0..997u64).map(|i| (i * 7919) % 1000).collect();
    let t = PercentileTable::build(&fees).unwrap();
    let row = [t.p10, t.p20, t.p30, t.p40, t.p50, t.p60, t.p70, t.p80, t.p90, t.p95, t.p99];
    for w in row.windows(2) {
        assert!(w[0] <= w[1]);
    }
    assert!(row.iter().all(|v| fees.contains(v)));
}

#[test]
fn default_breaker_config_and_run_metadata() {
    use_default_breaker();
    let mut c = RunCollector::new();
    assert_eq!(c.duration(), Duration::from_secs(0));
    assert_eq!(c.records_processed(), 0);
    c.record_duration(Duration::from_millis(1500));
    c.set_records_processed(42);
    assert_eq!(c.duration(), Duration::from_millis(1500));
    assert_eq!(c.records_processed(), 42);
    assert_eq!(ResultCollector::new().duration(), Duration::from_secs(0));
}

fn use_default_breaker() {
    let config = CircuitBreakerConfig::default();
    assert_eq!(config.failure_threshold, 5);
    assert_eq!(config.success_threshold, 2);
    assert_eq!(config.open_duration, Duration::from_secs(30));
}

#[test]
fn override_values_parse_like_std() {
    for text in ["8080", "+8080", "0", "65535", "65536", "-1", " 1", "", "+", "12a"] {
        assert_eq!(u16_or(text, 7), text.parse::<u16>().unwrap_or(7), "u16 {text:?}");
        assert_eq!(u32_or(text, 7), text.parse::<u32>().unwrap_or(7), "u32 {text:?}");
        assert_eq!(u64_or(text, 7), text.parse::<u64>().unwrap_or(7), "u64 {text:?}");
        assert_eq!(i64_or(text, 7), text.parse::<i64>().unwrap_or(7), "i64 {text:?}");
    }
    for text in [
        "-5", "-0", "-+5", "+-5", "-", "-9223372036854775808", "-9223372036854775809",
        "9223372036854775807", "9223372036854775808", "4294967296", "18446744073709551616",
    ] {
        assert_eq!(u32_or(text, 7), text.parse::<u32>().unwrap_or(7), "u32 {text:?}");
        assert_eq!(u64_or(text, 7), text.parse::<u64>().unwrap_or(7), "u64 {text:?}");
        assert_eq!(i64_or(text, 7), text.parse::<i64>().unwrap_or(7), "i64 {text:?}");
    }
    assert!(flag_on("true"));
    assert!(flag_on("1"));
    assert!(!flag_on("TRUE"));
    assert!(!flag_on("yes"));
}

#[test]
fn settings_table_layout() {
    let rows = vec![
        ("port".to_string(), "8090".to_string(), false),
        ("poll_interval_secs".to_string(), "10".to_string(), true),
    ];
    let text = settings_table_text(&rows, &vec![]);
    let expected = format!(
        "devkit configuration\n====================\n{:<12} {:<30} {}\n{:<12} {:<30} {}\n{:<12} {:<30} {}\n",
        "key", "value", "source", "port", "8090", "default", "poll_interval_secs", "10", "env"
    );
    assert_eq!(text, expected);
    let with_overrides = settings_table_text(&vec![], &vec![("a".to_string(), "b".to_string())]);
    assert!(with_overrides.ends_with("overrides:\n  a = b\n"));
    let wide = settings_table_text(&vec![("k".to_string(), "é".repeat(31), false)], &vec![]);
    assert!(wide.contains(&format!("{:<12} {:<30} default\n", "k", "é".repeat(31))));
    let short = settings_table_text(&vec![("k".to_string(), "é".to_string(), false)], &vec![]);
    assert!(short.contains(&format!("{:<12} {:<30} default\n", "k", "é")));
}

#[test]
fn format_xlm_matches_float_formatting() {
    let mut cases: Vec<u64> = vec![
        0, 1, 9, 3849, 9_999_999, 10_000_000, 123_456_789, 4_500_000_000_000_001,
        9_007_199_254_740_993, u64::MAX, u64::MAX - 1, 1 << 63, (1 << 53) + 1,
        10314954311446601677, 14640430596103866379, 7554038772848710430, 12464985556358087234,
        15696320898569024352, 5568844587886914194, 15898455636781132993, 13373425149685664205,
        17352276236129256658, 10570851683863398169, 16275142995193007515, 17668018676015666114,
    ];
    let mut x: u64 = 0x9E37_79B9_7F4A_7C15;
    for _ in 0..20_000 {
        x = x.wrapping_mul(6364136223846793005).wrapping_add(1442695040888963407);
        cases.push(x);
        cases.push(x >> (x % 64));
    }
    for n in cases {
        let expected = format!("{:.7} XLM", n as f64 / 10_000_000.0);
        assert_eq!(format_xlm(n), expected, "n = {n}");
    }
}

#[test]
fn open_breaker_stays_open_under_more_calls() {
    let config = CircuitBreakerConfig { failure_threshold: 2, ..Default::default() };
    let mut cb = CircuitBreakerState::new(limits(&config));
    cb.record_failure(0);
    cb.record_success();
    cb.record_failure(0);
    assert_eq!(cb.state(), CircuitState::Closed);
    cb.record_failure(0);
    assert_eq!(cb.state(), CircuitState::Open);
    cb.record_success();
    cb.record_failure(1);
    cb.record_success();
    assert_eq!(cb.state(), CircuitState::Open);
}

#[test]
fn add_jitter_adds_and_saturates() {
    assert_eq!(add_jitter(1000, 37), 1037);
    assert_eq!(add_jitter(u64::MAX - 5, 10), u64::MAX);
    assert_eq!(add_jitter(0, 0), 0);
}

#[test]
fn retry_steps() {
    assert_eq!(retry_step(0, 3, true), RetryStep::Return);
    assert_eq!(retry_step(0, 3, false), RetryStep::WaitThenRetry);
    assert_eq!(retry_step(1, 3, false), RetryStep::WaitThenRetry);
    assert_eq!(retry_step(2, 3, false), RetryStep::Exhausted);
    assert_eq!(retry_step(2, 3, true), RetryStep::Return);
}
