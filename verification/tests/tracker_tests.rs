use stellar_fee_tracker::order::sort_u64;
use stellar_fee_tracker::tracker::alerts::{
    enabled_routes, event_key, meets_threshold, parse_threshold, plan_dispatches, rehydrated_key,
    severity_rank, severity_to_str, spike_id_of, AlertConfig, AlertRoute, Delivery, Dispatch,
    SeenSpikes, SpikeInfo, SpikeSeverity,
};
use stellar_fee_tracker::tracker::congestion::{
    advisory_basis, wait_verdict, window_secs_between, AdvisoryBasis, CongestionLevel,
    WaitRecommendation,
};
use stellar_fee_tracker::tracker::horizon::{point_from_fields, transaction_point};
use stellar_fee_tracker::tracker::percentile::percentile_nearest;
use stellar_fee_tracker::tracker::scheduler::{
    fetch_outcome_of, fetch_step, provider_outcome, retry_delay, retry_delay_for, FetchOutcome,
    FetchStep, ProviderError, MAX_RETRY_DELAY_MS,
};
use stellar_fee_tracker::tracker::store::{
    parse_u64_field, AppError, FeeDataPoint, FeeHistoryStore, Timestamp,
};
use stellar_fee_tracker::tracker::webhook::{send_step, SendOutcome, SendStep, WebhookError};

// ---- percentiles ----

#[test]
fn percentile_nearest_basic() {
    let data = [10, 20, 30, 40, 50];
    assert_eq!(percentile_nearest(&data, 50), 30);
    assert_eq!(percentile_nearest(&data, 100), 50);
    assert_eq!(percentile_nearest(&data, 1), 10);
}

#[test]
fn percentile_nearest_empty() {
    assert_eq!(percentile_nearest(&[], 50), 0);
}

#[test]
fn percentile_nearest_edges() {
    let data = [10, 20, 30, 40, 50];
    assert_eq!(percentile_nearest(&data, 0), 10);
    assert_eq!(percentile_nearest(&data, 200), 50);
    assert_eq!(percentile_nearest(&data, 21), 20);
}

#[test]
fn sort_orders_values() {
    assert_eq!(sort_u64(&[5, 1, 4, 1, 3]), vec![1, 1, 3, 4, 5]);
    assert!(sort_u64(&[]).is_empty());
}

// ---- fee history store ----

const NOW: i64 = 1_736_851_620;

fn make_point(fee_amount: u64, minutes_ago: i64) -> FeeDataPoint {
    FeeDataPoint {
        fee_amount,
        timestamp: Timestamp { secs: NOW - minutes_ago * 60, nanos: 0 },
        transaction_hash: format!("hash_{}", fee_amount),
        ledger_sequence: fee_amount,
    }
}

fn minutes_before_now(m: i64) -> Timestamp {
    Timestamp { secs: NOW - m * 60, nanos: 0 }
}

#[test]
fn push_adds_point_to_store() {
    let mut store = FeeHistoryStore::new(10);
    store.push(make_point(100, 1));
    assert_eq!(store.len(), 1);
}

#[test]
fn push_evicts_oldest_when_at_capacity() {
    let mut store = FeeHistoryStore::new(3);
    store.push(make_point(100, 3));
    store.push(make_point(200, 2));
    store.push(make_point(300, 1));
    store.push(make_point(400, 0));

    assert_eq!(store.len(), 3);
    let all = store.get_last_n(10);
    assert_eq!(all[0].fee_amount, 200);
    assert_eq!(all[2].fee_amount, 400);
}

#[test]
fn push_exactly_at_capacity_does_not_evict() {
    let mut store = FeeHistoryStore::new(3);
    store.push(make_point(1, 2));
    store.push(make_point(2, 1));
    store.push(make_point(3, 0));
    assert_eq!(store.len(), 3);
}

#[test]
fn new_store_is_empty() {
    let store = FeeHistoryStore::new(10);
    assert!(store.is_empty());
    assert_eq!(store.len(), 0);
}

#[test]
fn clear_empties_the_store() {
    let mut store = FeeHistoryStore::new(10);
    store.push(make_point(100, 1));
    store.push(make_point(200, 0));
    store.clear();
    assert!(store.is_empty());
    assert_eq!(store.len(), 0);
}

#[test]
fn get_since_returns_points_on_or_after_cutoff() {
    let mut store = FeeHistoryStore::new(10);
    store.push(make_point(100, 60));
    store.push(make_point(200, 30));
    store.push(make_point(300, 5));

    let result = store.get_since(minutes_before_now(31));

    assert_eq!(result.len(), 2);
    assert_eq!(result[0].fee_amount, 200);
    assert_eq!(result[1].fee_amount, 300);
}

#[test]
fn get_since_returns_empty_when_all_points_are_before_cutoff() {
    let mut store = FeeHistoryStore::new(10);
    store.push(make_point(100, 120));
    assert!(store.get_since(minutes_before_now(60)).is_empty());
}

#[test]
fn get_since_returns_all_when_all_points_are_after_cutoff() {
    let mut store = FeeHistoryStore::new(10);
    store.push(make_point(100, 5));
    store.push(make_point(200, 2));
    assert_eq!(store.get_since(minutes_before_now(60)).len(), 2);
}

#[test]
fn get_since_includes_point_exactly_at_cutoff() {
    let mut store = FeeHistoryStore::new(10);
    store.push(make_point(100, 10));
    let cutoff = minutes_before_now(10);
    assert_eq!(store.get_since(cutoff).len(), 1);
    let later = Timestamp { secs: cutoff.secs, nanos: 1 };
    assert!(store.get_since(later).is_empty());
}

#[test]
fn get_last_n_returns_n_most_recent() {
    let mut store = FeeHistoryStore::new(10);
    for i in 1..=5 {
        store.push(make_point(i * 100, (6 - i) as i64));
    }

    let result = store.get_last_n(3);
    assert_eq!(result.len(), 3);
    assert_eq!(result[0].fee_amount, 300);
    assert_eq!(result[1].fee_amount, 400);
    assert_eq!(result[2].fee_amount, 500);
}

#[test]
fn get_last_n_returns_all_when_n_exceeds_store_size() {
    let mut store = FeeHistoryStore::new(10);
    store.push(make_point(100, 2));
    store.push(make_point(200, 1));
    assert_eq!(store.get_last_n(100).len(), 2);
}

#[test]
fn get_last_n_zero_returns_empty() {
    let mut store = FeeHistoryStore::new(10);
    store.push(make_point(100, 1));
    assert!(store.get_last_n(0).is_empty());
}

#[test]
fn get_last_n_on_empty_store_returns_empty() {
    let store = FeeHistoryStore::new(10);
    assert!(store.get_last_n(5).is_empty());
}

#[test]
fn many_pushes_keep_the_most_recent_capacity_points() {
    let mut store = FeeHistoryStore::new(4);
    for fee in 1..=10u64 {
        store.push(make_point(fee, 0));
    }
    let fees: Vec<u64> = store.get_last_n(100).iter().map(|p| p.fee_amount).collect();
    assert_eq!(fees, vec![7, 8, 9, 10]);
}

#[test]
fn zero_capacity_store_keeps_the_latest_point() {
    let mut store = FeeHistoryStore::new(0);
    store.push(make_point(1, 0));
    store.push(make_point(2, 0));
    assert_eq!(store.len(), 1);
    assert_eq!(store.get_last_n(5)[0].fee_amount, 2);
}

#[test]
fn parse_u64_field_reads_trimmed_numbers() {
    assert_eq!(parse_u64_field(" 50000001 ", "last_ledger").unwrap(), 50_000_001);
    match parse_u64_field("not-a-number", "last_ledger") {
        Err(AppError::Parse(m)) => {
            assert_eq!(m, "Invalid last_ledger in fee_stats response: 'not-a-number'")
        }
        other => panic!("unexpected result: {:?}", other),
    }
    assert!(parse_u64_field("18446744073709551616", "max").is_err());
}

// ---- alerts ----

const SPIKE_START: i64 = 1_736_851_500;

fn spike(severity: SpikeSeverity) -> SpikeInfo {
    SpikeInfo { severity, start_secs: SPIKE_START, peak_fee: 5000 }
}

#[test]
fn severity_order_and_names() {
    assert_eq!(severity_rank(&SpikeSeverity::Minor), 0);
    assert_eq!(severity_rank(&SpikeSeverity::Critical), 3);
    assert!(meets_threshold(&SpikeSeverity::Critical, &SpikeSeverity::Major));
    assert!(meets_threshold(&SpikeSeverity::Major, &SpikeSeverity::Major));
    assert!(!meets_threshold(&SpikeSeverity::Moderate, &SpikeSeverity::Major));
    assert_eq!(severity_to_str(&SpikeSeverity::Moderate), "Moderate");
    assert_eq!(parse_threshold("Major"), Some(SpikeSeverity::Major));
    assert_eq!(parse_threshold("major"), None);
}

#[test]
fn spike_identifiers() {
    assert_eq!(spike_id_of(&spike(SpikeSeverity::Major)), "Major:1736851500:5000");
    assert_eq!(event_key("Minor", -5, -7), "Minor:-5:-7");
    assert_eq!(
        rehydrated_key("Critical", "2025-01-14T10:45:00Z", 5000),
        "Critical:1736851500:5000"
    );
    assert_eq!(
        rehydrated_key("Critical", "2025-01-14T12:45:00+02:00", 5000),
        "Critical:1736851500:5000"
    );
    assert_eq!(rehydrated_key("Minor", "yesterday", 12), "Minor:0:12");
}

fn legacy_plan(seen: &mut SeenSpikes, spikes: &Vec<SpikeInfo>, threshold: SpikeSeverity) -> Vec<Dispatch> {
    plan_dispatches(seen, spikes, &Vec::new(), threshold, true)
}

#[test]
fn spike_above_threshold_dispatches_webhook() {
    let mut seen = SeenSpikes::new();
    let spikes = vec![spike(SpikeSeverity::Critical)];
    let out = legacy_plan(&mut seen, &spikes, SpikeSeverity::Major);
    assert_eq!(out.len(), 1);
    assert_eq!(out[0].spike_index, 0);
    assert!(matches!(out[0].delivery, Delivery::Legacy));
}

#[test]
fn spike_below_threshold_is_not_dispatched() {
    let mut seen = SeenSpikes::new();
    let spikes = vec![spike(SpikeSeverity::Major)];
    let out = legacy_plan(&mut seen, &spikes, SpikeSeverity::Critical);
    assert!(out.is_empty());
    assert!(!seen.contains(&"Major:1736851500:5000".to_string()));
}

#[test]
fn same_spike_is_dispatched_once() {
    let mut seen = SeenSpikes::new();
    let spikes = vec![spike(SpikeSeverity::Critical)];
    assert_eq!(legacy_plan(&mut seen, &spikes, SpikeSeverity::Major).len(), 1);
    assert!(legacy_plan(&mut seen, &spikes, SpikeSeverity::Major).is_empty());
}

#[test]
fn spike_leaving_the_window_is_forgotten() {
    let mut seen = SeenSpikes::new();
    let spikes = vec![spike(SpikeSeverity::Critical)];
    assert_eq!(legacy_plan(&mut seen, &spikes, SpikeSeverity::Major).len(), 1);
    assert!(legacy_plan(&mut seen, &Vec::new(), SpikeSeverity::Major).is_empty());
    assert!(!seen.contains(&"Critical:1736851500:5000".to_string()));
    assert_eq!(legacy_plan(&mut seen, &spikes, SpikeSeverity::Major).len(), 1);
}

#[test]
fn legacy_without_webhook_records_but_sends_nothing() {
    let mut seen = SeenSpikes::new();
    let spikes = vec![spike(SpikeSeverity::Critical)];
    let out = plan_dispatches(&mut seen, &spikes, &Vec::new(), SpikeSeverity::Minor, false);
    assert!(out.is_empty());
    assert!(seen.contains(&"Critical:1736851500:5000".to_string()));
}

#[test]
fn routes_dispatch_per_webhook_and_threshold() {
    let mut seen = SeenSpikes::new();
    let routes = vec![
        AlertRoute { webhook_url: "https://a.example/hook".to_string(), threshold: SpikeSeverity::Minor },
        AlertRoute { webhook_url: "https://b.example/hook".to_string(), threshold: SpikeSeverity::Critical },
    ];
    let spikes = vec![spike(SpikeSeverity::Major), spike(SpikeSeverity::Critical)];
    let out = plan_dispatches(&mut seen, &spikes, &routes, SpikeSeverity::Critical, true);
    let got: Vec<(usize, String)> = out
        .iter()
        .map(|d| match &d.delivery {
            Delivery::Webhook(u) => (d.spike_index, u.clone()),
            Delivery::Legacy => (d.spike_index, "legacy".to_string()),
        })
        .collect();
    assert_eq!(
        got,
        vec![
            (0, "https://a.example/hook".to_string()),
            (1, "https://a.example/hook".to_string()),
            (1, "https://b.example/hook".to_string()),
        ]
    );
    assert!(seen.contains(&"Critical:1736851500:5000:https://b.example/hook".to_string()));
    // Route keys are not spike identifiers, so the next cycle forgets them
    // and the same spikes are offered to the routes again.
    assert_eq!(plan_dispatches(&mut seen, &spikes, &routes, SpikeSeverity::Critical, true).len(), 3);
}

#[test]
fn seen_spikes_set_operations() {
    let mut seen = SeenSpikes::new();
    assert!(seen.insert("a".to_string()));
    assert!(!seen.insert("a".to_string()));
    assert!(seen.insert("b".to_string()));
    seen.retain_active(&vec!["b".to_string(), "c".to_string()]);
    assert!(!seen.contains(&"a".to_string()));
    assert!(seen.contains(&"b".to_string()));
    let from = SeenSpikes::from_list(&vec!["x".to_string(), "x".to_string()]);
    assert!(from.contains(&"x".to_string()));
}

// ---- congestion ----

fn point_at(fee: u64, secs: i64, nanos: u32) -> FeeDataPoint {
    FeeDataPoint {
        fee_amount: fee,
        timestamp: Timestamp { secs, nanos },
        transaction_hash: format!("tx_{}", fee),
        ledger_sequence: 1,
    }
}

#[test]
fn congestion_level_names() {
    assert_eq!(CongestionLevel::Low.as_str(), "low");
    assert_eq!(CongestionLevel::Moderate.as_str(), "moderate");
    assert_eq!(CongestionLevel::High.as_str(), "high");
    assert_eq!(CongestionLevel::Critical.as_str(), "critical");
}

#[test]
fn verdicts_follow_level() {
    assert_eq!(wait_verdict(CongestionLevel::Low, true), WaitRecommendation::SubmitNow);
    assert_eq!(wait_verdict(CongestionLevel::Moderate, false), WaitRecommendation::SubmitNow);
    assert_eq!(wait_verdict(CongestionLevel::Moderate, true), WaitRecommendation::ConsiderWaiting);
    assert_eq!(wait_verdict(CongestionLevel::High, false), WaitRecommendation::ConsiderWaiting);
    assert_eq!(wait_verdict(CongestionLevel::Critical, false), WaitRecommendation::Wait);
}

#[test]
fn insufficient_history_has_no_basis() {
    assert_eq!(advisory_basis(&Vec::new(), &Vec::new(), 86_400), None);
    let recent = vec![point_at(100, NOW, 0)];
    assert_eq!(advisory_basis(&recent, &Vec::new(), 86_400), None);
}

#[test]
fn basis_with_full_history_uses_requested_window() {
    let historical: Vec<FeeDataPoint> =
        (0..60).map(|i| point_at(50 + (i % 5) as u64 * 25, NOW - 7200 + i * 60, 0)).collect();
    let recent = vec![point_at(150, NOW, 0)];
    let basis = advisory_basis(&recent, &historical, 86_400).unwrap();
    assert_eq!(
        basis,
        AdvisoryBasis {
            current_fee: 150,
            count_below: 48,
            sample_count: 60,
            historical_median: 100,
            actual_window_secs: 86_400,
        }
    );
}

#[test]
fn basis_window_degrades_with_insufficient_history() {
    let historical = vec![
        point_at(100, NOW - 600, 0),
        point_at(110, NOW - 300, 0),
        point_at(105, NOW, 0),
    ];
    let recent = vec![point_at(105, NOW, 0)];
    let basis = advisory_basis(&recent, &historical, 86_400).unwrap();
    assert_eq!(basis.actual_window_secs, 600);
    assert_eq!(basis.current_fee, 105);
    assert_eq!(basis.count_below, 1);
    assert_eq!(basis.historical_median, 105);
}

#[test]
fn basis_falls_back_to_latest_historical_fee() {
    let historical = vec![point_at(300, NOW - 10, 0), point_at(200, NOW, 0)];
    let basis = advisory_basis(&Vec::new(), &historical, 3600).unwrap();
    assert_eq!(basis.current_fee, 200);
    assert_eq!(basis.count_below, 0);
    assert_eq!(basis.actual_window_secs, 10);
}

#[test]
fn window_span_rounds_toward_zero_and_never_goes_negative() {
    let t = |secs: i64, nanos: u32| Timestamp { secs, nanos };
    assert_eq!(window_secs_between(&t(100, 500), &t(110, 400)), 9);
    assert_eq!(window_secs_between(&t(100, 400), &t(110, 500)), 10);
    assert_eq!(window_secs_between(&t(110, 0), &t(100, 0)), 0);
    assert_eq!(window_secs_between(&t(i64::MIN, 0), &t(i64::MAX, 0)), u64::MAX);
}

// ---- polling retries ----

#[test]
fn retry_delay_formula() {
    assert_eq!(retry_delay_for(100, 0, 7), 107);
    assert_eq!(retry_delay_for(100, 3, 250), 850);
    assert_eq!(retry_delay_for(0, 5, 99), 0);
    assert_eq!(retry_delay_for(1000, 5, 0), MAX_RETRY_DELAY_MS);
    assert_eq!(retry_delay_for(u64::MAX, 63, u64::MAX), MAX_RETRY_DELAY_MS);
}

#[test]
fn retry_delay_stays_within_bounds() {
    for attempt in 0..10u32 {
        let d = retry_delay(100, attempt);
        let floor = (100u64 << attempt).min(MAX_RETRY_DELAY_MS);
        assert!(d >= floor && d <= MAX_RETRY_DELAY_MS, "delay {d} out of bounds");
        assert!(d < floor + 100 || d == MAX_RETRY_DELAY_MS);
    }
}

/// Runs the retry loop against scripted outcomes; returns how many fetches
/// were made and whether data was delivered.
fn simulate(outcomes: &[FetchOutcome], max_attempts: u32) -> (usize, bool) {
    let mut calls = 0;
    for attempt in 0..max_attempts {
        let outcome = outcomes[calls];
        calls += 1;
        match fetch_step(attempt, max_attempts, outcome, 0) {
            FetchStep::Deliver => return (calls, true),
            FetchStep::GiveUp => return (calls, false),
            FetchStep::Backoff { delay_ms, retry } => {
                assert_eq!(delay_ms, 0);
                if !retry {
                    return (calls, false);
                }
            }
        }
    }
    (calls, false)
}

#[test]
fn fetch_with_retry_returns_points_on_success() {
    assert_eq!(simulate(&[FetchOutcome::Fetched], 3), (1, true));
}

#[test]
fn fetch_with_retry_retries_on_network_error_and_succeeds() {
    let outcomes = [FetchOutcome::Failed, FetchOutcome::Failed, FetchOutcome::Failed];
    assert_eq!(simulate(&outcomes, 3), (3, false));
    let recovering = [FetchOutcome::Failed, FetchOutcome::Fetched];
    assert_eq!(simulate(&recovering, 3), (2, true));
}

#[test]
fn fetch_with_retry_does_not_retry_on_parse_error() {
    assert_eq!(simulate(&[FetchOutcome::Malformed], 3), (1, false));
}

#[test]
fn fetch_with_retry_returns_none_when_all_attempts_exhausted() {
    let outcomes = [FetchOutcome::Failed; 5];
    assert_eq!(simulate(&outcomes, 3), (3, false));
    assert_eq!(simulate(&outcomes, 0), (0, false));
}

#[test]
fn fetch_with_retry_succeeds_on_first_attempt_makes_one_call() {
    assert_eq!(simulate(&[FetchOutcome::Fetched, FetchOutcome::Failed], 3), (1, true));
}

#[test]
fn errors_map_to_outcomes() {
    assert_eq!(fetch_outcome_of(&AppError::Parse("x".to_string())), FetchOutcome::Malformed);
    assert_eq!(fetch_outcome_of(&AppError::Network("x".to_string())), FetchOutcome::Failed);
    assert_eq!(fetch_outcome_of(&AppError::Unknown("x".to_string())), FetchOutcome::Failed);
}

#[test]
fn last_failed_attempt_backs_off_without_retry() {
    match fetch_step(2, 3, FetchOutcome::Failed, 100) {
        FetchStep::Backoff { delay_ms, retry } => {
            assert!(!retry);
            assert!((400..500).contains(&delay_ms));
        }
        other => panic!("unexpected step {:?}", other),
    }
}

// ---- webhook delivery ----

#[test]
fn webhook_steps() {
    assert!(matches!(send_step(1, SendOutcome::Answered(200)), SendStep::Delivered));
    assert!(matches!(send_step(2, SendOutcome::Answered(204)), SendStep::Delivered));
    assert!(matches!(send_step(1, SendOutcome::Answered(500)), SendStep::RetryAfterSecs(2)));
    assert!(matches!(
        send_step(2, SendOutcome::Answered(500)),
        SendStep::Failed(WebhookError::Status(500))
    ));
    assert!(matches!(
        send_step(1, SendOutcome::RequestFailed("refused".to_string())),
        SendStep::RetryAfterSecs(2)
    ));
    match send_step(2, SendOutcome::RequestFailed("refused".to_string())) {
        SendStep::Failed(e) => assert_eq!(e.to_text(), "request failed: refused"),
        other => panic!("unexpected step {:?}", other),
    }
    assert!(matches!(
        send_step(2, SendOutcome::Answered(300)),
        SendStep::Failed(WebhookError::Status(300))
    ));
    assert_eq!(WebhookError::Status(503).to_text(), "unexpected HTTP status: 503");
}

// ---- horizon records ----

#[test]
fn transaction_record_becomes_point() {
    let p = transaction_point(
        Some("abc"),
        Some("100"),
        Some("42"),
        Some("2025-01-14T10:45:00.5Z"),
        Some(true),
    )
    .unwrap();
    assert_eq!(p.transaction_hash, "abc");
    assert_eq!(p.fee_amount, 100);
    assert_eq!(p.ledger_sequence, 42);
    assert_eq!(p.timestamp, Timestamp { secs: SPIKE_START, nanos: 500_000_000 });
}

#[test]
fn unreadable_transaction_records_are_dropped() {
    let ok = (Some("h"), Some("1"), Some("2"), Some("2025-01-14T10:45:00Z"), Some(false));
    assert!(transaction_point(ok.0, ok.1, ok.2, ok.3, ok.4).is_some());
    assert!(transaction_point(None, ok.1, ok.2, ok.3, ok.4).is_none());
    assert!(transaction_point(ok.0, Some("1.5"), ok.2, ok.3, ok.4).is_none());
    assert!(transaction_point(ok.0, ok.1, Some(""), ok.3, ok.4).is_none());
    assert!(transaction_point(ok.0, ok.1, ok.2, Some("14/01/2025"), ok.4).is_none());
    assert!(transaction_point(ok.0, ok.1, ok.2, ok.3, None).is_none());
    assert!(point_from_fields(ok.0, ok.1, ok.2, None, ok.4).is_none());
    let p = point_from_fields(ok.0, Some("+7"), ok.2, Some((5, 6)), ok.4).unwrap();
    assert_eq!(p.fee_amount, 7);
    assert_eq!(p.timestamp, Timestamp { secs: 5, nanos: 6 });
}

#[test]
fn only_enabled_configs_with_known_thresholds_route() {
    let cfg = |url: &str, threshold: &str, enabled: bool| AlertConfig {
        webhook_url: url.to_string(),
        threshold: threshold.to_string(),
        enabled,
    };
    let routes = enabled_routes(&vec![
        cfg("https://a", "Major", true),
        cfg("https://b", "Critical", false),
        cfg("https://c", "severe", true),
        cfg("https://d", "Minor", true),
    ]);
    let got: Vec<(String, SpikeSeverity)> =
        routes.iter().map(|r| (r.webhook_url.clone(), r.threshold)).collect();
    assert_eq!(
        got,
        vec![("https://a".to_string(), SpikeSeverity::Major), ("https://d".to_string(), SpikeSeverity::Minor)]
    );
}

#[test]
fn provider_errors_map_to_outcomes() {
    assert_eq!(
        provider_outcome(&ProviderError::FormatError { message: "bad json".into() }),
        FetchOutcome::Malformed
    );
    assert_eq!(
        provider_outcome(&ProviderError::NetworkError { message: "timeout".into() }),
        FetchOutcome::Failed
    );
    assert_eq!(provider_outcome(&ProviderError::ServiceUnavailable), FetchOutcome::Failed);
}

#[test]
fn polling_cycles_accumulate_points_in_store() {
    let mut store = FeeHistoryStore::new(5);
    let cycle = vec![make_point(100, 2), make_point(200, 1), make_point(300, 0)];
    store.push_all(&cycle);
    assert_eq!(store.len(), 3);
    store.push_all(&cycle);
    let fees: Vec<u64> = store.get_last_n(10).iter().map(|p| p.fee_amount).collect();
    assert_eq!(fees, vec![200, 300, 100, 200, 300]);
    store.push_all(&Vec::new());
    assert_eq!(store.len(), 5);
}

#[test]
fn returning_spike_is_sent_on_first_and_third_cycle_only() {
    let mut seen = SeenSpikes::new();
    let with_spike = vec![spike(SpikeSeverity::Major)];
    let other = vec![SpikeInfo { severity: SpikeSeverity::Minor, start_secs: 5, peak_fee: 9 }];
    assert_eq!(legacy_plan(&mut seen, &with_spike, SpikeSeverity::Major).len(), 1);
    assert!(legacy_plan(&mut seen, &other, SpikeSeverity::Major).is_empty());
    assert_eq!(legacy_plan(&mut seen, &with_spike, SpikeSeverity::Major).len(), 1);
}

#[test]
fn late_attempts_deliver_or_give_up_without_backoff() {
    assert_eq!(fetch_step(100, 200, FetchOutcome::Fetched, 1000), FetchStep::Deliver);
    assert_eq!(fetch_step(u32::MAX - 1, u32::MAX, FetchOutcome::Malformed, 1000), FetchStep::GiveUp);
}
