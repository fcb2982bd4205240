use chrono::NaiveDate;
use chrono::NaiveDateTime;
use proxy_pool::common::utils::{round_div_exec, speed_to_score};
use proxy_pool::model::{Proxy, ProxyBasic, ProxyCheckResult, ONE};
use proxy_pool::service::quality::{
    compute_score, evaluate, evaluate_now, merge_test_results, proxy_url, stability, tally_attempts,
    QualityConfig, QualityTestResults, VerifyLevel,
};
use proxy_pool::service::retry::ProbeAttempt;

fn at_noon() -> NaiveDateTime {
    NaiveDate::from_ymd_opt(2024, 5, 17).unwrap().and_hms_opt(12, 0, 0).unwrap()
}

fn default_config(urls: usize, test_count: u64) -> QualityConfig {
    QualityConfig {
        speed_weight: 400_000,
        success_weight: 300_000,
        stability_weight: 300_000,
        test_count,
        max_retries: 3,
        timeout: 5,
        test_urls: (0..urls).map(|i| format!("https://target{}.example", i)).collect(),
        verify_level: VerifyLevel::Standard,
    }
}

fn stored(rate: Option<u64>, stability: Option<u64>) -> Proxy {
    Proxy {
        ip: "127.0.0.1".to_string(),
        port: "12334".to_string(),
        speed: Some(20),
        success_rate: rate,
        stability,
        score: Some(500_000),
        last_checked: None,
    }
}

fn as_ratio(millionths: u64) -> f64 {
    millionths as f64 / ONE as f64
}

#[test]
fn rounding_goes_to_the_nearest_with_halves_up() {
    assert_eq!(round_div_exec(0, 3), 0);
    assert_eq!(round_div_exec(7, 2), 4);
    assert_eq!(round_div_exec(10, 4), 3);
    assert_eq!(round_div_exec(9, 4), 2);
    assert_eq!(round_div_exec(11, 4), 3);
    assert_eq!(round_div_exec(100, 3), 33);
    assert_eq!(round_div_exec(200, 3), 67);
    assert_eq!(round_div_exec(u128::MAX, 1), u128::MAX);
    assert_eq!(round_div_exec(u128::MAX, u128::MAX), 1);
    assert_eq!(round_div_exec(u128::MAX - 1, u128::MAX), 1);
    assert_eq!(round_div_exec(u128::MAX / 2, u128::MAX), 0);
}

#[test]
fn speed_sub_score_steps_down_with_latency() {
    assert_eq!(speed_to_score(0), 1_000_000);
    assert_eq!(speed_to_score(9), 1_000_000);
    assert_eq!(speed_to_score(10), 800_000);
    assert_eq!(speed_to_score(49), 800_000);
    assert_eq!(speed_to_score(50), 500_000);
    assert_eq!(speed_to_score(99), 500_000);
    assert_eq!(speed_to_score(100), 300_000);
    assert_eq!(speed_to_score(199), 300_000);
    assert_eq!(speed_to_score(200), 100_000);
    assert_eq!(speed_to_score(u64::MAX), 100_000);
}

#[test]
fn speed_sub_score_never_rises() {
    let mut last = speed_to_score(0);
    for speed in 1..400u64 {
        let now = speed_to_score(speed);
        assert!(now <= last);
        last = now;
    }
}

#[test]
fn success_rate_three_of_six_is_a_half() {
    let mut results = QualityTestResults::new(6);
    results.record_success(12);
    results.record_failure();
    results.record_success(15);
    results.record_failure();
    results.record_success(9);
    results.record_failure();
    assert_eq!(results.successes, vec![12, 15, 9]);
    assert_eq!(results.failures, 3);
    assert_eq!(results.total, 6);
    assert_eq!(results.success_rate(), 500_000);
    assert_eq!(as_ratio(results.success_rate()), 0.5);
}

#[test]
fn success_rate_is_rounded_to_two_decimals() {
    let mut one_of_three = QualityTestResults::new(3);
    one_of_three.record_success(5);
    assert_eq!(one_of_three.success_rate(), 330_000);

    let mut two_of_three = QualityTestResults::new(3);
    two_of_three.record_success(5);
    two_of_three.record_success(5);
    assert_eq!(two_of_three.success_rate(), 670_000);

    let mut one_of_eight = QualityTestResults::new(8);
    one_of_eight.record_success(5);
    assert_eq!(one_of_eight.success_rate(), 130_000);

    let mut one_of_three_hundred = QualityTestResults::new(300);
    one_of_three_hundred.record_success(5);
    assert_eq!(one_of_three_hundred.success_rate(), 0);
}

#[test]
fn success_rate_without_plan_is_zero() {
    let results = QualityTestResults::new(0);
    assert_eq!(results.success_rate(), 0);
    assert_eq!(results.average_speed(), 0);
}

#[test]
fn success_rate_of_all_successes_is_one() {
    let mut results = QualityTestResults::new(4);
    for _ in 0..4 {
        results.record_success(3);
    }
    assert_eq!(results.success_rate(), ONE);
}

#[test]
fn average_speed_is_the_rounded_mean() {
    let mut results = QualityTestResults::new(10);
    assert_eq!(results.average_speed(), 0);
    results.record_success(10);
    assert_eq!(results.average_speed(), 10);
    results.record_success(11);
    assert_eq!(results.average_speed(), 11);
    results.record_success(9);
    assert_eq!(results.average_speed(), 10);
    results.record_failure();
    assert_eq!(results.average_speed(), 10);
    results.record_success(1);
    assert_eq!(results.average_speed(), 8);
}

#[test]
fn average_speed_of_huge_latencies_does_not_overflow() {
    let results = QualityTestResults {
        successes: vec![u64::MAX, u64::MAX, u64::MAX],
        failures: 0,
        total: 3,
    };
    assert_eq!(results.average_speed(), u64::MAX);
    let results = QualityTestResults { successes: vec![u64::MAX, 0], failures: 0, total: 2 };
    assert_eq!(results.average_speed(), u64::MAX / 2 + 1);
}

#[test]
fn attempts_are_tallied_in_order() {
    let attempts = vec![
        ProbeAttempt::Success(7),
        ProbeAttempt::Failure,
        ProbeAttempt::Success(3),
        ProbeAttempt::Failure,
        ProbeAttempt::Failure,
    ];
    let results = tally_attempts(6, &attempts);
    assert_eq!(results.successes, vec![7, 3]);
    assert_eq!(results.failures, 3);
    assert_eq!(results.total, 6);
    assert_eq!(results.success_rate(), 330_000);
    assert_eq!(results.average_speed(), 5);

    let mut by_hand = QualityTestResults::new(6);
    for attempt in attempts {
        by_hand.record(attempt);
    }
    assert_eq!(by_hand.successes, results.successes);
    assert_eq!(by_hand.failures, results.failures);
}

#[test]
fn merged_results_join_latencies_and_add_counts() {
    let a = QualityTestResults { successes: vec![1, 2], failures: 1, total: 3 };
    let b = QualityTestResults { successes: vec![], failures: 3, total: 3 };
    let c = QualityTestResults { successes: vec![9], failures: 0, total: 2 };
    let merged = merge_test_results(&[a, b, c]);
    assert_eq!(merged.successes, vec![1, 2, 9]);
    assert_eq!(merged.failures, 4);
    assert_eq!(merged.total, 8);
    assert_eq!(merged.success_rate(), 380_000);
    assert_eq!(merged.average_speed(), 4);

    let none = merge_test_results(&[]);
    assert!(none.successes.is_empty());
    assert_eq!(none.failures, 0);
    assert_eq!(none.total, 0);
}

#[test]
fn stability_blends_with_the_stored_record() {
    let old = stored(Some(800_000), Some(600_000));
    let blended = stability(500_000, Some(&old));
    assert_eq!(blended, 630_000);
    assert_eq!(as_ratio(blended), 0.63);
}

#[test]
fn stability_without_stored_record_is_neutral() {
    assert_eq!(stability(0, None), 500_000);
    assert_eq!(stability(500_000, None), 500_000);
    assert_eq!(stability(ONE, None), 500_000);
    assert_eq!(stability(u64::MAX, None), 500_000);
}

#[test]
fn stability_fills_in_missing_stored_figures() {
    let no_rate = stored(None, Some(600_000));
    assert_eq!(stability(500_000, Some(&no_rate)), 570_000);
    let no_stability = stored(Some(500_000), None);
    assert_eq!(stability(500_000, Some(&no_stability)), 650_000);
    let neither = stored(None, None);
    assert_eq!(stability(0, Some(&neither)), 650_000);
}

#[test]
fn stability_is_rounded_and_kept_between_zero_and_one() {
    let steady = stored(Some(ONE), Some(ONE));
    assert_eq!(stability(ONE, Some(&steady)), ONE);
    let odd = stored(Some(0), Some(333_333));
    assert_eq!(stability(0, Some(&odd)), 533_333);
    let odd = stored(Some(0), Some(333_335));
    assert_eq!(stability(0, Some(&odd)), 533_335);
    let out_of_range = stored(Some(0), Some(5 * ONE));
    assert_eq!(stability(0, Some(&out_of_range)), ONE);
    let far_apart = stored(Some(u64::MAX), Some(0));
    assert_eq!(stability(0, Some(&far_apart)), 0);
    let collapse = stored(Some(ONE), Some(0));
    assert_eq!(stability(0, Some(&collapse)), 0);
}

#[test]
fn score_is_the_weighted_sum() {
    let config = default_config(3, 1);
    let mut figures = ProxyCheckResult {
        speed: Some(5),
        success_rate: Some(ONE),
        stability: Some(500_000),
        score: None,
        last_checked: None,
    };
    compute_score(&mut figures, &config);
    assert_eq!(figures.score, Some(850_000));
    assert_eq!(figures.speed, Some(5));
    assert_eq!(figures.success_rate, Some(ONE));
    assert_eq!(figures.stability, Some(500_000));

    let mut slow = ProxyCheckResult {
        speed: Some(150),
        success_rate: Some(330_000),
        stability: Some(630_000),
        score: Some(1),
        last_checked: Some(at_noon()),
    };
    compute_score(&mut slow, &config);
    assert_eq!(slow.score, Some(408_000));
    assert_eq!(slow.last_checked, Some(at_noon()));
}

#[test]
fn score_of_missing_figures() {
    let config = default_config(1, 1);
    let mut figures = ProxyCheckResult::default();
    compute_score(&mut figures, &config);
    assert_eq!(figures.score, Some(40_000));
}

#[test]
fn score_stays_within_bounds() {
    let mut config = default_config(1, 1);
    config.speed_weight = u32::MAX;
    config.success_weight = u32::MAX;
    config.stability_weight = u32::MAX;
    let mut figures = ProxyCheckResult {
        speed: Some(0),
        success_rate: Some(u64::MAX),
        stability: Some(u64::MAX),
        score: None,
        last_checked: None,
    };
    compute_score(&mut figures, &config);
    assert_eq!(figures.score, Some(ONE));

    config.speed_weight = 0;
    config.success_weight = 0;
    config.stability_weight = 0;
    compute_score(&mut figures, &config);
    assert_eq!(figures.score, Some(0));

    let weights = [0u32, 1, 300_000, 400_000, 1_000_000, 2_500_000];
    let values = [0u64, 1, 330_000, 500_000, 999_999, 1_000_000];
    let speeds = [0u64, 9, 10, 75, 150, 1_000];
    for &w in &weights {
        for &v in &values {
            for &s in &speeds {
                let cfg = QualityConfig {
                    speed_weight: w,
                    success_weight: 1_000_000 - w.min(1_000_000),
                    stability_weight: w / 2,
                    ..default_config(1, 1)
                };
                let mut f = ProxyCheckResult {
                    speed: Some(s),
                    success_rate: Some(v),
                    stability: Some(ONE - v),
                    score: None,
                    last_checked: None,
                };
                compute_score(&mut f, &cfg);
                assert!(f.score.unwrap() <= ONE);
            }
        }
    }
}

#[test]
fn first_pass_with_all_fast_successes_scores_085() {
    let config = default_config(3, 1);
    assert_eq!(config.planned_total(), 3);
    let attempts =
        vec![ProbeAttempt::Success(4), ProbeAttempt::Success(7), ProbeAttempt::Success(9)];
    let results = tally_attempts(config.planned_total(), &attempts);
    let candidate = ProxyBasic::new("127.0.0.1", "12334");
    let record = evaluate(&candidate, &results, None, &config, at_noon());

    assert_eq!(record.ip, "127.0.0.1");
    assert_eq!(record.port, "12334");
    assert_eq!(record.speed, Some(7));
    assert!(record.speed.unwrap() < 10);
    assert_eq!(record.success_rate, Some(ONE));
    assert_eq!(record.stability, Some(500_000));
    assert_eq!(record.score, Some(850_000));
    assert_eq!(as_ratio(record.score.unwrap()), 0.85);
    assert_eq!(record.last_checked, Some(at_noon()));
}

#[test]
fn later_pass_blends_with_the_stored_record() {
    let config = default_config(2, 3);
    let attempts = vec![
        ProbeAttempt::Success(40),
        ProbeAttempt::Failure,
        ProbeAttempt::Success(60),
        ProbeAttempt::Failure,
        ProbeAttempt::Success(80),
        ProbeAttempt::Failure,
    ];
    let results = tally_attempts(config.planned_total(), &attempts);
    let old = stored(Some(800_000), Some(600_000));
    let candidate = ProxyBasic::new("127.0.0.1", "12334");
    let record = evaluate(&candidate, &results, Some(&old), &config, at_noon());

    assert_eq!(record.speed, Some(60));
    assert_eq!(record.success_rate, Some(500_000));
    assert_eq!(record.stability, Some(630_000));
    assert_eq!(record.score, Some(539_000));
}

#[test]
fn pass_without_any_success_scores_low() {
    let config = default_config(2, 1);
    let attempts = vec![ProbeAttempt::Failure, ProbeAttempt::Failure];
    let results = tally_attempts(config.planned_total(), &attempts);
    let candidate = ProxyBasic::new("127.0.0.1", "12335");
    let record = evaluate(&candidate, &results, None, &config, at_noon());
    assert_eq!(record.speed, Some(0));
    assert_eq!(record.success_rate, Some(0));
    assert_eq!(record.stability, Some(500_000));
    assert_eq!(record.score, Some(550_000));
}

#[test]
fn proxy_address_is_built_from_ip_and_port() {
    assert_eq!(proxy_url(&ProxyBasic::new("127.0.0.1", "12334")), "http://127.0.0.1:12334");
    assert_eq!(proxy_url(&ProxyBasic::new("", "")), "http://:");
}

#[test]
fn evaluation_is_stamped_with_the_current_time() {
    let config = default_config(1, 2);
    let attempts = vec![ProbeAttempt::Success(30), ProbeAttempt::Failure];
    let results = tally_attempts(config.planned_total(), &attempts);
    let candidate = ProxyBasic::new("127.0.0.1", "12334");
    let before = chrono::Utc::now().naive_utc();
    let record = evaluate_now(&candidate, &results, None, &config);
    let after = chrono::Utc::now().naive_utc();

    let stamp = record.last_checked.unwrap();
    assert!(before <= stamp && stamp <= after);
    assert_eq!(record.ip, "127.0.0.1");
    assert_eq!(record.speed, Some(30));
    assert_eq!(record.success_rate, Some(500_000));
    assert_eq!(record.stability, Some(500_000));
    assert_eq!(record.score, Some(620_000));
}
