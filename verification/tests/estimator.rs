use s3_algo::config::Config;
use s3_algo::timeout::{Estimator, RequestReport};

fn test_config() -> Config {
    Config {
        copy_parallelization: 8,
        expected_upload_speed: 1,
        backoff_permille: 1500,
        avg_min_bytes: 1_000_000,
        min_timeout_ms: 500,
        timeout_fraction_permille: 1500,
    }
}

#[test]
fn test_s3_timeouts() {
    // Timeouts over successive attempts follow the backoff curve:
    // never below the floor, never decreasing as attempts grow.
    let bytes_cases: Vec<u64> = vec![500_000, 999_999, 1_000_001, 2_000_000];
    for bytes in bytes_cases {
        let estimator = Estimator::new(test_config());
        let timeouts: Vec<u64> = (1..=10usize)
            .map(|attempt| estimator.get_timeout(bytes, attempt))
            .collect();
        for window in timeouts.windows(2) {
            assert!(window[0] <= window[1]);
        }
        for t in &timeouts {
            assert!(*t >= 500);
        }
    }
}

#[test]
fn timeout_exact_values() {
    // estimate 1_000_000 B/s, fraction 1.5: 2 MB predicts 3000 ms on the
    // first attempt, 4500 ms on the second (one 1.5x backoff step).
    let config = Config {
        expected_upload_speed: 1_000_000,
        ..test_config()
    };
    let estimator = Estimator::new(config);
    assert_eq!(estimator.get_timeout(2_000_000, 1), 3000);
    assert_eq!(estimator.get_timeout(2_000_000, 2), 4500);
    assert_eq!(estimator.get_timeout(2_000_000, 3), 6750);
}

#[test]
fn timeout_respects_floor() {
    // A tiny request predicts next to nothing; the floor wins.
    let config = Config {
        expected_upload_speed: 1_000_000,
        ..test_config()
    };
    let estimator = Estimator::new(config);
    assert_eq!(estimator.get_timeout(0, 1), 500);
    assert_eq!(estimator.get_timeout(10, 1), 500);
}

fn report_at_rate(bytes: u64, success_time_ms: u64) -> RequestReport {
    RequestReport {
        seq: 0,
        bytes,
        success_time_ms,
        total_time_ms: success_time_ms,
        attempts: 1,
        est: 0,
    }
}

#[test]
fn estimate_converges_to_sustained_throughput() {
    // Feeding a stream of same-size successes at 500_000 B/s pulls the
    // estimate from 1_000_000 B/s to within a hair of 500_000.
    let config = Config {
        expected_upload_speed: 1_000_000,
        ..test_config()
    };
    let mut estimator = Estimator::new(config);
    for _ in 0..30 {
        // 1 MB in 2 s: 500_000 bytes/sec observed
        estimator.update(&report_at_rate(1_000_000, 2000));
    }
    let estimate = estimator.get_estimate();
    assert!(estimate >= 500_000, "estimate {} dipped below the rate", estimate);
    assert!(estimate <= 500_500, "estimate {} still far from the rate", estimate);
}

#[test]
fn estimate_at_rate_is_fixed_point() {
    let config = Config {
        expected_upload_speed: 500_000,
        ..test_config()
    };
    let mut estimator = Estimator::new(config);
    estimator.update(&report_at_rate(1_000_000, 2000));
    assert_eq!(estimator.get_estimate(), 500_000);
}

#[test]
fn estimate_stays_positive() {
    let mut estimator = Estimator::new(test_config());
    for _ in 0..5 {
        // pathologically slow: 1 byte over 100 s
        estimator.update(&report_at_rate(1, 100_000));
    }
    assert!(estimator.get_estimate() >= 1);
}

#[test]
fn test_s3_single_request() {
    // The timeout for a single 5 MB request is not too low: at an
    // actual speed of 5 MB/s the transfer takes 1000 ms, and the
    // first-attempt timeout under the default configuration
    // (1 MB/s assumed, 1.5x safety) already allows 7500 ms.
    const SIZE: u64 = 5_000_000;
    let estimator = Estimator::new(Config::default());
    let timeout = estimator.get_timeout(SIZE, 1);
    let actual_transfer_ms: u64 = 1000;
    assert!(timeout >= actual_transfer_ms);
    assert_eq!(timeout, 7500);
}
