use pinger::{calculate_mos, calculate_percentile, HostStatus};

// Samples are RTTs in microseconds; `None` is a lost probe.
const LOST: Option<u32> = None;

fn ms(v: u32) -> Option<u32> {
    Some(v * 1000)
}

fn as_ms(us: u32) -> f64 {
    us as f64 / 1000.0
}

fn check_add_sample_stats() {
    let mut status = HostStatus::default();
    status.add_sample(ms(10));
    status.add_sample(ms(20));
    status.add_sample(LOST);

    assert_eq!(status.sent, 3);
    assert_eq!(status.lost, 1);
    assert_eq!(as_ms(status.mean), 15.0);
    assert!((status.availability as f64 / 1000.0 - (2.0 / 3.0) * 100.0).abs() < 0.001);
    assert_eq!(status.streak, 1);
    assert_eq!(status.streak_success, false);
}

fn check_calculate_percentile() {
    let data = vec![1, 2, 3, 4, 5];
    assert_eq!(calculate_percentile(&data, 0), 1);
    assert_eq!(calculate_percentile(&data, 50), 3);
    assert_eq!(calculate_percentile(&data, 100), 5);
    assert_eq!(calculate_percentile(&data, 25), 2);

    let data2 = vec![10, 20];
    assert_eq!(calculate_percentile(&data2, 50), 15);
}

fn check_calculate_mos_values() {
    let excellent = calculate_mos(10_000, 0, 0);
    assert!(excellent > 4400);

    let good = calculate_mos(50_000, 5_000, 0);
    assert!(good > 4000 && good < 4400);

    let stressed = calculate_mos(150_000, 20_000, 1_000);
    assert!(stressed < 4200 && stressed > 3000);

    let bad = calculate_mos(300_000, 50_000, 5_000);
    assert!(bad < 3000);
}

fn check_streaks() {
    let mut status = HostStatus::default();

    status.add_sample(ms(10));
    status.add_sample(ms(10));
    status.add_sample(ms(10));
    assert_eq!(status.streak, 3);
    assert_eq!(status.streak_success, true);

    status.add_sample(LOST);
    assert_eq!(status.streak, 1);
    assert_eq!(status.streak_success, false);

    status.add_sample(LOST);
    assert_eq!(status.streak, 2);
    assert_eq!(status.streak_success, false);

    status.add_sample(ms(10));
    assert_eq!(status.streak, 1);
    assert_eq!(status.streak_success, true);
}

fn check_outliers_detection() {
    let mut status = HostStatus::default();
    for _ in 0..10 {
        status.add_sample(ms(10));
    }
    assert_eq!(status.outliers, 0);
    assert!(as_ms(status.stddev) < 0.1);

    status.add_sample(ms(11));
    status.add_sample(ms(9));

    status.add_sample(ms(100));
    assert!(status.outliers >= 1);

    let prev_outliers = status.outliers;
    status.add_sample(Some(10_100));
    assert_eq!(status.outliers, prev_outliers);
}

fn check_advanced_stats() {
    let mut status = HostStatus::default();
    for &rtt in &[10, 20, 30, 40, 50] {
        status.add_sample(ms(rtt));
    }

    assert_eq!(as_ms(status.min_rtt), 10.0);
    assert_eq!(as_ms(status.max_rtt), 50.0);
    assert_eq!(as_ms(status.median), 30.0);
    assert!(as_ms(status.p95) > 40.0);
    assert_eq!(as_ms(status.mean), 30.0);
}

#[test]
fn status_test_add_sample_stats() {
    check_add_sample_stats();
}

#[test]
fn status_tests_test_add_sample_stats() {
    check_add_sample_stats();
}

#[test]
fn status_test_calculate_percentile() {
    check_calculate_percentile();
}

#[test]
fn status_tests_test_calculate_percentile() {
    check_calculate_percentile();
}

#[test]
fn status_test_calculate_mos_values() {
    check_calculate_mos_values();
}

#[test]
fn status_tests_test_calculate_mos_values() {
    check_calculate_mos_values();
}

#[test]
fn status_test_streaks() {
    check_streaks();
}

#[test]
fn status_tests_test_streaks() {
    check_streaks();
}

#[test]
fn status_test_outliers_detection() {
    check_outliers_detection();
}

#[test]
fn status_tests_test_outliers_detection() {
    check_outliers_detection();
}

#[test]
fn status_test_advanced_stats() {
    check_advanced_stats();
}

#[test]
fn status_tests_test_advanced_stats() {
    check_advanced_stats();
}

#[test]
fn status_tests_test_history_limit() {
    let mut status = HostStatus::default();
    for i in 0..400 {
        status.add_sample(ms(i));
    }
    assert_eq!(status.history.len(), 300);
    assert_eq!(status.history[0], ms(100));
    assert_eq!(status.history[299], ms(399));
}

#[test]
fn test_streak_calculation_complex() {
    let mut status = HostStatus::default();

    status.add_sample(ms(10));
    assert!(status.streak_success);
    assert_eq!(status.streak, 1);

    status.add_sample(ms(20));
    assert!(status.streak_success);
    assert_eq!(status.streak, 2);

    status.add_sample(LOST);
    assert!(!status.streak_success);
    assert_eq!(status.streak, 1);

    status.add_sample(LOST);
    assert!(!status.streak_success);
    assert_eq!(status.streak, 2);

    status.add_sample(ms(10));
    assert!(status.streak_success);
    assert_eq!(status.streak, 1);
}

#[test]
fn test_large_rtt_history_and_statistics() {
    let mut status = HostStatus::default();
    for i in 1..=500 {
        status.add_sample(ms(i));
    }

    assert_eq!(status.history.len(), 300);
    assert_eq!(*status.history.first().unwrap(), ms(201));
    assert_eq!(*status.history.last().unwrap(), ms(500));

    assert_eq!(as_ms(status.min_rtt), 201.0);
    assert_eq!(as_ms(status.max_rtt), 500.0);

    let mean = (201.0 + 500.0) / 2.0;
    assert_eq!(as_ms(status.mean), mean);
    assert_eq!(as_ms(status.median), 350.5);
}

#[test]
fn test_all_nan_samples() {
    let mut status = HostStatus::default();
    status.add_sample(LOST);
    status.add_sample(LOST);
    status.add_sample(LOST);

    assert_eq!(status.sent, 3);
    assert_eq!(status.lost, 3);
    assert_eq!(status.mean, 0);
    assert_eq!(status.median, 0);
    assert_eq!(status.availability, 0);
    assert!(!status.alive);
}

#[test]
fn test_single_valid_sample() {
    let mut status = HostStatus::default();
    status.add_sample(ms(42));

    assert_eq!(status.sent, 1);
    assert_eq!(status.lost, 0);
    assert_eq!(as_ms(status.mean), 42.0);
    assert_eq!(as_ms(status.median), 42.0);
    assert!(status.mos > 1000);
    assert_eq!(status.availability as f64 / 1000.0, 100.0);
}

#[test]
fn test_single_valid_after_nans() {
    let mut status = HostStatus::default();
    status.add_sample(LOST);
    status.add_sample(LOST);
    status.add_sample(LOST);
    status.add_sample(ms(50));

    assert_eq!(status.sent, 4);
    assert_eq!(status.lost, 3);
    assert_eq!(as_ms(status.mean), 50.0);
    assert_eq!(as_ms(status.median), 50.0);
}

#[test]
fn test_rtp_jitter_calculation() {
    let mut status = HostStatus::default();
    status.add_sample(ms(100));
    status.add_sample(ms(110));

    assert_eq!(as_ms(status.rtp_jitter), 10.0);

    status.add_sample(ms(105));
    assert!((as_ms(status.rtp_jitter) - 9.6875).abs() < 0.001);

    assert_eq!(status.rtp_jitter_history.len(), 2);
}

#[test]
fn test_rtp_jitter_history_limit() {
    let mut status = HostStatus::default();
    for i in 0..400 {
        status.add_sample(ms((i % 50) * 10));
    }
    assert!(status.rtp_jitter_history.len() <= 300);
}

#[test]
fn test_mos_monotonically_degrades() {
    let ideal = calculate_mos(0, 0, 0);
    let good = calculate_mos(50_000, 5_000, 0);
    let fair = calculate_mos(100_000, 15_000, 1_000);
    let poor = calculate_mos(200_000, 30_000, 3_000);
    let bad = calculate_mos(400_000, 60_000, 10_000);

    assert!(ideal > good, "Ideal ({ideal}) > Good ({good})");
    assert!(good > fair, "Good ({good}) > Fair ({fair})");
    assert!(fair > poor, "Fair ({fair}) > Poor ({poor})");
    assert!(poor > bad, "Poor ({poor}) > Bad ({bad})");
}

#[test]
fn test_mos_is_clamped() {
    let worst = calculate_mos(10_000_000, 10_000_000, 100_000);
    assert!(worst >= 1000, "MOS {worst} should be >= 1.0");

    let best = calculate_mos(0, 0, 0);
    assert!(best <= 4500, "MOS {best} should be <= 4.5");
}

#[test]
fn test_calculate_percentile_empty() {
    assert_eq!(calculate_percentile(&[], 50), 0);
}

#[test]
fn test_calculate_percentile_single() {
    assert_eq!(calculate_percentile(&[42], 0), 42);
    assert_eq!(calculate_percentile(&[42], 50), 42);
    assert_eq!(calculate_percentile(&[42], 100), 42);
}

#[test]
fn test_availability_always_percentage() {
    let mut status = HostStatus::default();
    for _ in 0..5 {
        status.add_sample(ms(10));
    }
    for _ in 0..5 {
        status.add_sample(LOST);
    }
    assert!((status.availability as f64 / 1000.0 - 50.0).abs() < 0.01);
}
