use pinger::{
    compute_interval, generate_payload, interval_from_draw, mode_timing, payload_size,
    probe_outcome, strip_brackets, test_host, PingMode, Scheduler,
};
use std::collections::HashSet;

const MODES: [PingMode; 7] = [
    PingMode::VeryFast,
    PingMode::Fast,
    PingMode::NotFast,
    PingMode::Normal,
    PingMode::NotSlow,
    PingMode::Slow,
    PingMode::VerySlow,
];

fn secs(us: u64) -> f64 {
    us as f64 / 1_000_000.0
}

#[test]
fn test_jitter_produces_non_constant_intervals() {
    for mode in MODES {
        let intervals: Vec<u64> = (0..100).map(|_| compute_interval(mode)).collect();
        let unique: HashSet<u64> = intervals.iter().copied().collect();
        assert!(
            unique.len() > 1,
            "Mode {:?} produced identical intervals — jitter is broken",
            mode
        );
    }
}

#[test]
fn test_jitter_stays_within_bounds() {
    let cases: Vec<(PingMode, f64, f64)> = vec![
        (PingMode::VeryFast, 0.95, 1.05),
        (PingMode::Fast, 1.8, 2.2),
        (PingMode::NotFast, 4.5, 5.5),
        (PingMode::Normal, 9.0, 11.0),
        (PingMode::NotSlow, 27.0, 33.0),
        (PingMode::Slow, 55.0, 65.0),
        (PingMode::VerySlow, 285.0, 315.0),
    ];
    for (mode, min_s, max_s) in cases {
        for _ in 0..200 {
            let s = secs(compute_interval(mode));
            assert!(
                s >= min_s && s <= max_s,
                "Mode {:?}: interval {:.4}s outside [{:.2}, {:.2}]",
                mode,
                s,
                min_s,
                max_s
            );
        }
    }
}

#[test]
fn test_jitter_has_sufficient_entropy() {
    let intervals: Vec<f64> = (0..1000).map(|_| secs(compute_interval(PingMode::Normal))).collect();
    let mean = intervals.iter().sum::<f64>() / intervals.len() as f64;
    let variance =
        intervals.iter().map(|v| (v - mean).powi(2)).sum::<f64>() / intervals.len() as f64;
    let stddev = variance.sqrt();
    assert!(
        stddev > 0.1,
        "Jitter stddev {:.4} is too low — intervals are too uniform",
        stddev
    );
}

#[test]
fn interval_table_and_draws() {
    assert_eq!(mode_timing(PingMode::VeryFast), (1_000_000, 50_000));
    assert_eq!(mode_timing(PingMode::Slow), (60_000_000, 5_000_000));
    assert_eq!(interval_from_draw(PingMode::Normal, 0), 9_000_000);
    assert_eq!(interval_from_draw(PingMode::Normal, 1_999_999), 10_999_999);
    assert_eq!(interval_from_draw(PingMode::VerySlow, 15_000_000), 300_000_000);
}

#[test]
fn test_payload_respects_configured_size() {
    let host = test_host(PingMode::Fast, 64, false);
    for _ in 0..50 {
        let payload = generate_payload(&host);
        assert_eq!(payload.len(), 64, "Payload length should match configured size");
    }
}

#[test]
fn test_payload_size_is_clamped() {
    let host_small = test_host(PingMode::Fast, 4, false);
    let payload = generate_payload(&host_small);
    assert_eq!(payload.len(), 16, "Size below 16 should be clamped to 16");

    let host_large = test_host(PingMode::Fast, 9999, false);
    let payload = generate_payload(&host_large);
    assert_eq!(payload.len(), 1400, "Size above 1400 should be clamped to 1400");
}

#[test]
fn test_random_padding_varies_size() {
    let host = test_host(PingMode::Fast, 100, true);
    let sizes: Vec<usize> = (0..100).map(|_| generate_payload(&host).len()).collect();
    let unique: HashSet<usize> = sizes.into_iter().collect();
    assert!(unique.len() > 1, "Random padding should produce varying payload sizes");
    for &s in &unique {
        assert!(s >= 100 && s <= 125, "Padded size {} outside [100, 125]", s);
    }
}

#[test]
fn test_payload_content_is_random() {
    let host = test_host(PingMode::Fast, 64, false);
    let p1 = generate_payload(&host);
    let p2 = generate_payload(&host);
    assert_ne!(p1, p2, "Consecutive payloads should not be identical");
}

#[test]
fn test_payload_bytes_not_constant() {
    let host = test_host(PingMode::Fast, 256, false);
    let payload = generate_payload(&host);
    let unique_bytes: HashSet<u8> = payload.iter().copied().collect();
    assert!(
        unique_bytes.len() > 10,
        "Only {} distinct byte values in 256-byte payload — not random enough",
        unique_bytes.len()
    );
}

#[test]
fn test_no_padding_keeps_exact_size() {
    let host = test_host(PingMode::Fast, 200, false);
    for _ in 0..100 {
        let payload = generate_payload(&host);
        assert_eq!(
            payload.len(),
            200,
            "Without random_padding, size must be exactly the configured value"
        );
    }
}

#[test]
fn payload_size_formula() {
    assert_eq!(payload_size(4, false, 0), 16);
    assert_eq!(payload_size(9999, true, 350), 1750);
    assert_eq!(payload_size(100, true, 25), 125);
    assert_eq!(payload_size(100, false, 25), 100);
}

#[test]
fn brackets_are_stripped_from_ipv6_literals() {
    assert_eq!(strip_brackets("[::1]"), "::1");
    assert_eq!(strip_brackets("[2001:db8::1]"), "2001:db8::1");
    assert_eq!(strip_brackets("::1"), "::1");
    assert_eq!(strip_brackets("[::1"), "[::1");
    assert_eq!(strip_brackets("[]"), "");
    assert_eq!(strip_brackets("google.com"), "google.com");
}

#[test]
fn outcome_of_reply_and_silence() {
    let ok = probe_outcome(Some(12_345));
    assert!(ok.alive);
    assert_eq!(ok.rtt_us, Some(12_345));
    let lost = probe_outcome(None);
    assert!(!lost.alive);
    assert_eq!(lost.rtt_us, None);
    assert_eq!(probe_outcome(Some(u64::MAX)).rtt_us, Some(u32::MAX));
}

#[test]
fn scheduler_probes_new_hosts_then_waits() {
    let mut sched = Scheduler::new();
    let a = test_host(PingMode::Fast, 16, false);
    let mut b = test_host(PingMode::VerySlow, 16, false);
    b.address = "5.6.7.8".to_string();
    let hosts = vec![a, b];

    let due = sched.tick(0, &hosts);
    assert_eq!(due.len(), 2);
    assert_eq!(sched.timers.len(), 2);
    let t_a = sched.timers[0].next_due_us;
    assert!(t_a >= 1_800_000 && t_a < 2_200_000);

    assert_eq!(sched.tick(100_000, &hosts).len(), 0);

    let due = sched.tick(2_200_000, &hosts);
    assert_eq!(due.len(), 1);
    assert_eq!(due[0].address, "1.2.3.4");
}

#[test]
fn scheduler_probes_duplicate_address_once_and_forgets_removed() {
    let mut sched = Scheduler::new();
    let hosts = vec![test_host(PingMode::Slow, 16, false), test_host(PingMode::Fast, 16, false)];
    let due = sched.tick(0, &hosts);
    assert_eq!(due.len(), 1);
    assert_eq!(due[0].mode, PingMode::Slow);
    assert_eq!(sched.timers.len(), 1);

    let empty: Vec<pinger::HostInfo> = Vec::new();
    assert_eq!(sched.tick(1_000, &empty).len(), 0);
    assert_eq!(sched.timers.len(), 0);

    // Re-added at the same address: due at once.
    assert_eq!(sched.tick(2_000, &hosts).len(), 1);
}
