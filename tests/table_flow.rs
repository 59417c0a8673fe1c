use pinger::{probe_outcome, test_host, AppState, PingMode};

#[test]
fn add_record_remove() {
    let mut state = AppState::new();
    assert!(state.add_host(test_host(PingMode::Fast, 16, false)));
    assert!(!state.add_host(test_host(PingMode::Slow, 16, false)));
    let mut empty = test_host(PingMode::Fast, 16, false);
    empty.address = String::new();
    assert!(!state.add_host(empty));
    assert_eq!(state.hosts.len(), 1);
    assert_eq!(state.statuses.len(), 1);

    let addr = "1.2.3.4".to_string();
    assert!(state.record(&addr, probe_outcome(Some(20_000))));
    assert!(state.record(&addr, probe_outcome(None)));
    let st = &state.statuses[0].status;
    assert_eq!(st.sent, 2);
    assert_eq!(st.lost, 1);
    assert!(!st.alive);
    assert_eq!(st.latency, None);

    state.remove_host(&addr);
    assert_eq!(state.hosts.len(), 0);
    assert_eq!(state.statuses.len(), 0);
    // An outcome that arrives after removal is dropped.
    assert!(!state.record(&addr, probe_outcome(Some(1_000))));
}
