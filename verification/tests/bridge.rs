use budbridge::bridge::{BridgeAction, BridgeSession, BridgeState, Status};

#[test]
fn connect_with_empty_destination_is_rejected() {
    let mut s = BridgeSession::new();
    assert_eq!(s.state, BridgeState::Idle);
    let action = s.connect_request("");
    assert_eq!(action, BridgeAction::Nothing);
    assert_eq!(s.state, BridgeState::Idle);
    assert_eq!(s.status, Status::SelectDevice);
    assert!(!s.connected);
}

#[test]
fn connect_resets_counters_and_starts_session() {
    let mut s = BridgeSession::new();
    s.counters.record_packet_sent();
    s.counters.record_audio_callback();
    let action = s.connect_request("192.168.1.20");
    assert_eq!(action, BridgeAction::StartSession);
    assert_eq!(s.state, BridgeState::Connecting);
    assert_eq!(s.status, Status::Connecting);
    assert!(s.connected);
    assert_eq!(s.counters.packets_sent, 0);
    assert_eq!(s.counters.audio_callbacks, 0);
}

#[test]
fn successful_startup_reaches_connected() {
    let mut s = BridgeSession::new();
    s.connect_request("10.0.0.2");
    s.startup_succeeded();
    assert_eq!(s.state, BridgeState::Connected);
    assert_eq!(s.status, Status::Connected);
    assert!(s.connected);
}

#[test]
fn failed_startup_tears_down_and_returns_to_idle() {
    let mut s = BridgeSession::new();
    s.connect_request("10.0.0.2");
    let action = s.startup_failed();
    assert_eq!(action, BridgeAction::Teardown);
    assert_eq!(s.state, BridgeState::Idle);
    assert_eq!(s.status, Status::Failed);
    assert!(!s.connected);
}

#[test]
fn stop_request_disconnects_and_completes() {
    let mut s = BridgeSession::new();
    s.connect_request("10.0.0.2");
    s.startup_succeeded();
    let action = s.stop_request();
    assert_eq!(action, BridgeAction::Teardown);
    assert_eq!(s.state, BridgeState::Disconnecting);
    assert_eq!(s.status, Status::Disconnected);
    assert!(!s.connected);
    s.teardown_complete();
    assert_eq!(s.state, BridgeState::Idle);
}

#[test]
fn events_out_of_phase_change_nothing() {
    let mut s = BridgeSession::new();
    s.startup_succeeded();
    assert_eq!(s.state, BridgeState::Idle);
    assert_eq!(s.startup_failed(), BridgeAction::Nothing);
    assert_eq!(s.stop_request(), BridgeAction::Nothing);
    s.teardown_complete();
    assert_eq!(s.state, BridgeState::Idle);
    // A second connect while already connecting is ignored.
    s.connect_request("10.0.0.2");
    let action = s.connect_request("10.0.0.3");
    assert_eq!(action, BridgeAction::Nothing);
    assert_eq!(s.state, BridgeState::Connecting);
}

#[test]
fn counter_wraps_at_the_64_bit_bound() {
    let mut s = BridgeSession::new();
    s.counters.packets_sent = u64::MAX;
    s.counters.record_packet_sent();
    assert_eq!(s.counters.packets_sent, 0);
}
