use vnt_dns::acquire::{
    acquire_from_polls, poll_decision, ConnectState, PollDecision, StatusSnapshot,
    ACQUIRE_TIMEOUT_MS, POLL_INTERVAL_MS,
};
use vnt_dns::ip::Ipv4;

fn ip(a: u8, b: u8, c: u8, d: u8) -> Ipv4 {
    Ipv4 { a, b, c, d }
}

fn connecting() -> StatusSnapshot {
    StatusSnapshot { state: ConnectState::Connecting, assigned: ip(0, 0, 0, 0) }
}

fn connected(addr: Ipv4) -> StatusSnapshot {
    StatusSnapshot { state: ConnectState::Connected, assigned: addr }
}

#[test]
fn address_within_one_interval_is_returned() {
    let trace = vec![connecting(), connected(ip(10, 0, 0, 5))];
    assert_eq!(acquire_from_polls(&trace), Some(ip(10, 0, 0, 5)));
}

#[test]
fn immediate_address_is_returned() {
    let trace = vec![connected(ip(10, 26, 0, 2))];
    assert_eq!(acquire_from_polls(&trace), Some(ip(10, 26, 0, 2)));
}

#[test]
fn never_connecting_times_out() {
    let trace = vec![connecting(); 100];
    assert_eq!(acquire_from_polls(&trace), None);
}

#[test]
fn connected_with_zero_address_is_not_ready() {
    let trace = vec![connected(ip(0, 0, 0, 0)); 100];
    assert_eq!(acquire_from_polls(&trace), None);
}

#[test]
fn address_at_the_deadline_still_wins() {
    // the snapshot is examined before the clock: the poll taken together
    // with the timeout check may still succeed
    let mut trace = vec![connecting(); 51];
    trace.push(connected(ip(10, 0, 0, 7)));
    assert_eq!(acquire_from_polls(&trace), Some(ip(10, 0, 0, 7)));
}

#[test]
fn address_one_interval_past_the_deadline_is_missed() {
    let mut trace = vec![connecting(); 52];
    trace.push(connected(ip(10, 0, 0, 7)));
    assert_eq!(acquire_from_polls(&trace), None);
}

#[test]
fn exhausted_recording_yields_no_address() {
    let trace = vec![connecting(); 5];
    assert_eq!(acquire_from_polls(&trace), None);
}

#[test]
fn poll_decision_prefers_ready_over_timeout() {
    let d = poll_decision(connected(ip(10, 0, 0, 5)), ACQUIRE_TIMEOUT_MS + 200);
    assert_eq!(d, PollDecision::Ready(ip(10, 0, 0, 5)));
}

#[test]
fn poll_decision_times_out_after_the_bound() {
    assert_eq!(poll_decision(connecting(), ACQUIRE_TIMEOUT_MS + 1), PollDecision::TimedOut);
    assert_eq!(poll_decision(connecting(), ACQUIRE_TIMEOUT_MS), PollDecision::Poll);
    assert_eq!(poll_decision(connecting(), 0), PollDecision::Poll);
}

#[test]
fn disconnected_and_stopped_are_not_ready() {
    let snap = StatusSnapshot { state: ConnectState::Disconnected, assigned: ip(10, 0, 0, 1) };
    assert_eq!(poll_decision(snap, 0), PollDecision::Poll);
    let snap = StatusSnapshot { state: ConnectState::Stopped, assigned: ip(10, 0, 0, 1) };
    assert_eq!(poll_decision(snap, 0), PollDecision::Poll);
}

#[test]
fn polling_constants_match_the_design() {
    assert_eq!(POLL_INTERVAL_MS, 200);
    assert_eq!(ACQUIRE_TIMEOUT_MS, 10_000);
}
