use vnt_dns::shutdown::{CoordState, ShutdownCoordinator};

#[test]
fn starts_armed() {
    let c = ShutdownCoordinator::new();
    assert!(!c.is_fired());
    assert_eq!(c.state, CoordState::Armed);
}

#[test]
fn first_fire_propagates() {
    let mut c = ShutdownCoordinator::new();
    assert!(c.fire());
    assert!(c.is_fired());
}

#[test]
fn two_signals_in_quick_succession_stop_the_client_once() {
    // both deliveries ask the coordinator; only the first may propagate a
    // stop() to the client
    let mut c = ShutdownCoordinator::new();
    let mut stop_calls = 0;
    for _ in 0..2 {
        if c.fire() {
            stop_calls += 1;
        }
    }
    assert_eq!(stop_calls, 1);
    assert!(c.is_fired());
}

#[test]
fn later_fires_are_no_ops() {
    let mut c = ShutdownCoordinator::new();
    c.fire();
    for _ in 0..10 {
        assert!(!c.fire());
        assert!(c.is_fired());
    }
}
