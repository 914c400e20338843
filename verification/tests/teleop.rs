use robot_core::teleop::{Guard, Request};

fn req(seq: u64, tick: u64, op: &str, motor: u16) -> Request {
    Request {
        seq,
        tick,
        op: op.into(),
        motor,
        servo: 1500,
    }
}

#[test]
fn calibrated_manual_limits_are_enforced() {
    for (motor, servo, allowed) in [
        (1350, 1350, true),
        (1350, 1650, true),
        (1349, 1500, false),
        (1500, 1349, false),
        (1500, 1651, false),
    ] {
        let mut g = Guard::new(true);
        g.apply(req(1, 0, "arm", 1500), 0);
        let mut command = req(2, 50, "drive", motor);
        command.servo = servo;
        g.apply(command, 50);
        assert_eq!(g.status.armed, allowed);
        if !allowed {
            assert_eq!((g.status.motor, g.status.servo), (1500, 1500));
        }
    }
    let mut g = Guard::new(false);
    g.apply(req(1, 0, "arm", 1500), 0);
    g.apply(req(2, 50, "drive", 1400), 50);
    assert!(!g.status.armed);
}

#[test]
fn timeout_cannot_rearm_with_drive() {
    let mut g = Guard::new(false);
    g.apply(req(1, 0, "arm", 1500), 0);
    g.apply(req(2, 50, "drive", 1600), 50);
    for t in [100, 200, 300, 350] {
        g.advance(t);
    }
    assert!(!g.status.armed);
    assert_eq!(g.status.motor, 1500);
    g.apply(req(3, 350, "drive", 1600), 350);
    assert!(!g.status.armed);
}

#[test]
fn held_keys_continue_while_heartbeats_are_fresh() {
    let mut g = Guard::new(false);
    g.apply(req(1, 0, "arm", 1500), 0);
    for i in 1..=100 {
        g.apply(req(i + 1, i * 100, "drive", 1550), i * 100);
    }
    assert!(g.status.armed);
    assert_eq!(g.status.motor, 1550);
    g.apply(req(102, 10100, "drive", 1500), 10100);
    assert_eq!(g.status.motor, 1500);
}

#[test]
fn stale_reordered_reverse_and_bounds_stop() {
    for request in [
        req(1, 0, "drive", 1550),
        req(2, 1000, "drive", 1550),
        req(2, 0, "drive", 1550),
        req(2, 300, "drive", 1490),
        req(2, 300, "drive", 1621),
    ] {
        let mut g = Guard::new(false);
        g.apply(req(1, 100, "arm", 1500), 100);
        g.advance(200);
        g.apply(request, 300);
        assert!(!g.status.armed);
        assert_eq!(g.status.motor, 1500);
    }
}

#[test]
fn release_centres_and_stop_wins() {
    let mut g = Guard::new(true);
    g.apply(req(1, 0, "arm", 1500), 0);
    g.apply(req(2, 50, "drive", 1480), 50);
    assert_eq!(g.status.motor, 1480);
    g.apply(req(3, 100, "drive", 1500), 100);
    assert_eq!(g.status.motor, 1500);
    g.apply(req(0, 0, "stop", 2500), 100);
    assert!(!g.status.armed);
}

#[test]
fn delayed_arm_cannot_undo_stop() {
    let mut g = Guard::new(false);
    g.advance(100);
    g.stop("operator_stop");
    g.apply(
        Request {
            seq: 1,
            tick: 90,
            op: "arm".into(),
            motor: 1500,
            servo: 1500,
        },
        120,
    );
    assert!(!g.status.armed);
    g.apply(
        Request {
            seq: 2,
            tick: 150,
            op: "arm".into(),
            motor: 1500,
            servo: 1500,
        },
        150,
    );
    assert!(g.status.armed);
}

#[test]
fn a_stop_names_its_reason_and_keeps_the_snapshot() {
    let mut g = Guard::new(false);
    g.apply(req(1, 0, "arm", 1500), 0);
    assert!(g.snapshot().armed);
    g.stop("operator_stop");
    assert!(!g.snapshot().armed);
    assert_eq!(g.snapshot().reason, "operator_stop");
    assert_eq!((g.snapshot().motor, g.snapshot().servo), (1500, 1500));
}

#[test]
fn unknown_operations_disarm() {
    let mut g = Guard::new(false);
    g.apply(req(1, 0, "arm", 1500), 0);
    g.apply(req(2, 50, "jump", 1500), 50);
    assert!(!g.status.armed);
}
