//! The heartbeat state machine.
use std::time::Duration;

use kamekichi::discord::error::Error;
use kamekichi::discord::heartbeat::{heartbeat_text, HeartbeatState};

const INT: Duration = Duration::from_secs(30);
const NOW: u64 = 1_000_000_000_000_000;

fn nanos(d: Duration) -> u64 {
    d.as_nanos() as u64
}

fn hb(ack_pending: bool, heartbeat_ago: Duration, ack_ago: Duration) -> HeartbeatState {
    HeartbeatState {
        interval: nanos(INT),
        next_heartbeat: NOW + nanos(INT.checked_sub(heartbeat_ago).unwrap_or(Duration::ZERO)),
        ack_pending,
        last_ack: NOW - nanos(ack_ago),
    }
}

/// A state whose first heartbeat is due after that part of the interval.
fn jittered(interval_ms: u64, jitter: f64) -> Result<HeartbeatState, Error> {
    let delay = Duration::from_millis(interval_ms).mul_f64(jitter);
    HeartbeatState::new(interval_ms, nanos(delay), NOW)
}

// ---- Jitter ----

#[test]
fn jitter_zero_fires_immediately() {
    let hb = jittered(41_000, 0.0).unwrap();
    // deadline ≈ now, so heartbeat is due immediately
    let until = Duration::from_nanos(hb.next_heartbeat.saturating_sub(NOW));
    assert!(until < Duration::from_millis(100));
}

#[test]
fn jitter_one_fires_after_full_interval() {
    let hb = jittered(41_000, 1.0).unwrap();
    // deadline ≈ now + interval
    let until = Duration::from_nanos(hb.next_heartbeat.saturating_sub(NOW));
    assert!(until >= Duration::from_secs(40));
    assert!(until <= Duration::from_secs(42));
}

#[test]
fn jitter_half_fires_after_half_interval() {
    let hb = jittered(40_000, 0.5).unwrap();
    // deadline ≈ now + 20s
    let until = Duration::from_nanos(hb.next_heartbeat.saturating_sub(NOW));
    assert!(until >= Duration::from_secs(19));
    assert!(until <= Duration::from_secs(21));
}

// ---- Heartbeat state machine ----

#[test]
fn heartbeat_not_due_yet() {
    let r = hb(false, Duration::from_secs(10), Duration::from_secs(10)).heartbeat_check(NOW);
    assert_eq!(r.unwrap(), false);
}

#[test]
fn heartbeat_due_no_ack_pending() {
    let r = hb(false, Duration::from_secs(31), Duration::from_secs(5)).heartbeat_check(NOW);
    assert_eq!(r.unwrap(), true);
}

#[test]
fn heartbeat_overdue_no_ack_pending() {
    let r = hb(false, Duration::from_secs(45), Duration::from_secs(5)).heartbeat_check(NOW);
    assert_eq!(r.unwrap(), true);
}

#[test]
fn heartbeat_due_ack_pending_zombied() {
    let r = hb(true, Duration::from_secs(31), Duration::from_secs(31)).heartbeat_check(NOW);
    assert!(matches!(r, Err(Error::ConnectionZombied)));
}

#[test]
fn backstop_zombied_before_heartbeat_due() {
    // Heartbeat not due yet, but ACK overdue beyond 2x interval.
    let r = hb(true, Duration::from_secs(10), Duration::from_secs(62)).heartbeat_check(NOW);
    assert!(matches!(r, Err(Error::ConnectionZombied)));
}

#[test]
fn backstop_within_window_not_zombied() {
    // Well within 2x -- not zombied.
    let r = hb(true, Duration::from_secs(10), Duration::from_secs(50)).heartbeat_check(NOW);
    assert_eq!(r.unwrap(), false);
}

#[test]
fn ack_pending_within_backstop_not_due() {
    // Waiting for ACK, heartbeat not due yet, within 2x window -- keep waiting.
    let r = hb(true, Duration::from_secs(10), Duration::from_secs(40)).heartbeat_check(NOW);
    assert_eq!(r.unwrap(), false);
}

// ---- backstop_check unit tests ----

#[test]
fn backstop_no_ack_pending() {
    assert!(
        hb(false, Duration::ZERO, Duration::from_secs(999))
            .backstop_check(NOW)
            .is_ok()
    );
}

#[test]
fn backstop_within_window() {
    assert!(
        hb(true, Duration::ZERO, Duration::from_secs(50))
            .backstop_check(NOW)
            .is_ok()
    );
}

#[test]
fn backstop_exceeded() {
    assert!(matches!(
        hb(true, Duration::ZERO, Duration::from_secs(62)).backstop_check(NOW),
        Err(Error::ConnectionZombied)
    ));
}

// ---- Further rules ----

#[test]
fn bad_intervals_are_rejected() {
    assert!(matches!(HeartbeatState::new(0, 0, NOW), Err(Error::BadHeartbeatInterval(0))));
    assert!(matches!(
        HeartbeatState::new(300_001, 0, NOW),
        Err(Error::BadHeartbeatInterval(300_001))
    ));
    assert_eq!(HeartbeatState::new(300_000, 0, NOW).unwrap().interval(), 300_000_000_000);
}

#[test]
fn unanswered_heartbeat_is_noticed_and_answered_one_is_not() {
    let mut h = HeartbeatState::new(1000, 0, NOW).unwrap();
    h.send(NOW);
    assert!(h.heartbeat_check(NOW + 999_999_999).is_ok());
    assert!(h.heartbeat_check(NOW + 1_000_000_000).is_err());
    h.receive_ack(NOW + 5);
    assert_eq!(h.last_ack, NOW + 5);
    assert_eq!(h.heartbeat_check(NOW + 1_000_000_000).unwrap(), true);
    // A spurious acknowledgement changes nothing.
    h.receive_ack(NOW + 9);
    assert_eq!(h.last_ack, NOW + 5);
}

#[test]
fn poll_timeout_is_the_sooner_of_heartbeat_and_backstop() {
    let ms = 1_000_000;
    let h = hb(false, Duration::from_secs(10), Duration::ZERO);
    assert_eq!(h.poll_timeout(NOW), 20_000 * ms);
    let h = hb(true, Duration::from_secs(10), Duration::from_secs(55));
    assert_eq!(h.poll_timeout(NOW), 5_000 * ms);
    let h = hb(true, Duration::from_secs(10), Duration::from_secs(99));
    assert_eq!(h.poll_timeout(NOW), ms);
    let h = hb(false, Duration::from_secs(40), Duration::ZERO);
    assert_eq!(h.poll_timeout(NOW), ms);
}

#[test]
fn heartbeat_payloads() {
    assert_eq!(heartbeat_text(Some(251)), r#"{"op":1,"d":251}"#);
    assert_eq!(heartbeat_text(None), r#"{"op":1,"d":null}"#);
    let h = hb(false, Duration::from_secs(31), Duration::ZERO);
    assert_eq!(h.send_if_due(Some(3), NOW).unwrap(), Some(r#"{"op":1,"d":3}"#.to_string()));
    let h = hb(false, Duration::from_secs(1), Duration::ZERO);
    assert_eq!(h.send_if_due(Some(3), NOW).unwrap(), None);
    let h = hb(true, Duration::ZERO, Duration::from_secs(62));
    assert!(matches!(h.server_requested(None, NOW), Err(Error::ConnectionZombied)));
}
