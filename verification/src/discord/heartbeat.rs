//! The gateway heartbeat.
use vstd::prelude::*;

use crate::discord::error::Error;
use crate::text::{decimal, with_number};

verus! {

/// Heartbeat intervals above this many milliseconds (five minutes) are
/// rejected.
pub const MAX_HEARTBEAT_INTERVAL_MS: u64 = 300_000;

/// Nanoseconds in a millisecond, the shortest wait for a read.
pub const MILLISECOND: u64 = 1_000_000;

/// Gateway heartbeat state machine.
///
/// Tracks the heartbeat interval, the next due time, and whether the last
/// heartbeat was acknowledged, to detect zombie connections.  Two independent
/// checks catch zombies: an acknowledgement still outstanding when the next
/// heartbeat is due, and one outstanding for more than twice the interval.
///
/// Times are nanoseconds of one monotonic clock of the caller's.
#[derive(Debug)]
pub struct HeartbeatState {
    pub interval: u64,
    pub next_heartbeat: u64,
    /// Whether an acknowledgement is outstanding.  Not a counter: a heartbeat
    /// that the server asked for can be in flight beside a regular one, and
    /// the second acknowledgement is then absorbed.
    pub ack_pending: bool,
    pub last_ack: u64,
}

/// `a + b` on the clock, which does not go beyond its last tick.
pub open spec fn later(a: u64, b: u64) -> u64 {
    if a + b > u64::MAX {
        u64::MAX
    } else {
        (a + b) as u64
    }
}

/// How long after `then` it is `now`; none if `then` is yet to come.
pub open spec fn elapsed(then: u64, now: u64) -> u64 {
    if now > then {
        (now - then) as u64
    } else {
        0
    }
}

/// The JSON text of a heartbeat.
pub open spec fn heartbeat_payload(sequence: Option<u64>) -> Seq<char> {
    match sequence {
        Some(s) => "{\"op\":1,\"d\":"@ + decimal(s as nat) + "}"@,
        None => "{\"op\":1,\"d\":null}"@,
    }
}

/// The JSON text of a heartbeat.
pub fn heartbeat_text(sequence: Option<u64>) -> (r: String)
    ensures
        r@ == heartbeat_payload(sequence),
{
    match sequence {
        Some(s) => {
            let mut r = with_number("{\"op\":1,\"d\":", s);
            r.append("}");
            r
        },
        None => "{\"op\":1,\"d\":null}".to_string(),
    }
}

impl HeartbeatState {
    /// The longest that an acknowledgement may be outstanding.
    pub open spec fn spec_backstop_window(self) -> u64 {
        later(self.interval, self.interval)
    }

    /// An acknowledgement has been outstanding for too long.
    pub open spec fn backstop_exceeded(self, now: u64) -> bool {
        self.ack_pending && elapsed(self.last_ack, now) > self.spec_backstop_window()
    }

    /// The connection counts as dead.
    pub open spec fn zombied(self, now: u64) -> bool {
        self.backstop_exceeded(now) || (now >= self.next_heartbeat && self.ack_pending)
    }

    /// Begin with the interval that the server asked for, the first heartbeat
    /// being due after `first_delay`.
    pub fn new(interval_ms: u64, first_delay: u64, now: u64) -> (r: Result<Self, Error>)
        ensures
            if interval_ms == 0 || interval_ms > MAX_HEARTBEAT_INTERVAL_MS {
                r == Err::<Self, Error>(Error::BadHeartbeatInterval(interval_ms))
            } else {
                r == Ok::<Self, Error>(
                    HeartbeatState {
                        interval: (interval_ms * MILLISECOND) as u64,
                        next_heartbeat: later(now, first_delay),
                        ack_pending: false,
                        last_ack: now,
                    },
                )
            },
    {
        if interval_ms == 0 || interval_ms > MAX_HEARTBEAT_INTERVAL_MS {
            return Err(Error::BadHeartbeatInterval(interval_ms));
        }
        Ok(
            HeartbeatState {
                interval: interval_ms * MILLISECOND,
                next_heartbeat: now.saturating_add(first_delay),
                ack_pending: false,
                last_ack: now,
            },
        )
    }

    pub fn interval(&self) -> (r: u64)
        ensures
            r == self.interval,
    {
        self.interval
    }

    /// The longest that we wait for an acknowledgement before declaring the
    /// connection dead.  Also how long READY is waited for.
    pub fn backstop_window(&self) -> (r: u64)
        ensures
            r == self.spec_backstop_window(),
    {
        self.interval.saturating_add(self.interval)
    }

    /// Fails if an acknowledgement has been outstanding for too long.
    pub fn backstop_check(&self, now: u64) -> (r: Result<(), Error>)
        ensures
            r == (if self.backstop_exceeded(now) {
                Err::<(), Error>(Error::ConnectionZombied)
            } else {
                Ok(())
            }),
    {
        if self.ack_pending && now.saturating_sub(self.last_ack) > self.backstop_window() {
            return Err(Error::ConnectionZombied);
        }
        Ok(())
    }

    /// Whether a heartbeat is due.  Fails if the connection is dead.
    pub fn heartbeat_check(&self, now: u64) -> (r: Result<bool, Error>)
        ensures
            r == (if self.zombied(now) {
                Err::<bool, Error>(Error::ConnectionZombied)
            } else {
                Ok(now >= self.next_heartbeat)
            }),
    {
        match self.backstop_check(now) {
            Ok(()) => {},
            Err(e) => {
                return Err(e);
            },
        }
        if now >= self.next_heartbeat {
            if self.ack_pending {
                return Err(Error::ConnectionZombied);
            }
            return Ok(true);
        }
        Ok(false)
    }

    /// The state after an acknowledgement.
    pub open spec fn acked(self, now: u64) -> Self {
        if self.ack_pending {
            HeartbeatState { ack_pending: false, last_ack: now, ..self }
        } else {
            self
        }
    }

    /// Take in an acknowledgement.  One that is not waited for changes
    /// nothing.
    pub fn receive_ack(&mut self, now: u64)
        ensures
            *final(self) == old(self).acked(now),
    {
        if self.ack_pending {
            self.ack_pending = false;
            self.last_ack = now;
        }
    }

    /// How long the next read may take: until the next heartbeat or the
    /// backstop, whichever is sooner, but a millisecond at least.
    pub open spec fn spec_poll_timeout(self, now: u64) -> u64 {
        let heartbeat = at_least_ms(elapsed(now, self.next_heartbeat));
        let backstop = at_least_ms(
            elapsed(elapsed(self.last_ack, now), self.spec_backstop_window()),
        );
        if self.ack_pending && backstop < heartbeat {
            backstop
        } else {
            heartbeat
        }
    }

    /// How long the next read may take.
    pub fn poll_timeout(&self, now: u64) -> (r: u64)
        ensures
            r == self.spec_poll_timeout(now),
    {
        let mut remaining: u64 = self.next_heartbeat.saturating_sub(now);
        if remaining < MILLISECOND {
            remaining = MILLISECOND;
        }
        if self.ack_pending {
            let mut backstop: u64 = self.backstop_window().saturating_sub(
                now.saturating_sub(self.last_ack),
            );
            if backstop < MILLISECOND {
                backstop = MILLISECOND;
            }
            if backstop < remaining {
                remaining = backstop;
            }
        }
        remaining
    }

    /// The state after a heartbeat was sent.
    pub open spec fn after_send(self, now: u64) -> Self {
        HeartbeatState { next_heartbeat: later(now, self.interval), ack_pending: true, ..self }
    }

    /// Take note that a heartbeat was sent.
    pub fn send(&mut self, now: u64)
        ensures
            *final(self) == old(self).after_send(now),
    {
        self.next_heartbeat = now.saturating_add(self.interval);
        self.ack_pending = true;
    }

    /// The heartbeat to send if one is due.  Fails if the connection is dead.
    pub fn send_if_due(&self, sequence: Option<u64>, now: u64) -> (r: Result<Option<String>, Error>)
        ensures
            if self.zombied(now) {
                r == Err::<Option<String>, Error>(Error::ConnectionZombied)
            } else if now >= self.next_heartbeat {
                r matches Ok(Some(text)) && text@ == heartbeat_payload(sequence)
            } else {
                r == Ok::<Option<String>, Error>(None)
            },
    {
        match self.heartbeat_check(now) {
            Err(e) => Err(e),
            Ok(due) => if due {
                Ok(Some(heartbeat_text(sequence)))
            } else {
                Ok(None)
            },
        }
    }

    /// The heartbeat to send because the server asked for one.  Fails if an
    /// acknowledgement has been outstanding for too long.
    pub fn server_requested(&self, sequence: Option<u64>, now: u64) -> (r: Result<String, Error>)
        ensures
            if self.backstop_exceeded(now) {
                r == Err::<String, Error>(Error::ConnectionZombied)
            } else {
                r matches Ok(text) && text@ == heartbeat_payload(sequence)
            },
    {
        match self.backstop_check(now) {
            Err(e) => Err(e),
            Ok(()) => Ok(heartbeat_text(sequence)),
        }
    }
}

/// A wait of a millisecond at least.
pub open spec fn at_least_ms(t: u64) -> u64 {
    if t < MILLISECOND {
        MILLISECOND
    } else {
        t
    }
}

/// A heartbeat that is not acknowledged is noticed: once a whole interval has
/// passed since it was sent, the connection counts as dead.
pub proof fn law_unanswered_heartbeat_is_noticed(h: HeartbeatState, sent: u64, now: u64)
    requires
        now >= later(sent, h.interval),
    ensures
        h.after_send(sent).zombied(now),
{
}

/// An acknowledged heartbeat never counts against the connection.
pub proof fn law_acknowledged_is_alive(h: HeartbeatState, sent: u64, acked: u64, now: u64)
    ensures
        !h.after_send(sent).acked(acked).zombied(now),
{
}

/// Acknowledging twice is acknowledging once.
pub proof fn law_spurious_ack_is_absorbed(h: HeartbeatState, first: u64, second: u64)
    ensures
        h.acked(first).acked(second) == h.acked(first),
{
}

/// A read that waits as long as it may ends, at the latest, when the next
/// decision is due: no later than a millisecond after the next heartbeat, and
/// no later than that after the backstop while an acknowledgement is
/// outstanding.
pub proof fn law_timeout_does_not_overshoot(h: HeartbeatState, now: u64)
    ensures
        h.spec_poll_timeout(now) >= MILLISECOND,
        h.spec_poll_timeout(now) <= at_least_ms(elapsed(now, h.next_heartbeat)),
        h.ack_pending ==> h.spec_poll_timeout(now) <= at_least_ms(
            elapsed(elapsed(h.last_ack, now), h.spec_backstop_window()),
        ),
{
}

} // verus!
