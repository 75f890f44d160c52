//! The heartbeat monitor: a connection is probed at a fixed interval and
//! declared dead once its last acknowledgment lies too far back.
//!
//! Times are milliseconds on a clock that never runs backwards.

use vstd::prelude::*;

verus! {

/// Seconds without an acknowledgment that a connection may reach and still
/// count as alive.
pub const HEARTBEAT_TIMEOUT: u64 = 15;

/// Seconds between two probes.
pub const HEARTBEAT_INTERVAL: u64 = 1;

/// Whether a connection is still taken to be there.
#[derive(Clone, Copy, PartialEq, Eq, Structural, Debug)]
pub enum Liveness {
    Alive,
    Dead,
}

/// The last acknowledgment lies more than the timeout back. A clock that
/// reads earlier than the acknowledgment shows no wait at all.
pub open spec fn timed_out(last_ms: int, now_ms: int) -> bool {
    now_ms - last_ms > HEARTBEAT_TIMEOUT * 1000
}

/// Judges a connection at a tick of the probe.
pub fn check(last_heartbeat_at: u64, now_ms: u64) -> (state: Liveness)
    ensures
        state == (if timed_out(last_heartbeat_at as int, now_ms as int) {
            Liveness::Dead
        } else {
            Liveness::Alive
        }),
{
    if now_ms > last_heartbeat_at && now_ms - last_heartbeat_at > HEARTBEAT_TIMEOUT * 1000 {
        Liveness::Dead
    } else {
        Liveness::Alive
    }
}

/// A silent connection is declared dead by the first tick that comes more
/// than the timeout after its last acknowledgment, and by no tick before
/// that. With ticks one interval apart, that tick comes no later than the
/// timeout and one interval after the acknowledgment: the tick before it, at
/// `previous_ms`, was still within the timeout.
pub proof fn silence_is_noticed(last_ms: int, previous_ms: int, now_ms: int)
    requires
        now_ms - previous_ms <= HEARTBEAT_INTERVAL * 1000,
        !timed_out(last_ms, previous_ms),
    ensures
        timed_out(last_ms, now_ms) <==> now_ms - last_ms > 15000,
        now_ms - last_ms <= (HEARTBEAT_TIMEOUT + HEARTBEAT_INTERVAL) * 1000,
{
}

} // verus!
