//! Session tracking: a small state machine that consumes (face, time)
//! observations and emits a completed dwell `Entry` exactly when a transition
//! away from the current face has survived the debounce threshold.
//!
//! The dwell clock is anchored to the last *confirmed* face: an observation of
//! a different face before the clock reaches the threshold changes nothing,
//! however many different faces are seen in the interim. Only once the clock
//! itself reaches the threshold does a differing observation commit the
//! switch, and the whole elapsed time is attributed to the face that was
//! current before the switch.

use vstd::prelude::*;

use crate::orientation::Accel;
use crate::orientation::Side;
use crate::orientation::classify;
use crate::orientation::side_id;
use crate::orientation::side_id_spec;

verus! {

/// Minimum time, in time units, a differing orientation must be sustained
/// before the tracker commits a transition.
pub const DEBOUNCE_THRESHOLD: u64 = 15;

/// A completed dwell interval: the object sat on the face labelled `side`
/// for `duration` time units.
#[derive(Clone, Copy, PartialEq, Eq, Structural, Debug)]
pub struct Entry {
    pub side: u8,
    pub duration: u64,
}

impl Entry {
    /// Record a completed dwell of `duration` time units on face `side`.
    pub fn new(side: Side, duration: u64) -> (r: Self)
        ensures
            r.side == side_id_spec(side),
            r.duration == duration,
    {
        Self { side: side_id(side), duration }
    }
}

/// The dwell interval in progress: which face is currently confirmed and
/// when its session began. Exactly one `Session` exists per tracked object,
/// owned by the sampling loop.
#[derive(Clone, Copy, PartialEq, Eq, Structural, Debug)]
pub struct Session {
    pub current_side: Side,
    pub session_start: u64,
}

/// The entry that observing `side` at time `now` emits from session state
/// `s`: a completed dwell on the previously current face, exactly when `side`
/// differs from it and the elapsed time has reached the debounce threshold.
pub open spec fn observed_entry(s: Session, side: Side, now: u64) -> Option<Entry> {
    if side == s.current_side || now - s.session_start < DEBOUNCE_THRESHOLD {
        None
    } else {
        Some(
            (Entry {
                side: side_id_spec(s.current_side),
                duration: (now - s.session_start) as u64,
            }),
        )
    }
}

/// The session state after observing `side` at time `now` from state `s`:
/// unchanged unless the transition commits, in which case `side` becomes
/// current and its session starts at `now`.
pub open spec fn stepped_session(s: Session, side: Side, now: u64) -> Session {
    if side == s.current_side || now - s.session_start < DEBOUNCE_THRESHOLD {
        s
    } else {
        Session { current_side: side, session_start: now }
    }
}

impl Session {
    /// Begin tracking with `side` confirmed as of time `now`.
    pub fn new(side: Side, now: u64) -> (r: Self)
        ensures
            r.current_side == side,
            r.session_start == now,
    {
        Self { current_side: side, session_start: now }
    }

    /// Feed one definite observation to the tracker. `now` is a monotonic
    /// tick count, so it never precedes the start of the current session.
    ///
    /// Observing the current face, or a differing face before the debounce
    /// threshold has elapsed, changes nothing and emits nothing; a differing
    /// face at or past the threshold emits the completed dwell on the old
    /// face and starts the new session.
    pub fn observe(&mut self, side: Side, now: u64) -> (r: Option<Entry>)
        requires
            old(self).session_start <= now,
        ensures
            r == observed_entry(*old(self), side, now),
            *final(self) == stepped_session(*old(self), side, now),
    {
        if side == self.current_side {
            return None;
        }
        let elapsed = now - self.session_start;
        if elapsed < DEBOUNCE_THRESHOLD {
            return None;
        }
        let entry = Entry::new(self.current_side, elapsed);
        self.current_side = side;
        self.session_start = now;
        Some(entry)
    }

    /// One sampling-task step: classify `sample`, filter an indeterminate
    /// reading as "no observation this tick", and feed a definite face to
    /// the tracker.
    pub fn process_sample(&mut self, sample: &Accel, now: u64) -> (r: Option<Entry>)
        requires
            old(self).session_start <= now,
        ensures
            classify(*sample) is None ==> r is None && *final(self) == *old(self),
            classify(*sample) matches Some(side) ==> r == observed_entry(*old(self), side, now)
                && *final(self) == stepped_session(*old(self), side, now),
    {
        match sample.get_side() {
            Some(side) => self.observe(side, now),
            None => None,
        }
    }
}

/// Every emitted entry carries a duration of at least the debounce threshold:
/// a dwell is committed only once its clock has reached the threshold, and
/// the whole elapsed time is attributed to the face that was current before
/// the switch.
pub proof fn lemma_entry_duration_at_least_debounce(s: Session, side: Side, now: u64)
    requires
        s.session_start <= now,
        observed_entry(s, side, now) is Some,
    ensures
        observed_entry(s, side, now)->Some_0.duration >= DEBOUNCE_THRESHOLD,
        observed_entry(s, side, now)->Some_0.side == side_id_spec(s.current_side),
{
}

/// An observation that commits no transition leaves both the confirmed face
/// and the session clock exactly as they were: transient readings neither
/// reset nor extend the dwell clock.
pub proof fn lemma_debounce_keeps_state(s: Session, side: Side, now: u64)
    requires
        s.session_start <= now,
        observed_entry(s, side, now) is None,
    ensures
        stepped_session(s, side, now) == s,
{
}

} // verus!
