//! A monotonic playback clock anchored to the latest provider snapshot.
//!
//! Providers only give occasional authoritative positions. Between snapshots
//! the clock advances locally on a monotonic clock, so the scheduler is not
//! coupled to network request timing.

use crate::time::{millis_of, sat_add, sat_sub, Duration, Instant, MAX_NANOS};
use crate::track::PlaybackSnapshot;
use vstd::prelude::*;

verus! {

/// A playback position that advances with a monotonic clock while playing.
#[derive(Clone, Copy, Debug)]
pub struct PlaybackClock {
    anchor_position: Duration,
    anchor_instant: Instant,
    playing: bool,
}

/// How far a provider report differed from the clock's prediction.
#[derive(Clone, Copy, Debug, PartialEq, Eq, Structural)]
pub struct ClockCorrection {
    pub predicted_position: Duration,
    pub reported_position: Duration,
    /// reported - predicted, in milliseconds.
    pub drift_ms: i64,
}

/// Whole milliseconds of a span, capped at `i64::MAX`.
pub open spec fn capped_millis(d: Duration) -> int {
    if millis_of(d) > i64::MAX {
        i64::MAX as int
    } else {
        millis_of(d) as int
    }
}

/// The position a clock anchored at `position` at instant `anchor` shows at
/// instant `now`.
pub open spec fn advanced_position(position: nat, anchor: nat, playing: bool, now: nat) -> nat {
    if playing {
        sat_add(position, sat_sub(now, anchor))
    } else {
        position
    }
}

impl PlaybackClock {
    /// The position of the last anchor, in nanoseconds.
    pub closed spec fn anchored_position(self) -> nat {
        self.anchor_position@
    }

    /// The instant of the last anchor, in nanoseconds since the origin.
    pub closed spec fn anchored_at(self) -> nat {
        self.anchor_instant@
    }

    /// Whether the clock runs.
    pub closed spec fn running(self) -> bool {
        self.playing
    }

    /// The position the clock shows at instant `now` (nanoseconds).
    pub open spec fn position_spec(self, now: nat) -> nat {
        advanced_position(self.anchored_position(), self.anchored_at(), self.running(), now)
    }

    /// The anchors never exceed the longest span.
    pub closed spec fn well_formed(self) -> bool {
        self.anchor_position@ <= MAX_NANOS && self.anchor_instant@ <= MAX_NANOS
    }

    /// A clock anchored at the snapshot's position at instant `now`.
    pub fn from_snapshot(snapshot: &PlaybackSnapshot, now: Instant) -> (c: PlaybackClock)
        ensures
            c.anchored_position() == snapshot.position@,
            c.anchored_at() == now@,
            c.running() == snapshot.playing,
            c.well_formed(),
    {
        proof {
            use_type_invariant(&snapshot.position);
            use_type_invariant(&now);
        }
        PlaybackClock {
            anchor_position: snapshot.position,
            anchor_instant: now,
            playing: snapshot.playing,
        }
    }

    /// The position at instant `now`: the anchor plus the time since the
    /// anchor while playing, the anchor alone while paused.
    pub fn position_at(&self, now: Instant) -> (p: Duration)
        ensures
            p@ == self.position_spec(now@),
    {
        if self.playing {
            self.anchor_position.saturating_add(now.saturating_duration_since(self.anchor_instant))
        } else {
            self.anchor_position
        }
    }

    /// Replace the anchor with an authoritative provider snapshot, reporting
    /// how far it was from the prediction.
    pub fn resync(&mut self, snapshot: &PlaybackSnapshot, now: Instant) -> (c: ClockCorrection)
        ensures
            c.predicted_position@ == old(self).position_spec(now@),
            c.reported_position == snapshot.position,
            c.drift_ms == capped_millis(snapshot.position) - capped_millis(c.predicted_position),
            final(self).anchored_position() == snapshot.position@,
            final(self).anchored_at() == now@,
            final(self).running() == snapshot.playing,
            final(self).well_formed(),
    {
        let predicted_position = self.position_at(now);
        let reported_position = snapshot.position;
        let drift_ms = signed_millis(reported_position, predicted_position);
        proof {
            use_type_invariant(&snapshot.position);
            use_type_invariant(&now);
        }
        self.anchor_position = reported_position;
        self.anchor_instant = now;
        self.playing = snapshot.playing;
        ClockCorrection { predicted_position, reported_position, drift_ms }
    }

    /// Whether the clock runs.
    pub fn is_playing(&self) -> (b: bool)
        ensures
            b == self.running(),
    {
        self.playing
    }

    /// A paused clock shows the same position at every instant.
    pub proof fn lemma_paused_clock_holds(self, t1: nat, t2: nat)
        requires
            !self.running(),
        ensures
            self.position_spec(t1) == self.position_spec(t2),
    {
    }

    /// A playing clock never goes backwards as time advances.
    pub proof fn lemma_playing_clock_is_monotonic(self, t1: nat, t2: nat)
        requires
            t1 <= t2,
        ensures
            self.position_spec(t1) <= self.position_spec(t2),
    {
    }

    /// A playing clock advances at exactly the rate of the monotonic clock
    /// (until the longest span is reached).
    pub proof fn lemma_playing_clock_tracks_elapsed(self, elapsed: nat)
        requires
            self.running(),
            self.well_formed(),
            self.anchored_position() + elapsed <= MAX_NANOS,
        ensures
            self.position_spec(self.anchored_at() + elapsed) == self.anchored_position() + elapsed,
    {
    }

    /// Right after a resync at `now`, the clock shows the reported position.
    pub proof fn lemma_resync_adopts_report(self)
        requires
            self.well_formed(),
        ensures
            self.position_spec(self.anchored_at()) == self.anchored_position(),
    {
    }
}

/// `lhs - rhs` in whole milliseconds, each side capped at `i64::MAX`.
fn signed_millis(lhs: Duration, rhs: Duration) -> (d: i64)
    ensures
        d == capped_millis(lhs) - capped_millis(rhs),
{
    let l = lhs.as_millis();
    let r = rhs.as_millis();
    let l: i64 = if l > i64::MAX as u128 { i64::MAX } else { l as i64 };
    let r: i64 = if r > i64::MAX as u128 { i64::MAX } else { r as i64 };
    l - r
}

} // verus!
