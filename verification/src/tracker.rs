//! A smooth local playback position from intermittent provider samples.
//!
//! Some providers return the same progress value repeatedly while playback
//! continues. Re-anchoring to such a repeated sample on every poll would
//! freeze the clock, so identical stale samples are ignored, while real
//! progress corrections, seeks, pauses, resumes and track changes are taken.

use crate::clock::{capped_millis, ClockCorrection, PlaybackClock};
use crate::time::{Duration, Instant};
use crate::track::{same_track, track_length, PlaybackSnapshot, TrackIdentity};
use vstd::prelude::*;

verus! {

/// A playback tracker: the current track, its clock and the last sample.
#[derive(Clone, Debug)]
pub struct PlaybackTracker {
    track: TrackIdentity,
    clock: PlaybackClock,
    last_provider_position: Duration,
    last_provider_playing: bool,
}

/// What one provider sample did to the tracker.
#[derive(Clone, Copy, Debug, PartialEq, Eq, Structural)]
pub enum PlaybackUpdate {
    Initialized,
    StaleSample,
    Corrected(ClockCorrection),
    PlaybackStateChanged(ClockCorrection),
    TrackChanged,
}

/// `c` records the move of `clock` to the report in `snapshot` at `now`.
pub open spec fn corrects(
    c: ClockCorrection,
    clock: PlaybackClock,
    snapshot: PlaybackSnapshot,
    now: nat,
) -> bool {
    &&& c.predicted_position@ == clock.position_spec(now)
    &&& c.reported_position == snapshot.position
    &&& c.drift_ms == capped_millis(snapshot.position) - capped_millis(c.predicted_position)
}

/// `clock` is anchored at the report in `snapshot` at instant `now`.
pub open spec fn anchored_to(clock: PlaybackClock, snapshot: PlaybackSnapshot, now: nat) -> bool {
    &&& clock.anchored_position() == snapshot.position@
    &&& clock.anchored_at() == now
    &&& clock.running() == snapshot.playing
    &&& clock.well_formed()
}

/// `after` is what taking `snapshot` at instant `now` makes of `before`: a
/// new track is followed from the snapshot; a change between playing and
/// paused, or a new position, re-anchors the clock to it; a sample equal to
/// the last one taken leaves the tracker as it was.
pub open spec fn ingest_step(
    before: PlaybackTracker,
    after: PlaybackTracker,
    snapshot: PlaybackSnapshot,
    now: nat,
) -> bool {
    if !same_track(snapshot.track, before.track()) {
        &&& same_track(after.track(), snapshot.track)
        &&& anchored_to(after.clock(), snapshot, now)
        &&& after.last_reported() == snapshot.position@
        &&& after.last_playing() == snapshot.playing
    } else if snapshot.playing != before.last_playing() || snapshot.position@
        != before.last_reported() {
        &&& after.track() == before.track()
        &&& anchored_to(after.clock(), snapshot, now)
        &&& after.last_reported() == snapshot.position@
        &&& after.last_playing() == snapshot.playing
    } else {
        after == before
    }
}

/// The smaller of two naturals.
pub open spec fn min_nat(a: nat, b: nat) -> nat {
    if a <= b {
        a
    } else {
        b
    }
}

impl PlaybackTracker {
    /// The track being followed.
    pub closed spec fn track(self) -> TrackIdentity {
        self.track
    }

    /// The clock of the track.
    pub closed spec fn clock(self) -> PlaybackClock {
        self.clock
    }

    /// The position of the last sample taken.
    pub closed spec fn last_reported(self) -> nat {
        self.last_provider_position@
    }

    /// Whether the last sample taken was playing.
    pub closed spec fn last_playing(self) -> bool {
        self.last_provider_playing
    }

    /// The position shown at instant `now`: the clock's, capped at the
    /// track's duration.
    pub open spec fn position_spec(self, now: nat) -> nat {
        min_nat(self.clock().position_spec(now), track_length(self.track()))
    }

    /// A tracker that starts from `snapshot`, taken at instant `now`.
    pub fn new(snapshot: &PlaybackSnapshot, now: Instant) -> (t: PlaybackTracker)
        ensures
            same_track(t.track(), snapshot.track),
            anchored_to(t.clock(), *snapshot, now@),
            t.last_reported() == snapshot.position@,
            t.last_playing() == snapshot.playing,
    {
        PlaybackTracker {
            track: snapshot.track.duplicate(),
            clock: PlaybackClock::from_snapshot(snapshot, now),
            last_provider_position: snapshot.position,
            last_provider_playing: snapshot.playing,
        }
    }

    /// Take one provider sample, taken at instant `now`.
    ///
    /// A new track resets the anchor; a change between playing and paused
    /// re-anchors; a sample whose position equals the last one taken is stale
    /// and ignored; any other sample corrects the clock.
    pub fn ingest(&mut self, snapshot: &PlaybackSnapshot, now: Instant) -> (u: PlaybackUpdate)
        ensures
            ingest_step(*old(self), *final(self), *snapshot, now@),
            !same_track(snapshot.track, old(self).track()) ==> {
                &&& u == PlaybackUpdate::TrackChanged
                &&& same_track(final(self).track(), snapshot.track)
                &&& anchored_to(final(self).clock(), *snapshot, now@)
                &&& final(self).last_reported() == snapshot.position@
                &&& final(self).last_playing() == snapshot.playing
            },
            same_track(snapshot.track, old(self).track()) && snapshot.playing != old(
                self,
            ).last_playing() ==> {
                &&& u matches PlaybackUpdate::PlaybackStateChanged(c) && corrects(
                    c,
                    old(self).clock(),
                    *snapshot,
                    now@,
                )
                &&& final(self).track() == old(self).track()
                &&& anchored_to(final(self).clock(), *snapshot, now@)
                &&& final(self).last_reported() == snapshot.position@
                &&& final(self).last_playing() == snapshot.playing
            },
            same_track(snapshot.track, old(self).track()) && snapshot.playing == old(
                self,
            ).last_playing() && snapshot.position@ == old(self).last_reported() ==> {
                &&& u == PlaybackUpdate::StaleSample
                &&& *final(self) == *old(self)
            },
            same_track(snapshot.track, old(self).track()) && snapshot.playing == old(
                self,
            ).last_playing() && snapshot.position@ != old(self).last_reported() ==> {
                &&& u matches PlaybackUpdate::Corrected(c) && corrects(
                    c,
                    old(self).clock(),
                    *snapshot,
                    now@,
                )
                &&& final(self).track() == old(self).track()
                &&& anchored_to(final(self).clock(), *snapshot, now@)
                &&& final(self).last_reported() == snapshot.position@
                &&& final(self).last_playing() == snapshot.playing
            },
            u != PlaybackUpdate::StaleSample ==> final(self).position_spec(now@) == min_nat(
                snapshot.position@,
                track_length(snapshot.track),
            ),
    {
        if !snapshot.track.same_as(&self.track) {
            self.track = snapshot.track.duplicate();
            self.clock = PlaybackClock::from_snapshot(snapshot, now);
            self.last_provider_position = snapshot.position;
            self.last_provider_playing = snapshot.playing;
            return PlaybackUpdate::TrackChanged;
        }
        if snapshot.playing != self.last_provider_playing {
            let correction = self.clock.resync(snapshot, now);
            self.last_provider_position = snapshot.position;
            self.last_provider_playing = snapshot.playing;
            return PlaybackUpdate::PlaybackStateChanged(correction);
        }
        proof {
            Duration::lemma_view_injective(snapshot.position, self.last_provider_position);
        }
        if snapshot.position == self.last_provider_position {
            return PlaybackUpdate::StaleSample;
        }
        let correction = self.clock.resync(snapshot, now);
        self.last_provider_position = snapshot.position;
        self.last_provider_playing = snapshot.playing;
        PlaybackUpdate::Corrected(correction)
    }

    /// The snapshot the tracker shows at instant `now`: the clock's position,
    /// capped at the track's duration.
    pub fn snapshot_at(&self, now: Instant) -> (s: PlaybackSnapshot)
        ensures
            same_track(s.track, self.track()),
            s.position@ == self.position_spec(now@),
            s.position@ <= track_length(self.track()),
            s.playing == self.clock().running(),
    {
        let duration = Duration::from_millis(self.track.duration_ms);
        PlaybackSnapshot {
            track: self.track.duplicate(),
            position: self.clock.position_at(now).min(duration),
            playing: self.clock.is_playing(),
        }
    }
}

} // verus!
