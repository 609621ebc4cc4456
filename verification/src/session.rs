//! Following live playback: the per-track state of a synchronisation session
//! and the decisions taken on each provider poll and scheduler tick.

use crate::effect::{pulse_of, pulse_shape, PulseShape};
use crate::scheduler::TimelineScheduler;
use crate::text::{
    decimal, lowered_trim, lowercase_of, push_chars, push_decimal, string_from, trimmed,
};
use crate::time::{millis_of, Duration, Instant};
use crate::timeline::BeatTimeline;
use crate::tracker::{ingest_step, PlaybackTracker};
use crate::track::{same_track, PlaybackSnapshot, TimelineEvent, TrackIdentity};
use vstd::prelude::*;

verus! {

/// The shortest interval, in milliseconds, at which the provider may be polled.
pub const MIN_POLL_MS: u64 = 1000;

/// Whether a polling interval is allowed (at least a second).
pub fn poll_interval_allowed(interval_ms: u64) -> (b: bool)
    ensures
        b == (interval_ms >= MIN_POLL_MS),
{
    interval_ms >= MIN_POLL_MS
}

/// The text that tells tracks apart: the provider identifier, or else the
/// trimmed, lower-cased artist and title and the duration, one per line.
pub open spec fn track_key_of(t: TrackIdentity) -> Seq<char> {
    match t.provider_id {
        Some(id) => id@,
        None => lowercase_of(trimmed(t.artist@)) + seq!['\n'] + lowercase_of(trimmed(t.title@))
            + seq!['\n'] + decimal(t.duration_ms as nat),
    }
}


/// The text that tells tracks apart.
pub fn track_key(track: &TrackIdentity) -> (k: String)
    ensures
        k@ == track_key_of(*track),
{
    match &track.provider_id {
        Some(id) => id.clone(),
        None => {
            let mut out = lowered_trim(track.artist.as_str());
            out.push('\n');
            let title = lowered_trim(track.title.as_str());
            push_chars(&mut out, title.as_slice());
            out.push('\n');
            push_decimal(&mut out, track.duration_ms);
            string_from(out.as_slice())
        },
    }
}

/// Follow a provider sample taken at `now`: no sample forgets the tracker;
/// the first sample starts one; later samples are ingested. The snapshot the
/// tracker then shows is returned.
pub fn update_tracker(
    tracker: &mut Option<PlaybackTracker>,
    provider_snapshot: Option<&PlaybackSnapshot>,
    now: Instant,
) -> (effective: Option<PlaybackSnapshot>)
    ensures
        provider_snapshot is None ==> *final(tracker) is None && effective is None,
        provider_snapshot matches Some(s) ==> {
            &&& *final(tracker) matches Some(t) && effective matches Some(e) && same_track(
                e.track,
                t.track(),
            ) && e.position@ == t.position_spec(now@) && e.playing == t.clock().running()
            &&& *old(tracker) matches Some(o) ==> (*final(tracker) matches Some(t) && ingest_step(
                o,
                t,
                *s,
                now@,
            ))
            &&& *old(tracker) is None ==> (*final(tracker) matches Some(t) && same_track(
                t.track(),
                s.track,
            ) && t.clock().anchored_position() == s.position@ && t.clock().anchored_at()
                == now@)
        },
{
    match provider_snapshot {
        None => {
            *tracker = None;
            None
        },
        Some(snapshot) => {
            match tracker {
                Some(existing) => {
                    existing.ingest(snapshot, now);
                    Some(existing.snapshot_at(now))
                },
                None => {
                    let fresh = PlaybackTracker::new(snapshot, now);
                    let effective = fresh.snapshot_at(now);
                    *tracker = Some(fresh);
                    Some(effective)
                },
            }
        },
    }
}

/// The playback state of the track being synchronised: its key, tracker,
/// timeline and scheduler.
pub struct SyncTrack {
    track_key: String,
    tracker: PlaybackTracker,
    timeline: BeatTimeline,
    scheduler: TimelineScheduler,
}

/// What a provider poll means for the session.
#[derive(Clone, Copy, Debug, PartialEq, Eq, Structural)]
pub enum PollOutcome {
    /// The same track: the sample was taken into the tracker.
    Followed,
    /// Another track plays; the session needs that track's timeline.
    TrackChanged,
}

/// One event to send, with how early it goes out.
#[derive(Clone, Copy, Debug, PartialEq, Eq, Structural)]
pub struct Release {
    pub event: TimelineEvent,
    pub pulse: PulseShape,
    /// The playback position, in whole milliseconds, at which it was released.
    pub playback_ms: u128,
    /// Whole milliseconds from the playback position to the event (zero when
    /// the event is not ahead).
    pub send_ahead_ms: u128,
}

impl SyncTrack {
    /// The scheduler never points past its timeline.
    pub closed spec fn well_formed(self) -> bool {
        self.scheduler.cursor() <= self.timeline@.len()
    }

    /// The key of the track.
    pub closed spec fn key(self) -> Seq<char> {
        self.track_key@
    }

    /// The tracker of the track.
    pub closed spec fn tracker(self) -> PlaybackTracker {
        self.tracker
    }

    /// The timeline of the track.
    pub closed spec fn timeline(self) -> Seq<TimelineEvent> {
        self.timeline@
    }

    /// The scheduler walking the timeline.
    pub closed spec fn scheduler(self) -> TimelineScheduler {
        self.scheduler
    }

    /// A session for the track of `snapshot` (taken at `now`) and its timeline,
    /// with a default scheduler.
    pub fn new(snapshot: &PlaybackSnapshot, timeline: BeatTimeline, now: Instant) -> (s: SyncTrack)
        ensures
            s.key() == track_key_of(snapshot.track),
            same_track(s.tracker().track(), snapshot.track),
            s.tracker().clock().anchored_position() == snapshot.position@,
            s.tracker().clock().anchored_at() == now@,
            s.timeline() == timeline@,
            !s.scheduler().initialized(),
            s.scheduler().cursor() == 0,
            s.well_formed(),
    {
        SyncTrack {
            track_key: track_key(&snapshot.track),
            tracker: PlaybackTracker::new(snapshot, now),
            timeline,
            scheduler: TimelineScheduler::default(),
        }
    }

    /// Take a provider sample taken at `now`: another track is reported as a
    /// change; the same track's sample goes into the tracker.
    pub fn observe(&mut self, snapshot: &PlaybackSnapshot, now: Instant) -> (o: PollOutcome)
        ensures
            old(self).well_formed() ==> final(self).well_formed(),
            track_key_of(snapshot.track) != old(self).key() ==> o == PollOutcome::TrackChanged
                && *final(self) == *old(self),
            track_key_of(snapshot.track) == old(self).key() ==> o == PollOutcome::Followed
                && final(self).key() == old(self).key() && final(self).timeline() == old(
                self,
            ).timeline() && final(self).scheduler() == old(self).scheduler(),
            track_key_of(snapshot.track) == old(self).key() ==> ingest_step(
                old(self).tracker(),
                final(self).tracker(),
                *snapshot,
                now@,
            ),
    {
        let key = track_key(&snapshot.track);
        if !crate::text::str_eq(key.as_str(), self.track_key.as_str()) {
            return PollOutcome::TrackChanged;
        }
        self.tracker.ingest(snapshot, now);
        PollOutcome::Followed
    }

    /// The events to send at instant `now` to a light with latency
    /// `lead_time`: none while paused, otherwise those the scheduler
    /// releases at the tracker's position, each with its pulse.
    pub fn tick(&mut self, now: Instant, lead_time: Duration) -> (releases: Vec<Release>)
        requires
            old(self).well_formed(),
        ensures
            final(self).well_formed(),
            !old(self).tracker().clock().running() ==> releases@.len() == 0 && *final(self)
                == *old(self),
            old(self).tracker().clock().running() ==> {
                let position = old(self).tracker().position_spec(now@);
                let start = old(self).scheduler().release_start(
                    old(self).timeline(),
                    position,
                    lead_time@,
                );
                let end = old(self).scheduler().release_end(
                    old(self).timeline(),
                    position,
                    lead_time@,
                );
                &&& releases@.len() == end - start
                &&& forall|k: int|
                    0 <= k < releases@.len() ==> {
                        &&& #[trigger] releases@[k].event == old(self).timeline()[start + k]
                        &&& releases@[k].pulse == pulse_of(releases@[k].event)
                        &&& releases@[k].playback_ms == millis_of_nat(position)
                        &&& releases@[k].send_ahead_ms == if millis_of(releases@[k].event.at)
                            >= millis_of_nat(position) {
                            millis_of(releases@[k].event.at) - millis_of_nat(position)
                        } else {
                            0
                        }
                    }
                &&& final(self).scheduler().cursor() == end
                &&& final(self).timeline() == old(self).timeline()
                &&& final(self).key() == old(self).key()
            },
    {
        let snapshot = self.tracker.snapshot_at(now);
        if !snapshot.playing {
            return Vec::new();
        }
        let due = self.scheduler.due_events(&self.timeline, snapshot.position, lead_time);
        let playback_ms = snapshot.position.as_millis();
        let mut releases: Vec<Release> = Vec::new();
        for i in 0..due.len()
            invariant
                releases@.len() == i,
                playback_ms == millis_of_nat(snapshot.position@),
                forall|k: int|
                    0 <= k < i ==> {
                        &&& #[trigger] releases@[k].event == due@[k]
                        &&& releases@[k].pulse == pulse_of(releases@[k].event)
                        &&& releases@[k].playback_ms == playback_ms
                        &&& releases@[k].send_ahead_ms == if millis_of(releases@[k].event.at)
                            >= playback_ms {
                            millis_of(releases@[k].event.at) - playback_ms
                        } else {
                            0
                        }
                    },
        {
            let event = due[i];
            let event_ms = event.at.as_millis();
            let send_ahead_ms = if event_ms >= playback_ms {
                event_ms - playback_ms
            } else {
                0
            };
            releases.push(Release { event, pulse: pulse_shape(&event), playback_ms, send_ahead_ms });
        }
        releases
    }
}

/// Whole milliseconds of `nanos` nanoseconds, rounded down.
pub open spec fn millis_of_nat(nanos: nat) -> nat {
    nanos / (crate::time::NANOS_PER_MILLI as nat)
}

} // verus!
