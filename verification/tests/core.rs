use phosyncra::clock::PlaybackClock;
use phosyncra::effect::pulse_shape;
use phosyncra::scheduler::TimelineScheduler;
use phosyncra::session::{track_key, update_tracker, PollOutcome, SyncTrack};
use phosyncra::time::{Duration, Instant};
use phosyncra::timeline::BeatTimeline;
use phosyncra::track::{PlaybackSnapshot, TimelineEvent, TimelineEventKind, TrackIdentity};
use phosyncra::tracker::{PlaybackTracker, PlaybackUpdate};

fn start() -> Instant {
    Instant::from_origin(Duration::from_secs(1_000))
}

fn bpm_grid(duration: Duration, bpm: f64) -> BeatTimeline {
    let nanos = (60.0 / bpm * 1e9).round() as u128;
    BeatTimeline::from_interval(duration, Duration::from_nanos(nanos))
}

fn snapshot(position_ms: u64, playing: bool) -> PlaybackSnapshot {
    PlaybackSnapshot {
        track: TrackIdentity {
            title: "Test".into(),
            artist: "Phosyncra".into(),
            duration_ms: 180_000,
            isrc: None,
            provider_id: Some("test:track".into()),
        },
        position: Duration::from_millis(position_ms),
        playing,
    }
}

fn track_snapshot(track: &str, position_ms: u64, playing: bool) -> PlaybackSnapshot {
    PlaybackSnapshot {
        track: TrackIdentity {
            title: track.into(),
            artist: "Test Artist".into(),
            duration_ms: 300_000,
            isrc: None,
            provider_id: Some(format!("test:{track}")),
        },
        position: Duration::from_millis(position_ms),
        playing,
    }
}

#[test]
fn playing_clock_advances_monotonically() {
    let t0 = start();
    let clock = PlaybackClock::from_snapshot(&snapshot(1_000, true), t0);

    assert_eq!(
        clock.position_at(t0.plus(Duration::from_millis(250))),
        Duration::from_millis(1_250)
    );
}

#[test]
fn paused_clock_does_not_advance() {
    let t0 = start();
    let clock = PlaybackClock::from_snapshot(&snapshot(5_000, false), t0);

    assert_eq!(
        clock.position_at(t0.plus(Duration::from_secs(30))),
        Duration::from_millis(5_000)
    );
}

#[test]
fn resync_reports_provider_drift() {
    let t0 = start();
    let mut clock = PlaybackClock::from_snapshot(&snapshot(1_000, true), t0);
    let correction = clock.resync(&snapshot(1_300, true), t0.plus(Duration::from_millis(250)));

    assert_eq!(correction.predicted_position, Duration::from_millis(1_250));
    assert_eq!(correction.drift_ms, 50);
}

#[test]
fn resync_adopts_reported_position_and_reports_negative_drift() {
    let t0 = start();
    let mut clock = PlaybackClock::from_snapshot(&snapshot(10_000, true), t0);
    let now = t0.plus(Duration::from_secs(1));
    let correction = clock.resync(&snapshot(10_400, false), now);
    assert_eq!(correction.drift_ms, -600);
    assert_eq!(correction.reported_position, Duration::from_millis(10_400));
    assert_eq!(clock.position_at(now), Duration::from_millis(10_400));
    assert!(!clock.is_playing());
    assert_eq!(clock.position_at(now.plus(Duration::from_secs(9))), Duration::from_millis(10_400));
}

#[test]
fn clock_before_anchor_shows_anchor() {
    let t0 = start();
    let clock = PlaybackClock::from_snapshot(&snapshot(2_000, true), t0.plus(Duration::from_secs(5)));
    assert_eq!(clock.position_at(t0), Duration::from_millis(2_000));
}

#[test]
fn event_strength_controls_brightness() {
    let state = pulse_shape(&TimelineEvent {
        at: Duration::zero(),
        kind: TimelineEventKind::Beat,
        strength_milli: 700,
    });

    assert!((state.brightness_milli as f32 / 1000.0 - 0.7).abs() < f32::EPSILON);
}

#[test]
fn pulse_shapes_by_kind() {
    let down = pulse_shape(&TimelineEvent {
        at: Duration::zero(),
        kind: TimelineEventKind::Downbeat,
        strength_milli: 1_500,
    });
    assert_eq!(down.brightness_milli, 1_000);
    assert_eq!(down.hue_offset_degrees, 0);
    assert_eq!(down.transition, Duration::from_millis(45));
    let section = pulse_shape(&TimelineEvent {
        at: Duration::zero(),
        kind: TimelineEventKind::Section,
        strength_milli: 200,
    });
    assert_eq!(section.hue_offset_degrees, 180);
    assert_eq!(section.transition, Duration::from_millis(180));
    let beat = pulse_shape(&TimelineEvent {
        at: Duration::zero(),
        kind: TimelineEventKind::Beat,
        strength_milli: 200,
    });
    assert_eq!(beat.hue_offset_degrees, 32);
    assert_eq!(beat.transition, Duration::from_millis(80));
}

#[test]
fn generates_expected_120_bpm_grid() {
    let timeline = bpm_grid(Duration::from_secs(2), 120.0);
    let positions: Vec<_> = timeline.events().iter().map(|event| event.at.as_millis()).collect();

    assert_eq!(positions, vec![0, 500, 1_000, 1_500]);
    assert_eq!(timeline.events()[0].kind, TimelineEventKind::Downbeat);
}

#[test]
fn grid_marks_every_fourth_beat_as_downbeat() {
    let timeline = BeatTimeline::from_interval(Duration::from_millis(2_100), Duration::from_millis(250));
    assert_eq!(timeline.len(), 9);
    let kinds: Vec<_> = timeline.events().iter().map(|e| e.kind).collect();
    assert_eq!(kinds[0], TimelineEventKind::Downbeat);
    assert_eq!(kinds[1], TimelineEventKind::Beat);
    assert_eq!(kinds[4], TimelineEventKind::Downbeat);
    assert_eq!(kinds[8], TimelineEventKind::Downbeat);
    assert_eq!(timeline.events()[3].strength_milli, 700);
    assert_eq!(timeline.events()[4].strength_milli, 1_000);
    assert!(BeatTimeline::from_interval(Duration::zero(), Duration::from_millis(1)).is_empty());
}

#[test]
fn sorts_imported_events() {
    let timeline = BeatTimeline::new(vec![
        TimelineEvent {
            at: Duration::from_secs(2),
            kind: TimelineEventKind::Beat,
            strength_milli: 500,
        },
        TimelineEvent {
            at: Duration::from_secs(1),
            kind: TimelineEventKind::Beat,
            strength_milli: 500,
        },
    ]);

    assert_eq!(timeline.events()[0].at, Duration::from_secs(1));
}

#[test]
fn sorting_keeps_order_of_equal_positions() {
    let event = |ms: u64, strength: u16| TimelineEvent {
        at: Duration::from_millis(ms),
        kind: TimelineEventKind::Beat,
        strength_milli: strength,
    };
    let timeline = BeatTimeline::new(vec![event(300, 1), event(100, 2), event(300, 3), event(100, 4), event(200, 5)]);
    let strengths: Vec<_> = timeline.events().iter().map(|e| e.strength_milli).collect();
    assert_eq!(strengths, vec![2, 4, 5, 1, 3]);
    assert_eq!(timeline.first_event_at_or_after(Duration::from_millis(200)), 2);
    assert_eq!(timeline.first_event_at_or_after(Duration::from_millis(250)), 3);
    assert_eq!(timeline.first_event_at_or_after(Duration::from_millis(301)), 5);
    assert_eq!(timeline.first_event_at_or_after(Duration::zero()), 0);
}

#[test]
fn lead_time_releases_event_before_its_timestamp() {
    let timeline = bpm_grid(Duration::from_secs(2), 120.0);
    let mut scheduler = TimelineScheduler::default();

    // Consume the downbeat at zero.
    assert_eq!(scheduler.due_events(&timeline, Duration::zero(), Duration::zero()).len(), 1);

    assert!(scheduler
        .due_events(&timeline, Duration::from_millis(424), Duration::from_millis(75))
        .is_empty());

    let due = scheduler.due_events(&timeline, Duration::from_millis(425), Duration::from_millis(75));
    assert_eq!(due.len(), 1);
    assert_eq!(due[0].at, Duration::from_millis(500));
}

#[test]
fn correction_jump_drops_expired_release_times_instead_of_flushing_them() {
    let timeline = bpm_grid(Duration::from_secs(20), 120.0);
    let mut scheduler = TimelineScheduler::default();
    let lead = Duration::from_millis(75);

    assert!(scheduler.due_events(&timeline, Duration::from_millis(8_400), lead).is_empty());

    // A 1.5 s jump is below the seek threshold, but beats whose intended
    // release times are already missed must still be discarded.
    let due = scheduler.due_events(&timeline, Duration::from_millis(9_900), lead);
    assert!(due.is_empty());

    // The next beat at 10.0 s becomes due at 9.925 s and is still emitted.
    let due = scheduler.due_events(&timeline, Duration::from_millis(9_925), lead);
    assert_eq!(due.len(), 1);
    assert_eq!(due[0].at, Duration::from_secs(10));
}

#[test]
fn small_scheduler_lateness_is_tolerated() {
    let timeline = bpm_grid(Duration::from_secs(2), 120.0);
    let mut scheduler =
        TimelineScheduler::with_tolerances(Duration::from_secs(2), Duration::from_millis(25));

    scheduler.due_events(&timeline, Duration::zero(), Duration::zero());

    // The 500 ms event wants to be released at 425 ms with a 75 ms lead.
    // At 450 ms it is exactly 25 ms late and is still allowed.
    let due = scheduler.due_events(&timeline, Duration::from_millis(450), Duration::from_millis(75));
    assert_eq!(due.len(), 1);
    assert_eq!(due[0].at, Duration::from_millis(500));
}

#[test]
fn release_later_than_tolerance_is_dropped() {
    let timeline = bpm_grid(Duration::from_secs(2), 120.0);
    let mut scheduler =
        TimelineScheduler::with_tolerances(Duration::from_secs(2), Duration::from_millis(25));

    scheduler.due_events(&timeline, Duration::zero(), Duration::zero());

    let due = scheduler.due_events(&timeline, Duration::from_millis(451), Duration::from_millis(75));
    assert!(due.is_empty());
}

#[test]
fn large_forward_seek_does_not_flush_old_events() {
    let timeline = bpm_grid(Duration::from_secs(20), 120.0);
    let mut scheduler = TimelineScheduler::new(Duration::from_secs(1));

    scheduler.due_events(&timeline, Duration::zero(), Duration::zero());
    let due = scheduler.due_events(&timeline, Duration::from_secs(10), Duration::from_millis(75));

    assert!(due.iter().all(|event| event.at >= Duration::from_secs(10)));
}

#[test]
fn backward_seek_rebases_cursor() {
    let timeline = bpm_grid(Duration::from_secs(20), 120.0);
    let mut scheduler = TimelineScheduler::new(Duration::from_secs(1));

    scheduler.due_events(&timeline, Duration::from_secs(8), Duration::zero());
    let due = scheduler.due_events(&timeline, Duration::from_secs(2), Duration::zero());

    assert_eq!(due.len(), 1);
    assert_eq!(due[0].at, Duration::from_secs(2));
}

#[test]
fn consecutive_ticks_never_replay_an_event() {
    let timeline = bpm_grid(Duration::from_secs(4), 120.0);
    let mut scheduler = TimelineScheduler::default();
    let lead = Duration::from_millis(75);
    let mut seen = Vec::new();
    for ms in (0..4_000u64).step_by(10) {
        for event in scheduler.due_events(&timeline, Duration::from_millis(ms), lead) {
            assert!(!seen.contains(&event.at));
            seen.push(event.at);
        }
    }
    assert_eq!(seen.len(), 8);
}

#[test]
fn reset_places_the_cursor_afresh() {
    let timeline = bpm_grid(Duration::from_secs(4), 120.0);
    let mut scheduler = TimelineScheduler::default();
    assert_eq!(scheduler.due_events(&timeline, Duration::from_millis(1_000), Duration::zero()).len(), 1);
    scheduler.reset();
    let due = scheduler.due_events(&timeline, Duration::from_millis(1_000), Duration::zero());
    assert_eq!(due.len(), 1);
    assert_eq!(due[0].at, Duration::from_millis(1_000));
}

#[test]
fn repeated_playing_sample_does_not_freeze_clock() {
    let t0 = start();
    let initial = track_snapshot("Track A", 23_300, true);
    let mut tracker = PlaybackTracker::new(&initial, t0);

    let t1 = t0.plus(Duration::from_secs(2));
    let update = tracker.ingest(&initial, t1);

    assert_eq!(update, PlaybackUpdate::StaleSample);
    assert_eq!(tracker.snapshot_at(t1).position, Duration::from_millis(25_300));
}

#[test]
fn fresh_progress_sample_corrects_clock() {
    let t0 = start();
    let mut tracker = PlaybackTracker::new(&track_snapshot("Track A", 10_000, true), t0);

    let t1 = t0.plus(Duration::from_secs(2));
    let update = tracker.ingest(&track_snapshot("Track A", 12_250, true), t1);

    let PlaybackUpdate::Corrected(correction) = update else {
        panic!("expected correction");
    };
    assert_eq!(correction.drift_ms, 250);
    assert_eq!(tracker.snapshot_at(t1).position, Duration::from_millis(12_250));
}

#[test]
fn pause_reanchors_immediately() {
    let t0 = start();
    let mut tracker = PlaybackTracker::new(&track_snapshot("Track A", 10_000, true), t0);

    let t1 = t0.plus(Duration::from_secs(2));
    let update = tracker.ingest(&track_snapshot("Track A", 11_500, false), t1);

    assert!(matches!(update, PlaybackUpdate::PlaybackStateChanged(_)));
    assert_eq!(
        tracker.snapshot_at(t1.plus(Duration::from_secs(5))).position,
        Duration::from_millis(11_500)
    );
}

#[test]
fn track_change_resets_anchor() {
    let t0 = start();
    let mut tracker = PlaybackTracker::new(&track_snapshot("Track A", 50_000, true), t0);

    let t1 = t0.plus(Duration::from_secs(1));
    let update = tracker.ingest(&track_snapshot("Track B", 1_000, true), t1);

    assert_eq!(update, PlaybackUpdate::TrackChanged);
    assert_eq!(tracker.snapshot_at(t1).position, Duration::from_millis(1_000));
    assert_eq!(tracker.snapshot_at(t1).track.title, "Track B");
}

#[test]
fn tracker_position_never_passes_track_duration() {
    let t0 = start();
    let tracker = PlaybackTracker::new(&track_snapshot("Track A", 299_000, true), t0);
    let later = tracker.snapshot_at(t0.plus(Duration::from_secs(10)));
    assert_eq!(later.position, Duration::from_millis(300_000));
    assert!(later.playing);
}

#[test]
fn track_key_prefers_provider_identifier() {
    let with_id = track_snapshot("Track A", 0, true).track;
    assert_eq!(track_key(&with_id), "test:Track A");
    let mut without = with_id.clone();
    without.provider_id = None;
    without.artist = "  Test ARTIST ".into();
    assert_eq!(track_key(&without), "test artist\ntrack a\n300000");
}

#[test]
fn update_tracker_follows_and_forgets() {
    let t0 = start();
    let mut tracker = None;
    let first = track_snapshot("Track A", 1_000, true);
    let shown = update_tracker(&mut tracker, Some(&first), t0).unwrap();
    assert_eq!(shown.position, Duration::from_millis(1_000));
    let t1 = t0.plus(Duration::from_secs(3));
    let shown = update_tracker(&mut tracker, Some(&first), t1).unwrap();
    assert_eq!(shown.position, Duration::from_millis(4_000));
    assert!(update_tracker(&mut tracker, None, t1).is_none());
    assert!(tracker.is_none());
}

#[test]
fn sync_track_ticks_release_pulses() {
    let t0 = start();
    let snap = track_snapshot("Track A", 0, true);
    let timeline = bpm_grid(Duration::from_secs(2), 120.0);
    let mut sync = SyncTrack::new(&snap, timeline, t0);
    let first = sync.tick(t0, Duration::from_millis(75));
    assert_eq!(first.len(), 1);
    assert_eq!(first[0].send_ahead_ms, 0);
    let second = sync.tick(t0.plus(Duration::from_millis(430)), Duration::from_millis(75));
    assert_eq!(second.len(), 1);
    assert_eq!(second[0].event.at, Duration::from_millis(500));
    assert_eq!(second[0].send_ahead_ms, 70);
    assert_eq!(second[0].playback_ms, 430);
    assert_eq!(second[0].pulse.brightness_milli, 700);
    assert_eq!(sync.observe(&track_snapshot("Track B", 0, true), t0), PollOutcome::TrackChanged);
    assert_eq!(sync.observe(&track_snapshot("Track A", 600, false), t0.plus(Duration::from_millis(600))), PollOutcome::Followed);
    assert!(sync.tick(t0.plus(Duration::from_secs(1)), Duration::from_millis(75)).is_empty());
}
