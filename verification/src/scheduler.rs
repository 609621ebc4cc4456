//! Selects the timeline events that are due to be sent to a lighting backend.
//!
//! `lead_time` is the estimated end-to-end latency of the target light. An
//! event at 10.000 s with a 75 ms lead becomes due when playback reaches
//! 9.925 s. An event whose release time is missed by more than the tolerated
//! lateness is dropped rather than replayed late, and a large jump in the
//! playback position rebases the cursor instead of flushing stale events.

use crate::time::{sat_add, sat_sub, Duration, MAX_NANOS};
use crate::timeline::{sorted_by_at, BeatTimeline};
use crate::track::TimelineEvent;
use vstd::prelude::*;

verus! {

/// Whether moving from `last` to `position` is a jump larger than `threshold`.
pub open spec fn is_seek(last: Option<nat>, position: nat, threshold: nat) -> bool {
    match last {
        None => false,
        Some(prev) => if position >= prev {
            position - prev > threshold
        } else {
            prev - position > threshold
        },
    }
}

/// Whether the event's release time (its position minus the lead), plus the
/// tolerated lateness, already lies before `position`.
pub open spec fn expired(e: TimelineEvent, position: nat, lead: nat, lateness: nat) -> bool {
    sat_add(sat_sub(e.at@, lead), lateness) < position
}

/// The first index at or after `c` whose event has not expired.
pub open spec fn skip_expired(
    events: Seq<TimelineEvent>,
    c: nat,
    position: nat,
    lead: nat,
    lateness: nat,
) -> nat
    decreases events.len() - c,
{
    if c < events.len() && expired(events[c as int], position, lead, lateness) {
        skip_expired(events, c + 1, position, lead, lateness)
    } else {
        c
    }
}

/// The first index at or after `c` whose event lies beyond `horizon`.
pub open spec fn advance_due(events: Seq<TimelineEvent>, c: nat, horizon: nat) -> nat
    decreases events.len() - c,
{
    if c < events.len() && events[c as int].at@ <= horizon {
        advance_due(events, c + 1, horizon)
    } else {
        c
    }
}

/// The number of leading events that lie before `position`, counting from `i`.
pub open spec fn leading_before(events: Seq<TimelineEvent>, i: nat, position: nat) -> nat
    decreases events.len() - i,
{
    if i < events.len() && events[i as int].at@ < position {
        leading_before(events, i + 1, position)
    } else {
        i
    }
}

/// A scheduler that walks a timeline with a cursor.
#[derive(Clone, Copy, Debug)]
pub struct TimelineScheduler {
    cursor: usize,
    last_position: Option<Duration>,
    seek_threshold: Duration,
    max_release_lateness: Duration,
    initialized: bool,
}

/// The view of an optional span.
pub open spec fn opt_nanos(o: Option<Duration>) -> Option<nat> {
    match o {
        Some(d) => Some(d@),
        None => None,
    }
}

impl TimelineScheduler {
    /// Index of the next event to consider.
    pub closed spec fn cursor(self) -> nat {
        self.cursor as nat
    }

    /// The position of the previous call, if any.
    pub closed spec fn last_position(self) -> Option<nat> {
        opt_nanos(self.last_position)
    }

    /// The jump in position beyond which a seek is assumed.
    pub closed spec fn seek_threshold(self) -> nat {
        self.seek_threshold@
    }

    /// How late past its release time an event may still be sent.
    pub closed spec fn lateness(self) -> nat {
        self.max_release_lateness@
    }

    /// Whether the cursor has been placed on a timeline.
    pub closed spec fn initialized(self) -> bool {
        self.initialized
    }

    /// Whether a call at `position` places the cursor afresh.
    pub open spec fn rebases(self, position: nat) -> bool {
        !self.initialized() || is_seek(self.last_position(), position, self.seek_threshold())
    }

    /// The cursor a call at `position` starts from, before dropping expired events.
    pub open spec fn start_cursor(self, events: Seq<TimelineEvent>, position: nat) -> nat {
        if self.rebases(position) {
            leading_before(events, 0, position)
        } else {
            self.cursor()
        }
    }

    /// The index of the first event a call at `position` may send.
    pub open spec fn release_start(
        self,
        events: Seq<TimelineEvent>,
        position: nat,
        lead: nat,
    ) -> nat {
        skip_expired(events, self.start_cursor(events, position), position, lead, self.lateness())
    }

    /// The index one past the last event a call at `position` sends.
    pub open spec fn release_end(
        self,
        events: Seq<TimelineEvent>,
        position: nat,
        lead: nat,
    ) -> nat {
        advance_due(events, self.release_start(events, position, lead), sat_add(position, lead))
    }

    /// A call at `position` on `events` keeps its cursor inside the timeline.
    pub open spec fn can_continue(self, events: Seq<TimelineEvent>, position: nat) -> bool {
        !self.rebases(position) ==> self.cursor() <= events.len()
    }

    /// A scheduler that treats jumps larger than `seek_threshold` as seeks and
    /// tolerates 25 ms of lateness.
    pub fn new(seek_threshold: Duration) -> (s: TimelineScheduler)
        ensures
            s.seek_threshold() == seek_threshold@,
            s.lateness() == 25 * crate::time::NANOS_PER_MILLI,
            !s.initialized(),
            s.cursor() == 0,
            s.last_position() == None::<nat>,
    {
        Self::with_tolerances(seek_threshold, Duration::from_millis(25))
    }

    /// A scheduler with the given seek threshold and tolerated lateness.
    pub fn with_tolerances(seek_threshold: Duration, max_release_lateness: Duration) -> (s:
        TimelineScheduler)
        ensures
            s.seek_threshold() == seek_threshold@,
            s.lateness() == max_release_lateness@,
            !s.initialized(),
            s.cursor() == 0,
            s.last_position() == None::<nat>,
    {
        TimelineScheduler {
            cursor: 0,
            last_position: None,
            seek_threshold,
            max_release_lateness,
            initialized: false,
        }
    }

    /// Forget the cursor and the previous position; the next call places the
    /// cursor afresh.
    pub fn reset(&mut self)
        ensures
            final(self).seek_threshold() == old(self).seek_threshold(),
            final(self).lateness() == old(self).lateness(),
            !final(self).initialized(),
            final(self).cursor() == 0,
            final(self).last_position() == None::<nat>,
    {
        self.cursor = 0;
        self.last_position = None;
        self.initialized = false;
    }

    /// The events to send now, at playback `position`, to a light whose
    /// latency is `lead_time`.
    pub fn due_events(&mut self, timeline: &BeatTimeline, position: Duration, lead_time: Duration)
        -> (due: Vec<TimelineEvent>)
        requires
            old(self).can_continue(timeline@, position@),
        ensures
            ({
                let start = old(self).release_start(timeline@, position@, lead_time@);
                let end = old(self).release_end(timeline@, position@, lead_time@);
                &&& start <= end <= timeline@.len()
                &&& due@ == timeline@.subrange(start as int, end as int)
                &&& final(self).cursor() == end
                &&& !old(self).rebases(position@) ==> start >= old(self).cursor()
            }),
            left_by_call(*final(self), *old(self), timeline@, position@, lead_time@),
            final(self).last_position() == Some(position@),
            final(self).initialized(),
            final(self).seek_threshold() == old(self).seek_threshold(),
            final(self).lateness() == old(self).lateness(),
            sorted_by_at(due@),
            forall|k: int|
                0 <= k < due@.len() ==> #[trigger] due@[k].at@ <= sat_add(position@, lead_time@),
            forall|k: int|
                0 <= k < due@.len() ==> !expired(
                    #[trigger] due@[k],
                    position@,
                    lead_time@,
                    old(self).lateness(),
                ),
            old(self).rebases(position@) ==> forall|k: int|
                0 <= k < due@.len() ==> #[trigger] due@[k].at@ >= position@,
    {
        proof {
            use_type_invariant(timeline);
        }
        let ghost events = timeline@;
        let ghost lateness = self.lateness();
        let ghost c0 = old(self).start_cursor(events, position@);
        if !self.initialized || self.detect_seek(position) {
            let idx = timeline.first_event_at_or_after(position);
            proof {
                lemma_leading_before_is_partition_point(events, 0, idx as nat, position@);
            }
            self.cursor = idx;
            self.initialized = true;
        }
        let horizon = position.saturating_add(lead_time);
        let evs = timeline.events();
        let n = evs.len();
        while self.cursor < n
            invariant_except_break
                self.cursor <= n,
            invariant
                n == events.len(),
                evs@ == events,
                self.max_release_lateness@ == lateness,
                self.max_release_lateness == old(self).max_release_lateness,
                self.initialized,
                self.seek_threshold == old(self).seek_threshold,
                c0 <= self.cursor,
                skip_expired(events, self.cursor as nat, position@, lead_time@, lateness)
                    == skip_expired(events, c0, position@, lead_time@, lateness),
            ensures
                self.cursor <= n,
                self.cursor == skip_expired(
                    events,
                    c0,
                    position@,
                    lead_time@,
                    lateness,
                ),
            decreases n - self.cursor,
        {
            let release_at = evs[self.cursor].at.saturating_sub(lead_time);
            let expires_at = release_at.saturating_add(self.max_release_lateness);
            if expires_at.lt(&position) {
                self.cursor = self.cursor + 1;
            } else {
                break;
            }
        }
        let start = self.cursor;
        let mut due: Vec<TimelineEvent> = Vec::new();
        while self.cursor < n && evs[self.cursor].at.le(&horizon)
            invariant
                n == events.len(),
                evs@ == events,
                start <= self.cursor <= n,
                self.initialized,
                self.seek_threshold == old(self).seek_threshold,
                self.max_release_lateness == old(self).max_release_lateness,
                due@ == events.subrange(start as int, self.cursor as int),
                forall|k: int| start <= k < self.cursor ==> #[trigger] events[k].at@ <= horizon@,
                advance_due(events, self.cursor as nat, horizon@) == advance_due(
                    events,
                    start as nat,
                    horizon@,
                ),
            decreases n - self.cursor,
        {
            due.push(evs[self.cursor]);
            self.cursor = self.cursor + 1;
            proof {
                assert(due@ =~= events.subrange(start as int, self.cursor as int));
            }
        }
        self.last_position = Some(position);
        proof {
            lemma_skip_expired_bounds(events, c0, position@, lead_time@, lateness);
            lemma_due_window(events, start as nat, self.cursor as nat, position@, lead_time@, lateness);
            if old(self).rebases(position@) {
                lemma_leading_before_bounds(events, 0, position@);
                assert forall|k: int| 0 <= k < due@.len() implies #[trigger] due@[k].at@
                    >= position@ by {
                    assert(due@[k] == events[start + k]);
                }
            }
        }
        due
    }

    /// Whether `position` lies further from the previous position than the
    /// seek threshold.
    fn detect_seek(&self, position: Duration) -> (b: bool)
        ensures
            b == is_seek(self.last_position(), position@, self.seek_threshold()),
    {
        match self.last_position {
            None => false,
            Some(previous) => {
                if previous.le(&position) {
                    self.seek_threshold.lt(&position.saturating_sub(previous))
                } else {
                    self.seek_threshold.lt(&previous.saturating_sub(position))
                }
            },
        }
    }
}

impl Default for TimelineScheduler {
    /// A scheduler with a two-second seek threshold.
    fn default() -> (s: TimelineScheduler)
        ensures
            s.seek_threshold() == 2 * crate::time::NANOS_PER_SEC,
            s.lateness() == 25 * crate::time::NANOS_PER_MILLI,
            !s.initialized(),
            s.cursor() == 0,
            s.last_position() == None::<nat>,
    {
        TimelineScheduler::new(Duration::from_secs(2))
    }
}

/// `after` is the scheduler that a call of `due_events` on `events` at
/// `position` with `lead` leaves behind `before`.
pub open spec fn left_by_call(
    after: TimelineScheduler,
    before: TimelineScheduler,
    events: Seq<TimelineEvent>,
    position: nat,
    lead: nat,
) -> bool {
    &&& after.cursor() == before.release_end(events, position, lead)
    &&& after.last_position() == Some(position)
    &&& after.initialized()
    &&& after.seek_threshold() == before.seek_threshold()
    &&& after.lateness() == before.lateness()
}

proof fn lemma_skip_expired_grows(
    events: Seq<TimelineEvent>,
    c: nat,
    position: nat,
    lead: nat,
    lateness: nat,
)
    ensures
        c <= skip_expired(events, c, position, lead, lateness),
    decreases events.len() - c,
{
    if c < events.len() && expired(events[c as int], position, lead, lateness) {
        lemma_skip_expired_grows(events, c + 1, position, lead, lateness);
    }
}

proof fn lemma_advance_due_grows(events: Seq<TimelineEvent>, c: nat, horizon: nat)
    ensures
        c <= advance_due(events, c, horizon),
    decreases events.len() - c,
{
    if c < events.len() && events[c as int].at@ <= horizon {
        lemma_advance_due_grows(events, c + 1, horizon);
    }
}

/// Two calls with no seek between them never release the same event: the
/// events of the second call all come after those of the first.
pub proof fn lemma_no_replay_without_seek(
    before: TimelineScheduler,
    after: TimelineScheduler,
    events: Seq<TimelineEvent>,
    first_position: nat,
    first_lead: nat,
    second_position: nat,
    second_lead: nat,
)
    requires
        left_by_call(after, before, events, first_position, first_lead),
        !is_seek(Some(first_position), second_position, before.seek_threshold()),
    ensures
        before.release_start(events, first_position, first_lead) <= before.release_end(
            events,
            first_position,
            first_lead,
        ),
        before.release_end(events, first_position, first_lead) <= after.release_start(
            events,
            second_position,
            second_lead,
        ),
{
    let start = before.release_start(events, first_position, first_lead);
    lemma_advance_due_grows(events, start, sat_add(first_position, first_lead));
    lemma_skip_expired_grows(
        events,
        after.cursor(),
        second_position,
        second_lead,
        after.lateness(),
    );
}

/// Where the cursor stands before call `i` (counting from zero) of a run of
/// calls on `events`, at `positions`, with `lead` and tolerated lateness
/// `lateness`, started on a fresh (or reset) scheduler with no seek between
/// calls: the first call places it before the first event at or after its
/// position; each later call starts where the previous one ended.
pub open spec fn run_entry(
    events: Seq<TimelineEvent>,
    positions: Seq<nat>,
    lead: nat,
    lateness: nat,
    i: nat,
) -> nat
    decreases i, 0nat,
{
    if i == 0 {
        leading_before(events, 0, positions[0])
    } else {
        run_end(events, positions, lead, lateness, (i - 1) as nat)
    }
}

/// The index of the first event that call `i` of such a run releases.
pub open spec fn run_start(
    events: Seq<TimelineEvent>,
    positions: Seq<nat>,
    lead: nat,
    lateness: nat,
    i: nat,
) -> nat
    decreases i, 1nat,
{
    skip_expired(
        events,
        run_entry(events, positions, lead, lateness, i),
        positions[i as int],
        lead,
        lateness,
    )
}

/// The index one past the last event that call `i` of such a run releases.
pub open spec fn run_end(
    events: Seq<TimelineEvent>,
    positions: Seq<nat>,
    lead: nat,
    lateness: nat,
    i: nat,
) -> nat
    decreases i, 2nat,
{
    advance_due(
        events,
        run_start(events, positions, lead, lateness, i),
        sat_add(positions[i as int], lead),
    )
}

/// `calls[i + 1]` is what call `i`, at `positions[i]`, leaves behind `calls[i]`.
pub open spec fn call_step(
    calls: Seq<TimelineScheduler>,
    events: Seq<TimelineEvent>,
    positions: Seq<nat>,
    lead: nat,
    i: int,
) -> bool {
    left_by_call(calls[i + 1], calls[i], events, positions[i], lead)
}

/// No seek happens between call `i` and call `i + 1`.
pub open spec fn no_seek_after(positions: Seq<nat>, threshold: nat, i: int) -> bool {
    !is_seek(Some(positions[i]), positions[i + 1], threshold)
}

proof fn lemma_call_follows_run(
    calls: Seq<TimelineScheduler>,
    events: Seq<TimelineEvent>,
    positions: Seq<nat>,
    lead: nat,
    i: nat,
)
    requires
        calls.len() == positions.len() + 1,
        i < positions.len(),
        !calls[0].initialized(),
        forall|m: int| 0 <= m < positions.len() ==> #[trigger] call_step(calls, events, positions, lead, m),
        forall|m: int|
            0 <= m < positions.len() - 1 ==> #[trigger] no_seek_after(
                positions,
                calls[0].seek_threshold(),
                m,
            ),
    ensures
        calls[i as int].seek_threshold() == calls[0].seek_threshold(),
        calls[i as int].lateness() == calls[0].lateness(),
        calls[i as int].release_start(events, positions[i as int], lead) == run_start(
            events,
            positions,
            lead,
            calls[0].lateness(),
            i,
        ),
        calls[i as int].release_end(events, positions[i as int], lead) == run_end(
            events,
            positions,
            lead,
            calls[0].lateness(),
            i,
        ),
    decreases i,
{
    if i > 0 {
        let m = (i - 1) as int;
        lemma_call_follows_run(calls, events, positions, lead, (i - 1) as nat);
        assert(call_step(calls, events, positions, lead, m));
        assert(no_seek_after(positions, calls[0].seek_threshold(), m));
    }
}

/// A run of calls on one timeline with one lead, started on a fresh (or
/// reset) scheduler with no seek between calls, releases at call `i` exactly
/// the events from `run_start` to `run_end` of that run.
pub proof fn lemma_calls_follow_run(
    calls: Seq<TimelineScheduler>,
    events: Seq<TimelineEvent>,
    positions: Seq<nat>,
    lead: nat,
)
    requires
        calls.len() == positions.len() + 1,
        !calls[0].initialized(),
        forall|m: int| 0 <= m < positions.len() ==> #[trigger] call_step(calls, events, positions, lead, m),
        forall|m: int|
            0 <= m < positions.len() - 1 ==> #[trigger] no_seek_after(
                positions,
                calls[0].seek_threshold(),
                m,
            ),
    ensures
        forall|i: nat|
            i < positions.len() ==> {
                &&& calls[i as int].release_start(events, positions[i as int], lead) == #[trigger] run_start(
                    events,
                    positions,
                    lead,
                    calls[0].lateness(),
                    i,
                )
                &&& calls[i as int].release_end(events, positions[i as int], lead) == run_end(
                    events,
                    positions,
                    lead,
                    calls[0].lateness(),
                    i,
                )
            },
{
    assert forall|i: nat| i < positions.len() implies {
        &&& calls[i as int].release_start(events, positions[i as int], lead) == #[trigger] run_start(
            events,
            positions,
            lead,
            calls[0].lateness(),
            i,
        )
        &&& calls[i as int].release_end(events, positions[i as int], lead) == run_end(
            events,
            positions,
            lead,
            calls[0].lateness(),
            i,
        )
    } by {
        lemma_call_follows_run(calls, events, positions, lead, i);
    }
}

/// In such a run no event is released twice: each call's events come after
/// those of every earlier call.
pub proof fn lemma_run_never_replays(
    events: Seq<TimelineEvent>,
    positions: Seq<nat>,
    lead: nat,
    lateness: nat,
    i: nat,
    j: nat,
)
    requires
        i < j < positions.len(),
    ensures
        run_start(events, positions, lead, lateness, i) <= run_end(
            events,
            positions,
            lead,
            lateness,
            i,
        ),
        run_end(events, positions, lead, lateness, i) <= run_start(
            events,
            positions,
            lead,
            lateness,
            j,
        ),
    decreases j - i,
{
    lemma_advance_due_grows(
        events,
        run_start(events, positions, lead, lateness, i),
        sat_add(positions[i as int], lead),
    );
    lemma_skip_expired_grows(
        events,
        run_entry(events, positions, lead, lateness, j),
        positions[j as int],
        lead,
        lateness,
    );
    if i + 1 < j {
        let p = (j - 1) as nat;
        lemma_run_never_replays(events, positions, lead, lateness, i, p);
        lemma_advance_due_grows(
            events,
            run_start(events, positions, lead, lateness, p),
            sat_add(positions[p as int], lead),
        );
    }
}

proof fn lemma_leading_before_stops(events: Seq<TimelineEvent>, i: nat, position: nat, k: nat)
    requires
        i <= k < events.len(),
        events[k as int].at@ >= position,
    ensures
        leading_before(events, i, position) <= k,
    decreases k - i,
{
    if i < k && events[i as int].at@ < position {
        lemma_leading_before_stops(events, i + 1, position, k);
    }
}

proof fn lemma_skip_expired_stops(
    events: Seq<TimelineEvent>,
    c: nat,
    position: nat,
    lead: nat,
    lateness: nat,
    k: nat,
)
    requires
        c <= k < events.len(),
        !expired(events[k as int], position, lead, lateness),
    ensures
        skip_expired(events, c, position, lead, lateness) <= k,
    decreases k - c,
{
    if c < k && expired(events[c as int], position, lead, lateness) {
        lemma_skip_expired_stops(events, c + 1, position, lead, lateness, k);
    }
}

proof fn lemma_advance_due_passes(events: Seq<TimelineEvent>, c: nat, horizon: nat, k: nat)
    requires
        sorted_by_at(events),
        c <= k < events.len(),
        events[k as int].at@ <= horizon,
    ensures
        advance_due(events, c, horizon) > k,
    decreases k - c,
{
    assert(events[c as int].at@ <= events[k as int].at@);
    if c < k {
        lemma_advance_due_passes(events, c + 1, horizon, k);
    } else {
        lemma_advance_due_grows(events, c + 1, horizon);
    }
}

proof fn lemma_released_from(
    events: Seq<TimelineEvent>,
    positions: Seq<nat>,
    lead: nat,
    lateness: nat,
    k: nat,
    i: nat,
    j: nat,
)
    requires
        sorted_by_at(events),
        forall|a: int, b: int| 0 <= a <= b < positions.len() ==> positions[a] <= positions[b],
        j <= i < positions.len(),
        k < events.len(),
        run_entry(events, positions, lead, lateness, j) <= k,
        !expired(events[k as int], positions[i as int], lead, lateness),
        events[k as int].at@ <= sat_add(positions[i as int], lead),
    ensures
        exists|m: nat|
            j <= m <= i && #[trigger] run_start(events, positions, lead, lateness, m) <= k
                < run_end(events, positions, lead, lateness, m),
    decreases i - j,
{
    assert(positions[j as int] <= positions[i as int]);
    lemma_skip_expired_stops(
        events,
        run_entry(events, positions, lead, lateness, j),
        positions[j as int],
        lead,
        lateness,
        k,
    );
    let start = run_start(events, positions, lead, lateness, j);
    if run_end(events, positions, lead, lateness, j) > k {
        assert(j <= j <= i && run_start(events, positions, lead, lateness, j) <= k < run_end(
            events,
            positions,
            lead,
            lateness,
            j,
        ));
    } else {
        if j == i {
            lemma_advance_due_passes(events, start, sat_add(positions[i as int], lead), k);
        }
        assert(run_entry(events, positions, lead, lateness, j + 1) == run_end(
            events,
            positions,
            lead,
            lateness,
            j,
        ));
        lemma_released_from(events, positions, lead, lateness, k, i, j + 1);
    }
}

/// In such a run (positions never decreasing), no due event is lost: an
/// event at or after the first position, whose release window (its time
/// minus the lead, up to the tolerated lateness later) holds the position
/// of some call, is released by exactly one call, no later than that one.
pub proof fn lemma_run_never_loses(
    events: Seq<TimelineEvent>,
    positions: Seq<nat>,
    lead: nat,
    lateness: nat,
    k: nat,
    i: nat,
)
    requires
        sorted_by_at(events),
        forall|m: int| 0 <= m < events.len() ==> #[trigger] events[m].at@ <= MAX_NANOS,
        forall|a: int, b: int| 0 <= a <= b < positions.len() ==> positions[a] <= positions[b],
        i < positions.len(),
        k < events.len(),
        events[k as int].at@ >= positions[0],
        sat_sub(events[k as int].at@, lead) <= positions[i as int],
        positions[i as int] <= sat_add(sat_sub(events[k as int].at@, lead), lateness),
    ensures
        exists|j: nat|
            j <= i && #[trigger] run_start(events, positions, lead, lateness, j) <= k < run_end(
                events,
                positions,
                lead,
                lateness,
                j,
            ),
        forall|j1: nat, j2: nat|
            j1 < positions.len() && j2 < positions.len() && #[trigger] run_start(
                events,
                positions,
                lead,
                lateness,
                j1,
            ) <= k < run_end(events, positions, lead, lateness, j1) && #[trigger] run_start(
                events,
                positions,
                lead,
                lateness,
                j2,
            ) <= k < run_end(events, positions, lead, lateness, j2) ==> j1 == j2,
{
    lemma_leading_before_stops(events, 0, positions[0], k);
    assert(events[k as int].at@ <= sat_add(positions[i as int], lead));
    lemma_released_from(events, positions, lead, lateness, k, i, 0);
    assert forall|j1: nat, j2: nat|
        j1 < positions.len() && j2 < positions.len() && #[trigger] run_start(
            events,
            positions,
            lead,
            lateness,
            j1,
        ) <= k < run_end(events, positions, lead, lateness, j1) && #[trigger] run_start(
            events,
            positions,
            lead,
            lateness,
            j2,
        ) <= k < run_end(events, positions, lead, lateness, j2) implies j1 == j2 by {
        if j1 < j2 {
            lemma_run_never_replays(events, positions, lead, lateness, j1, j2);
        } else if j2 < j1 {
            lemma_run_never_replays(events, positions, lead, lateness, j2, j1);
        }
    }
}

proof fn lemma_leading_before_is_partition_point(
    events: Seq<TimelineEvent>,
    i: nat,
    idx: nat,
    position: nat,
)
    requires
        i <= idx <= events.len(),
        forall|j: int| 0 <= j < idx ==> #[trigger] events[j].at@ < position,
        forall|j: int| idx <= j < events.len() ==> #[trigger] events[j].at@ >= position,
    ensures
        leading_before(events, i, position) == idx,
    decreases idx - i,
{
    if i < idx {
        lemma_leading_before_is_partition_point(events, i + 1, idx, position);
    }
}

proof fn lemma_leading_before_bounds(events: Seq<TimelineEvent>, i: nat, position: nat)
    requires
        i <= events.len(),
        sorted_by_at(events),
    ensures
        i <= leading_before(events, i, position) <= events.len(),
        forall|j: int|
            leading_before(events, i, position) <= j < events.len() ==> #[trigger] events[j].at@
                >= position,
    decreases events.len() - i,
{
    if i < events.len() && events[i as int].at@ < position {
        lemma_leading_before_bounds(events, i + 1, position);
    }
}

proof fn lemma_skip_expired_bounds(
    events: Seq<TimelineEvent>,
    c: nat,
    position: nat,
    lead: nat,
    lateness: nat,
)
    requires
        c <= events.len(),
    ensures
        c <= skip_expired(events, c, position, lead, lateness) <= events.len(),
        skip_expired(events, c, position, lead, lateness) < events.len() ==> !expired(
            events[skip_expired(events, c, position, lead, lateness) as int],
            position,
            lead,
            lateness,
        ),
    decreases events.len() - c,
{
    if c < events.len() && expired(events[c as int], position, lead, lateness) {
        lemma_skip_expired_bounds(events, c + 1, position, lead, lateness);
    }
}

/// Every event from `start` up to `advance_due` is within the horizon and,
/// when the first one has not expired, none has.
proof fn lemma_due_window(
    events: Seq<TimelineEvent>,
    start: nat,
    end: nat,
    position: nat,
    lead: nat,
    lateness: nat,
)
    requires
        sorted_by_at(events),
        start <= end <= events.len(),
        forall|k: int| start <= k < end ==> #[trigger] events[k].at@ <= sat_add(position, lead),
        start < events.len() ==> !expired(events[start as int], position, lead, lateness),
    ensures
        forall|k: int| start <= k < end ==> !expired(#[trigger] events[k], position, lead, lateness),
{
    assert forall|k: int| start <= k < end implies !expired(
        #[trigger] events[k],
        position,
        lead,
        lateness,
    ) by {
        assert(events[start as int].at@ <= events[k].at@);
    }
}

} // verus!
