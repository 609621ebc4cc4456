//! Beat timelines: events kept in order of their position in the track.

use crate::time::{Duration, MAX_NANOS};
use crate::track::{TimelineEvent, TimelineEventKind};
use vstd::multiset::Multiset;
use vstd::prelude::*;

verus! {

broadcast use vstd::seq_lib::to_multiset_build;

/// Events appear in order of position.
pub open spec fn sorted_by_at(s: Seq<TimelineEvent>) -> bool {
    forall|i: int, j: int| 0 <= i <= j < s.len() ==> s[i].at@ <= s[j].at@
}

/// `e` placed into `s` after every event of `s` that is no later than `e`
/// when scanning back from the end; events at equal positions keep their
/// order of arrival.
pub open spec fn insert_by_at(s: Seq<TimelineEvent>, e: TimelineEvent) -> Seq<TimelineEvent>
    decreases s.len(),
{
    if s.len() == 0 {
        seq![e]
    } else if s.last().at@ <= e.at@ {
        s.push(e)
    } else {
        insert_by_at(s.drop_last(), e).push(s.last())
    }
}

/// The stable sort of `s` by position: events at equal positions keep
/// their order in `s`.
pub open spec fn sort_by_at(s: Seq<TimelineEvent>) -> Seq<TimelineEvent>
    decreases s.len(),
{
    if s.len() == 0 {
        s
    } else {
        insert_by_at(sort_by_at(s.drop_last()), s.last())
    }
}

/// The index at which `insert_by_at` places `e` into `s`.
pub open spec fn insertion_point(s: Seq<TimelineEvent>, e: TimelineEvent) -> nat
    decreases s.len(),
{
    if s.len() == 0 {
        0
    } else if s.last().at@ <= e.at@ {
        s.len()
    } else {
        insertion_point(s.drop_last(), e)
    }
}

/// The kind of the `k`-th event of a quarter-note grid: every fourth beat,
/// starting with the first, is a downbeat.
pub open spec fn grid_kind(k: int) -> TimelineEventKind {
    if k % 4 == 0 {
        TimelineEventKind::Downbeat
    } else {
        TimelineEventKind::Beat
    }
}

/// The strength of the `k`-th event of a quarter-note grid.
pub open spec fn grid_strength(k: int) -> u16 {
    if k % 4 == 0 {
        1_000
    } else {
        700
    }
}

proof fn lemma_insertion_point_bound(s: Seq<TimelineEvent>, e: TimelineEvent)
    ensures
        insertion_point(s, e) <= s.len(),
        insert_by_at(s, e) =~= s.take(insertion_point(s, e) as int).push(e) + s.skip(
            insertion_point(s, e) as int,
        ),
    decreases s.len(),
{
    if s.len() > 0 && s.last().at@ > e.at@ {
        lemma_insertion_point_bound(s.drop_last(), e);
        let p = insertion_point(s, e) as int;
        assert(s.drop_last().take(p) =~= s.take(p));
        assert(s.drop_last().skip(p).push(s.last()) =~= s.skip(p));
    }
}

/// Inserting into a sorted sequence keeps it sorted.
pub proof fn lemma_insert_keeps_sorted(s: Seq<TimelineEvent>, e: TimelineEvent)
    requires
        sorted_by_at(s),
    ensures
        sorted_by_at(insert_by_at(s, e)),
        insert_by_at(s, e).len() == s.len() + 1,
        s.len() > 0 && s.last().at@ > e.at@ ==> insert_by_at(s, e).last() == s.last(),
        s.len() == 0 || s.last().at@ <= e.at@ ==> insert_by_at(s, e).last() == e,
    decreases s.len(),
{
    if s.len() > 0 && s.last().at@ > e.at@ {
        let t = s.drop_last();
        lemma_insert_keeps_sorted(t, e);
        let r = insert_by_at(t, e);
        assert(forall|i: int| 0 <= i < r.len() ==> r[i].at@ <= s.last().at@) by {
            assert forall|i: int| 0 <= i < r.len() implies r[i].at@ <= s.last().at@ by {
                lemma_insertion_point_bound(t, e);
                let p = insertion_point(t, e) as int;
                if i < p {
                    assert(r[i] == t[i]);
                } else if i == p {
                    assert(r[i] == e);
                } else {
                    assert(r[i] == t[i - 1]);
                }
            }
        }
    }
}

/// Inserting adds exactly the inserted event to the multiset of events.
pub proof fn lemma_insert_multiset(s: Seq<TimelineEvent>, e: TimelineEvent)
    ensures
        insert_by_at(s, e).to_multiset() =~= s.to_multiset().insert(e),
    decreases s.len(),
{
    broadcast use vstd::multiset::group_multiset_axioms;
    broadcast use vstd::seq_lib::group_seq_properties;

    if s.len() == 0 {
        assert(seq![e] =~= s.push(e));
        assert(s.to_multiset() =~= Multiset::empty());
    } else if s.last().at@ > e.at@ {
        lemma_insert_multiset(s.drop_last(), e);
        assert(s.drop_last().push(s.last()) =~= s);
        assert(s.to_multiset() =~= s.drop_last().to_multiset().insert(s.last()));
    }
}

/// Sorting yields events in order of position.
pub proof fn lemma_sort_is_sorted(s: Seq<TimelineEvent>)
    ensures
        sorted_by_at(sort_by_at(s)),
        sort_by_at(s).len() == s.len(),
    decreases s.len(),
{
    if s.len() > 0 {
        lemma_sort_is_sorted(s.drop_last());
        lemma_insert_keeps_sorted(sort_by_at(s.drop_last()), s.last());
    }
}

/// Sorting neither adds nor drops events.
pub proof fn lemma_sort_is_permutation(s: Seq<TimelineEvent>)
    ensures
        sort_by_at(s).to_multiset() =~= s.to_multiset(),
    decreases s.len(),
{
    broadcast use vstd::multiset::group_multiset_axioms;

    if s.len() > 0 {
        lemma_sort_is_permutation(s.drop_last());
        lemma_insert_multiset(sort_by_at(s.drop_last()), s.last());
        assert(s.drop_last().push(s.last()) =~= s);
    }
}

/// Sorting an already sorted sequence leaves it unchanged.
pub proof fn lemma_sort_of_sorted(s: Seq<TimelineEvent>)
    requires
        sorted_by_at(s),
    ensures
        sort_by_at(s) == s,
    decreases s.len(),
{
    if s.len() > 0 {
        lemma_sort_of_sorted(s.drop_last());
        assert(s.drop_last().push(s.last()) =~= s);
    }
}

/// Events ordered by their position in the track.
#[derive(Debug, PartialEq, Eq)]
pub struct BeatTimeline {
    events: Vec<TimelineEvent>,
}

impl View for BeatTimeline {
    type V = Seq<TimelineEvent>;

    closed spec fn view(&self) -> Seq<TimelineEvent> {
        self.events@
    }
}

impl BeatTimeline {
    /// The events are always in order of position.
    #[verifier::type_invariant]
    pub open spec fn ordered(self) -> bool {
        sorted_by_at(self@)
    }

    /// A timeline of `events`, stably sorted by position.
    pub fn new(events: Vec<TimelineEvent>) -> (t: BeatTimeline)
        ensures
            t@ == sort_by_at(events@),
    {
        let mut sorted: Vec<TimelineEvent> = Vec::new();
        let n = events.len();
        let mut i: usize = 0;
        while i < n
            invariant
                n == events@.len(),
                i <= n,
                sorted@ == sort_by_at(events@.take(i as int)),
            decreases n - i,
        {
            let e = events[i];
            proof {
                assert(events@.take(i + 1).drop_last() =~= events@.take(i as int));
            }
            let ghost before = sorted@;
            let mut pos = sorted.len();
            proof {
                assert(before.take(pos as int) =~= before);
            }
            while pos > 0 && e.at.lt(&sorted[pos - 1].at)
                invariant
                    sorted@ == before,
                    pos <= before.len(),
                    insertion_point(before, e) == insertion_point(before.take(pos as int), e),
                decreases pos,
            {
                proof {
                    assert(before.take(pos as int).drop_last() =~= before.take(pos - 1));
                }
                pos = pos - 1;
            }
            proof {
                if pos > 0 {
                    assert(before.take(pos as int).last() == before[pos - 1]);
                }
                lemma_insertion_point_bound(before, e);
                assert(before.take(pos as int).take(pos as int) =~= before.take(pos as int));
            }
            sorted.insert(pos, e);
            proof {
                lemma_insertion_point_bound(before, e);
                assert(sorted@ =~= insert_by_at(before, e));
            }
            i = i + 1;
        }
        proof {
            assert(events@.take(n as int) =~= events@);
            lemma_sort_is_sorted(events@);
        }
        BeatTimeline { events: sorted }
    }

    /// A quarter-note grid: an event every `interval` from the start while
    /// before `duration`, each fourth one (from the first) a downbeat.
    pub fn from_interval(duration: Duration, interval: Duration) -> (t: BeatTimeline)
        requires
            interval@ > 0,
            duration@ <= interval@ * (usize::MAX as nat),
        ensures
            forall|k: int|
                0 <= k < t@.len() ==> {
                    &&& #[trigger] t@[k].at@ == k * interval@
                    &&& t@[k].at@ < duration@
                    &&& t@[k].kind == grid_kind(k)
                    &&& t@[k].strength_milli == grid_strength(k)
                },
            t@.len() * interval@ >= duration@,
    {
        proof {
            use_type_invariant(&duration);
            use_type_invariant(&interval);
        }
        let mut events: Vec<TimelineEvent> = Vec::new();
        let mut at = Duration::zero();
        let mut beat_index: usize = 0;
        while at.lt(&duration)
            invariant
                interval@ > 0,
                duration@ <= MAX_NANOS,
                duration@ <= interval@ * (usize::MAX as nat),
                events@.len() == beat_index,
                at@ == if beat_index * interval@ <= MAX_NANOS {
                    beat_index * interval@
                } else {
                    MAX_NANOS as int
                },
                forall|k: int|
                    0 <= k < events@.len() ==> {
                        &&& #[trigger] events@[k].at@ == k * interval@
                        &&& events@[k].at@ < duration@
                        &&& events@[k].kind == grid_kind(k)
                        &&& events@[k].strength_milli == grid_strength(k)
                    },
            decreases MAX_NANOS - at@,
        {
            proof {
                use_type_invariant(&at);
                assert(beat_index < usize::MAX) by (nonlinear_arith)
                    requires
                        at@ < duration@,
                        duration@ <= interval@ * (usize::MAX as nat),
                        interval@ > 0,
                        at@ == beat_index * interval@,
                ;
                assert((beat_index + 1) * interval@ == beat_index * interval@ + interval@)
                    by (nonlinear_arith);
            }
            let downbeat = beat_index % 4 == 0;
            let kind = if downbeat {
                TimelineEventKind::Downbeat
            } else {
                TimelineEventKind::Beat
            };
            let strength_milli: u16 = if downbeat {
                1_000
            } else {
                700
            };
            events.push(TimelineEvent { at, kind, strength_milli });
            at = at.saturating_add(interval);
            beat_index = beat_index + 1;
        }
        proof {
            assert(beat_index * interval@ >= duration@);
            assert forall|i: int, j: int| 0 <= i <= j < events@.len() implies events@[i].at@
                <= events@[j].at@ by {
                assert(events@[i].at@ == i * interval@);
                assert(events@[j].at@ == j * interval@);
                assert(i * interval@ <= j * interval@) by (nonlinear_arith)
                    requires
                        0 <= i <= j,
                        interval@ > 0,
                ;
            }
        }
        BeatTimeline { events }
    }

    /// The events, in order of position.
    pub fn events(&self) -> (s: &[TimelineEvent])
        ensures
            s@ == self@,
    {
        self.events.as_slice()
    }

    /// The number of events.
    pub fn len(&self) -> (n: usize)
        ensures
            n == self@.len(),
    {
        self.events.len()
    }

    /// Whether there are no events.
    pub fn is_empty(&self) -> (b: bool)
        ensures
            b == (self@.len() == 0),
    {
        self.events.len() == 0
    }

    /// The index of the first event at or after `position`: every earlier
    /// event lies before `position`, every later one at or after it.
    pub fn first_event_at_or_after(&self, position: Duration) -> (idx: usize)
        ensures
            idx <= self@.len(),
            forall|j: int| 0 <= j < idx ==> #[trigger] self@[j].at@ < position@,
            forall|j: int| idx <= j < self@.len() ==> #[trigger] self@[j].at@ >= position@,
    {
        proof {
            use_type_invariant(self);
        }
        let mut lo: usize = 0;
        let mut hi: usize = self.events.len();
        while lo < hi
            invariant
                lo <= hi <= self@.len(),
                self@ == self.events@,
                sorted_by_at(self@),
                forall|j: int| 0 <= j < lo ==> #[trigger] self@[j].at@ < position@,
                forall|j: int| hi <= j < self@.len() ==> #[trigger] self@[j].at@ >= position@,
            decreases hi - lo,
        {
            let mid = lo + (hi - lo) / 2;
            if self.events[mid].at.lt(&position) {
                lo = mid + 1;
            } else {
                hi = mid;
            }
        }
        lo
    }
}

impl Clone for BeatTimeline {
    /// A timeline with the same events.
    fn clone(&self) -> (t: BeatTimeline)
        ensures
            t@ == self@,
    {
        proof {
            use_type_invariant(self);
        }
        let events = self.events.clone();
        proof {
            assert(events@ =~= self.events@);
        }
        BeatTimeline { events }
    }
}

} // verus!
