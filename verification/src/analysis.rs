//! Normalised beat/section analysis documents and the recordings they describe.

use crate::text::{ascii_upper, chars_of, decimal, push_decimal, push_str, str_eq, is_ascii_alnum, is_ascii_alphanumeric, string_from, to_ascii_upper};
use crate::time::{Duration, NANOS_PER_MILLI};
use crate::timeline::{lemma_sort_is_permutation, lemma_sort_is_sorted, sort_by_at, BeatTimeline};
use crate::track::{opt_chars, TimelineEvent, TimelineEventKind, TrackIdentity};
use vstd::prelude::*;
use vstd::slice::slice_subrange;

verus! {

broadcast use Duration::lemma_span_of_millis;

/// The analysis document schema this library reads and writes.
pub const ANALYSIS_SCHEMA_VERSION: u32 = 1;

/// The strength a beat gets when its document does not give one.
pub fn default_strength() -> (s: u16)
    ensures
        s == 700,
{
    700
}

/// The characters of a list of string pairs.
pub open spec fn pairs_view(v: Seq<(String, String)>) -> Seq<(Seq<char>, Seq<char>)> {
    v.map_values(|p: (String, String)| (p.0@, p.1@))
}

/// Whether `a` comes before `b` in the order of their characters' code
/// points (the order of strings as map keys).
pub open spec fn chars_lt(a: Seq<char>, b: Seq<char>) -> bool
    decreases a.len(),
{
    if a.len() == 0 {
        b.len() > 0
    } else if b.len() == 0 {
        false
    } else if a[0] != b[0] {
        a[0] < b[0]
    } else {
        chars_lt(a.drop_first(), b.drop_first())
    }
}

/// Pairs keyed as a map holds them: in ascending order of key, each key at
/// most once.
pub open spec fn keyed_ascending(pairs: Seq<(Seq<char>, Seq<char>)>) -> bool {
    forall|i: int, j: int| 0 <= i < j < pairs.len() ==> chars_lt(#[trigger] pairs[i].0, #[trigger] pairs[j].0)
}

/// Each key occurs at most once among the pairs (as in a map).
pub open spec fn keys_distinct(pairs: Seq<(Seq<char>, Seq<char>)>) -> bool {
    forall|i: int, j: int| 0 <= i < j < pairs.len() ==> #[trigger] pairs[i].0 != #[trigger] pairs[j].0
}

/// The value paired with the first occurrence of `key`.
pub open spec fn lookup(pairs: Seq<(Seq<char>, Seq<char>)>, key: Seq<char>) -> Option<Seq<char>>
    decreases pairs.len(),
{
    if pairs.len() == 0 {
        None
    } else if pairs[0].0 == key {
        Some(pairs[0].1)
    } else {
        lookup(pairs.drop_first(), key)
    }
}

/// Pairs keyed in ascending order hold each key once.
pub proof fn lemma_ascending_keys_are_distinct(pairs: Seq<(Seq<char>, Seq<char>)>)
    requires
        keyed_ascending(pairs),
    ensures
        keys_distinct(pairs),
{
    assert forall|i: int, j: int| 0 <= i < j < pairs.len() implies #[trigger] pairs[i].0
        != #[trigger] pairs[j].0 by {
        assert(chars_lt(pairs[i].0, pairs[j].0));
        lemma_chars_lt_irreflexive(pairs[i].0);
    }
}

proof fn lemma_chars_lt_irreflexive(a: Seq<char>)
    ensures
        !chars_lt(a, a),
    decreases a.len(),
{
    if a.len() > 0 {
        lemma_chars_lt_irreflexive(a.drop_first());
    }
}

/// When each key occurs once, looking a key up finds the value paired with
/// it wherever the pair stands, as in a map.
pub proof fn lemma_lookup_finds_the_key(pairs: Seq<(Seq<char>, Seq<char>)>, i: int)
    requires
        keys_distinct(pairs),
        0 <= i < pairs.len(),
    ensures
        lookup(pairs, pairs[i].0) == Some(pairs[i].1),
    decreases i,
{
    if i > 0 {
        let rest = pairs.drop_first();
        assert(pairs[0].0 != pairs[i].0);
        assert forall|a: int, b: int| 0 <= a < b < rest.len() implies #[trigger] rest[a].0
            != #[trigger] rest[b].0 by {
            assert(rest[a] == pairs[a + 1]);
            assert(rest[b] == pairs[b + 1]);
        }
        assert(rest[i - 1] == pairs[i]);
        lemma_lookup_finds_the_key(rest, i - 1);
    }
}

/// The index of the first occurrence of `c` in `s`.
pub open spec fn first_index_of(s: Seq<char>, c: char) -> Option<nat>
    decreases s.len(),
{
    if s.len() == 0 {
        None
    } else if s[0] == c {
        Some(0)
    } else {
        match first_index_of(s.drop_first(), c) {
            Some(i) => Some(i + 1),
            None => None,
        }
    }
}

/// The provider and identifier in a provider-qualified identifier: the text
/// around the first `:`, or `unknown` and the whole identifier when it has
/// no `:`.
pub open spec fn split_provider_id(pid: Seq<char>) -> (Seq<char>, Seq<char>) {
    match first_index_of(pid, ':') {
        Some(i) => (pid.take(i as int), pid.skip(i + 1 as int)),
        None => ("unknown"@, pid),
    }
}

/// An ISRC reduced to its ASCII letters and digits, in upper case.
pub open spec fn normalized_isrc(s: Seq<char>) -> Seq<char>
    decreases s.len(),
{
    if s.len() == 0 {
        Seq::empty()
    } else if is_ascii_alnum(s.last()) {
        normalized_isrc(s.drop_last()).push(ascii_upper(s.last()))
    } else {
        normalized_isrc(s.drop_last())
    }
}

/// The identity of a recording, as an analysis cache files it.
#[derive(Clone, Debug, PartialEq, Eq)]
pub struct RecordingIdentity {
    pub title: String,
    pub artist: String,
    pub duration_ms: u64,
    pub isrc: Option<String>,
    pub musicbrainz_recording_id: Option<String>,
    /// Identifiers by provider name, in ascending order of provider name with
    /// each provider at most once (see `keyed_ascending`, `keys_distinct`).
    pub provider_ids: Vec<(String, String)>,
}

impl RecordingIdentity {
    /// The identity of the track: title, artist and duration as given, the
    /// ISRC normalised, and the provider identifier filed under its provider.
    pub fn from_track(track: &TrackIdentity) -> (r: RecordingIdentity)
        ensures
            r.title@ == track.title@,
            r.artist@ == track.artist@,
            r.duration_ms == track.duration_ms,
            opt_chars(r.isrc) == match track.isrc {
                Some(s) => Some(normalized_isrc(s@)),
                None => None::<Seq<char>>,
            },
            r.musicbrainz_recording_id is None,
            keyed_ascending(pairs_view(r.provider_ids@)),
            pairs_view(r.provider_ids@) == match track.provider_id {
                Some(p) => seq![split_provider_id(p@)],
                None => Seq::<(Seq<char>, Seq<char>)>::empty(),
            },
    {
        let mut provider_ids: Vec<(String, String)> = Vec::new();
        match &track.provider_id {
            Some(provider_id) => {
                let cs = chars_of(provider_id.as_str());
                let pair = split_once_colon(&cs);
                provider_ids.push(pair);
                proof {
                    assert(pairs_view(provider_ids@) =~= seq![split_provider_id(provider_id@)]);
                }
            },
            None => {
                proof {
                    assert(pairs_view(provider_ids@) =~= Seq::<(Seq<char>, Seq<char>)>::empty());
                }
            },
        }
        let isrc = match &track.isrc {
            Some(s) => Some(normalize_isrc(s.as_str())),
            None => None,
        };
        RecordingIdentity {
            title: track.title.clone(),
            artist: track.artist.clone(),
            duration_ms: track.duration_ms,
            isrc,
            musicbrainz_recording_id: None,
            provider_ids,
        }
    }

    /// File the recording under `isrc`, normalised as `from_track` does.
    pub fn set_isrc(&mut self, isrc: &str)
        ensures
            opt_chars(final(self).isrc) == Some(normalized_isrc(isrc@)),
            final(self).title == old(self).title,
            final(self).artist == old(self).artist,
            final(self).duration_ms == old(self).duration_ms,
            final(self).musicbrainz_recording_id == old(self).musicbrainz_recording_id,
            final(self).provider_ids == old(self).provider_ids,
    {
        self.isrc = Some(normalize_isrc(isrc));
    }

    /// File the recording under the MusicBrainz recording identifier `id`.
    pub fn set_musicbrainz_recording_id(&mut self, id: String)
        ensures
            final(self).musicbrainz_recording_id == Some(id),
            final(self).title == old(self).title,
            final(self).artist == old(self).artist,
            final(self).duration_ms == old(self).duration_ms,
            final(self).isrc == old(self).isrc,
            final(self).provider_ids == old(self).provider_ids,
    {
        self.musicbrainz_recording_id = Some(id);
    }

    /// The identifier filed under `provider`, if any.
    pub fn provider_id(&self, provider: &str) -> (r: Option<String>)
        ensures
            opt_chars(r) == lookup(pairs_view(self.provider_ids@), provider@),
    {
        let mut i: usize = 0;
        let n = self.provider_ids.len();
        proof {
            assert(pairs_view(self.provider_ids@).skip(0) =~= pairs_view(self.provider_ids@));
        }
        while i < n
            invariant
                i <= n == self.provider_ids@.len(),
                lookup(pairs_view(self.provider_ids@), provider@) == lookup(
                    pairs_view(self.provider_ids@).skip(i as int),
                    provider@,
                ),
            decreases n - i,
        {
            let ghost rest = pairs_view(self.provider_ids@).skip(i as int);
            proof {
                assert(rest.drop_first() =~= pairs_view(self.provider_ids@).skip(i + 1));
            }
            proof {
                assert(rest[0] == (self.provider_ids@[i as int].0@, self.provider_ids@[i as int].1@));
            }
            if str_eq(self.provider_ids[i].0.as_str(), provider) {
                return Some(self.provider_ids[i].1.clone());
            }
            i = i + 1;
        }
        None
    }
}

/// Split a provider-qualified identifier at its first `:`.
fn split_once_colon(cs: &Vec<char>) -> (r: (String, String))
    ensures
        (r.0@, r.1@) == split_provider_id(cs@),
{
    let n = cs.len();
    let mut i: usize = 0;
    while i < n && cs[i] != ':'
        invariant
            i <= n == cs@.len(),
            forall|k: int| 0 <= k < i ==> cs@[k] != ':',
        decreases n - i,
    {
        i = i + 1;
    }
    proof {
        lemma_first_index_of(cs@, i as nat);
    }
    if i == n {
        ("unknown".to_owned(), string_from(cs.as_slice()))
    } else {
        let provider = string_from(slice_subrange(cs.as_slice(), 0, i));
        let id = string_from(slice_subrange(cs.as_slice(), i + 1, n));
        proof {
            assert(cs@.subrange(0, i as int) =~= cs@.take(i as int));
            assert(cs@.subrange(i + 1, n as int) =~= cs@.skip(i + 1));
        }
        (provider, id)
    }
}

proof fn lemma_first_index_of(s: Seq<char>, i: nat)
    requires
        i <= s.len(),
        forall|k: int| 0 <= k < i ==> s[k] != ':',
        i < s.len() ==> s[i as int] == ':',
    ensures
        first_index_of(s, ':') == if i < s.len() {
            Some(i)
        } else {
            None::<nat>
        },
    decreases i,
{
    if i > 0 {
        lemma_first_index_of(s.drop_first(), (i - 1) as nat);
    }
}

/// An ISRC reduced to its ASCII letters and digits, in upper case.
pub fn normalize_isrc(value: &str) -> (r: String)
    ensures
        r@ == normalized_isrc(value@),
{
    let cs = chars_of(value);
    let mut out: Vec<char> = Vec::new();
    for i in 0..cs.len()
        invariant
            cs@ == value@,
            out@ == normalized_isrc(cs@.take(i as int)),
    {
        let c = cs[i];
        proof {
            assert(cs@.take(i + 1).drop_last() =~= cs@.take(i as int));
        }
        if is_ascii_alphanumeric(c) {
            out.push(to_ascii_upper(c));
        }
    }
    proof {
        assert(cs@.take(cs@.len() as int) =~= cs@);
    }
    string_from(out.as_slice())
}

/// Where an analysis came from.
#[derive(Clone, Debug, PartialEq, Eq)]
pub enum AnalysisSource {
    Imported { name: String },
    LocalAnalyzer { engine: String, version: Option<String> },
    ExternalProvider { name: String },
}

/// A beat at a position in the recording.
#[derive(Clone, Copy, Debug, PartialEq, Eq, Structural)]
pub struct BeatPoint {
    pub at_ms: u64,
    pub downbeat: bool,
    pub strength_milli: u16,
}

/// A section of the recording.
#[derive(Clone, Debug, PartialEq, Eq)]
pub struct SectionPoint {
    pub start_ms: u64,
    pub end_ms: u64,
    pub label: Option<String>,
    pub confidence_milli: u16,
}

/// Beats and sections of one recording.
#[derive(Clone, Debug, PartialEq, Eq)]
pub struct AnalysisDocument {
    pub schema_version: u32,
    pub recording: RecordingIdentity,
    pub source: AnalysisSource,
    pub generated_at_unix: u64,
    pub beats: Vec<BeatPoint>,
    pub sections: Vec<SectionPoint>,
}

/// Why a document does not describe its recording consistently.
#[derive(Clone, Copy, Debug, PartialEq, Eq, Structural)]
pub enum ValidationError {
    UnsupportedSchema(u32),
    BeatPastDuration(u64),
    InvalidSectionRange { start_ms: u64, end_ms: u64 },
    SectionPastDuration(u64),
}

/// `v` capped at 1000.
pub open spec fn cap_milli(v: u16) -> u16 {
    if v <= 1000 {
        v
    } else {
        1000
    }
}

/// The timeline event of a beat.
pub open spec fn beat_event(b: BeatPoint) -> TimelineEvent {
    TimelineEvent {
        at: Duration::span_of_millis(b.at_ms),
        kind: if b.downbeat {
            TimelineEventKind::Downbeat
        } else {
            TimelineEventKind::Beat
        },
        strength_milli: cap_milli(b.strength_milli),
    }
}

/// The timeline event of the start of a section.
pub open spec fn section_event(s: SectionPoint) -> TimelineEvent {
    TimelineEvent {
        at: Duration::span_of_millis(s.start_ms),
        kind: TimelineEventKind::Section,
        strength_milli: cap_milli(s.confidence_milli),
    }
}

/// The events of a document: its beats, then its section starts.
pub open spec fn document_events(d: AnalysisDocument) -> Seq<TimelineEvent> {
    d.beats@.map_values(|b: BeatPoint| beat_event(b)) + d.sections@.map_values(
        |s: SectionPoint| section_event(s),
    )
}

proof fn lemma_kept_by_sort(s: Seq<TimelineEvent>, i: int)
    requires
        0 <= i < s.len(),
    ensures
        exists|k: int| 0 <= k < sort_by_at(s).len() && #[trigger] sort_by_at(s)[k] == s[i],
{
    broadcast use vstd::seq_lib::to_multiset_contains;

    lemma_sort_is_permutation(s);
    assert(s.contains(s[i]));
    assert(s.to_multiset().count(s[i]) > 0);
    assert(sort_by_at(s).to_multiset().count(s[i]) > 0);
    assert(sort_by_at(s).contains(s[i]));
}

/// A document's timeline holds one event per beat and per section, and
/// every beat is in it at its position, as a downbeat exactly when the beat
/// is flagged as one and as a plain beat otherwise, with its strength capped
/// at 1000; every section start is in it as a section event, with its
/// confidence capped at 1000.
pub proof fn lemma_timeline_keeps_every_point(d: AnalysisDocument, t: Seq<TimelineEvent>)
    requires
        t == sort_by_at(document_events(d)),
    ensures
        t.len() == d.beats@.len() + d.sections@.len(),
        forall|i: int|
            #![trigger d.beats@[i]]
            0 <= i < d.beats@.len() ==> exists|k: int|
                0 <= k < t.len() && #[trigger] t[k].at@ == d.beats@[i].at_ms * NANOS_PER_MILLI
                    && t[k].kind == (if d.beats@[i].downbeat {
                    TimelineEventKind::Downbeat
                } else {
                    TimelineEventKind::Beat
                }) && t[k].strength_milli == (if d.beats@[i].strength_milli <= 1000 {
                    d.beats@[i].strength_milli
                } else {
                    1000
                }),
        forall|j: int|
            #![trigger d.sections@[j]]
            0 <= j < d.sections@.len() ==> exists|k: int|
                0 <= k < t.len() && #[trigger] t[k].at@ == d.sections@[j].start_ms * NANOS_PER_MILLI
                    && t[k].kind == TimelineEventKind::Section && t[k].strength_milli == (if d.sections@[j].confidence_milli <= 1000 {
                    d.sections@[j].confidence_milli
                } else {
                    1000
                }),
{
    broadcast use Duration::lemma_span_of_millis;

    let s = document_events(d);
    let nb = d.beats@.len();
    lemma_sort_is_sorted(s);
    assert forall|i: int| #![trigger d.beats@[i]] 0 <= i < nb implies exists|k: int|
        0 <= k < t.len() && #[trigger] t[k].at@ == d.beats@[i].at_ms * NANOS_PER_MILLI && t[k].kind == (
        if d.beats@[i].downbeat {
            TimelineEventKind::Downbeat
        } else {
            TimelineEventKind::Beat
        }) && t[k].strength_milli == (if d.beats@[i].strength_milli <= 1000 {
            d.beats@[i].strength_milli
        } else {
            1000
        }) by {
        assert(s[i] == beat_event(d.beats@[i]));
        lemma_kept_by_sort(s, i);
        let k = choose|k: int| 0 <= k < sort_by_at(s).len() && #[trigger] sort_by_at(s)[k] == s[i];
        assert(t[k] == s[i]);
    }
    assert forall|j: int| #![trigger d.sections@[j]] 0 <= j < d.sections@.len() implies exists|k: int|
        0 <= k < t.len() && #[trigger] t[k].at@ == d.sections@[j].start_ms * NANOS_PER_MILLI
            && t[k].kind == TimelineEventKind::Section && t[k].strength_milli == (
        if d.sections@[j].confidence_milli <= 1000 {
            d.sections@[j].confidence_milli
        } else {
            1000
        }) by {
        assert(s[nb + j] == section_event(d.sections@[j]));
        lemma_kept_by_sort(s, nb + j);
        let k = choose|k: int| 0 <= k < sort_by_at(s).len() && #[trigger] sort_by_at(s)[k] == s[nb + j];
        assert(t[k] == s[nb + j]);
    }
}

/// The first beat, from index `i`, that lies past `duration_ms`.
pub open spec fn first_beat_past(beats: Seq<BeatPoint>, duration_ms: u64, i: nat) -> Option<u64>
    decreases beats.len() - i,
{
    if i >= beats.len() {
        None
    } else if beats[i as int].at_ms > duration_ms {
        Some(beats[i as int].at_ms)
    } else {
        first_beat_past(beats, duration_ms, i + 1)
    }
}

/// The failure of the first section, from index `i`, that is reversed or
/// ends past `duration_ms`.
pub open spec fn first_bad_section(sections: Seq<SectionPoint>, duration_ms: u64, i: nat) -> Option<
    ValidationError,
>
    decreases sections.len() - i,
{
    if i >= sections.len() {
        None
    } else if sections[i as int].start_ms > sections[i as int].end_ms {
        Some(
            ValidationError::InvalidSectionRange {
                start_ms: sections[i as int].start_ms,
                end_ms: sections[i as int].end_ms,
            },
        )
    } else if sections[i as int].end_ms > duration_ms {
        Some(ValidationError::SectionPastDuration(sections[i as int].end_ms))
    } else {
        first_bad_section(sections, duration_ms, i + 1)
    }
}

/// The outcome of validating `d`: the first failure found, checking the
/// schema, then the beats in order, then the sections in order.
pub open spec fn validation(d: AnalysisDocument) -> Result<(), ValidationError> {
    if d.schema_version != ANALYSIS_SCHEMA_VERSION {
        Err(ValidationError::UnsupportedSchema(d.schema_version))
    } else {
        match first_beat_past(d.beats@, d.recording.duration_ms, 0) {
            Some(at) => Err(ValidationError::BeatPastDuration(at)),
            None => match first_bad_section(d.sections@, d.recording.duration_ms, 0) {
                Some(e) => Err(e),
                None => Ok(()),
            },
        }
    }
}

/// The document is of the current schema, no beat lies past the end of the
/// recording, and every section runs forwards and ends within it.
pub open spec fn consistent(d: AnalysisDocument) -> bool {
    &&& d.schema_version == ANALYSIS_SCHEMA_VERSION
    &&& forall|i: int| 0 <= i < d.beats@.len() ==> #[trigger] d.beats@[i].at_ms <= d.recording.duration_ms
    &&& forall|i: int|
        0 <= i < d.sections@.len() ==> #[trigger] d.sections@[i].start_ms <= d.sections@[i].end_ms
            && d.sections@[i].end_ms <= d.recording.duration_ms
}

proof fn lemma_first_beat_past(beats: Seq<BeatPoint>, duration_ms: u64, i: nat)
    requires
        i <= beats.len(),
    ensures
        first_beat_past(beats, duration_ms, i) is None <==> forall|k: int|
            i <= k < beats.len() ==> #[trigger] beats[k].at_ms <= duration_ms,
    decreases beats.len() - i,
{
    if i < beats.len() {
        lemma_first_beat_past(beats, duration_ms, i + 1);
    }
}

proof fn lemma_first_bad_section(sections: Seq<SectionPoint>, duration_ms: u64, i: nat)
    requires
        i <= sections.len(),
    ensures
        first_bad_section(sections, duration_ms, i) is None <==> forall|k: int|
            i <= k < sections.len() ==> #[trigger] sections[k].start_ms <= sections[k].end_ms
                && sections[k].end_ms <= duration_ms,
    decreases sections.len() - i,
{
    if i < sections.len() {
        lemma_first_bad_section(sections, duration_ms, i + 1);
    }
}

impl AnalysisDocument {
    /// An empty document of the current schema.
    pub fn new(recording: RecordingIdentity, source: AnalysisSource, generated_at_unix: u64) -> (d:
        AnalysisDocument)
        ensures
            d.schema_version == ANALYSIS_SCHEMA_VERSION,
            d.recording == recording,
            d.source == source,
            d.generated_at_unix == generated_at_unix,
            d.beats@.len() == 0,
            d.sections@.len() == 0,
    {
        AnalysisDocument {
            schema_version: ANALYSIS_SCHEMA_VERSION,
            recording,
            source,
            generated_at_unix,
            beats: Vec::new(),
            sections: Vec::new(),
        }
    }

    /// The beats and section starts as a timeline, stably sorted by position.
    pub fn timeline(&self) -> (t: BeatTimeline)
        ensures
            t@ == sort_by_at(document_events(*self)),
            t@.len() == self.beats@.len() + self.sections@.len(),
            forall|i: int|
                #![trigger self.beats@[i]]
                0 <= i < self.beats@.len() ==> exists|k: int|
                    0 <= k < t@.len() && #[trigger] t@[k].at@ == self.beats@[i].at_ms
                        * NANOS_PER_MILLI && t@[k].kind == (if self.beats@[i].downbeat {
                        TimelineEventKind::Downbeat
                    } else {
                        TimelineEventKind::Beat
                    }) && t@[k].strength_milli == (if self.beats@[i].strength_milli <= 1000 {
                        self.beats@[i].strength_milli
                    } else {
                        1000
                    }),
            forall|j: int|
                #![trigger self.sections@[j]]
                0 <= j < self.sections@.len() ==> exists|k: int|
                    0 <= k < t@.len() && #[trigger] t@[k].at@ == self.sections@[j].start_ms
                        * NANOS_PER_MILLI && t@[k].kind == TimelineEventKind::Section
                        && t@[k].strength_milli == (if self.sections@[j].confidence_milli <= 1000 {
                        self.sections@[j].confidence_milli
                    } else {
                        1000
                    }),
    {
        let mut events: Vec<TimelineEvent> = Vec::new();
        let nb = self.beats.len();
        for i in 0..nb
            invariant
                nb == self.beats@.len(),
                events@ == self.beats@.take(i as int).map_values(|b: BeatPoint| beat_event(b)),
        {
            let beat = self.beats[i];
            let kind = if beat.downbeat {
                TimelineEventKind::Downbeat
            } else {
                TimelineEventKind::Beat
            };
            let strength_milli = if beat.strength_milli <= 1000 {
                beat.strength_milli
            } else {
                1000
            };
            events.push(TimelineEvent { at: Duration::from_millis(beat.at_ms), kind, strength_milli });
            proof {
                assert(events@ =~= self.beats@.take(i + 1).map_values(|b: BeatPoint| beat_event(b)));
            }
        }
        let ns = self.sections.len();
        let ghost beats_part = self.beats@.map_values(|b: BeatPoint| beat_event(b));
        proof {
            assert(self.beats@.take(nb as int) =~= self.beats@);
        }
        for j in 0..ns
            invariant
                ns == self.sections@.len(),
                beats_part == self.beats@.map_values(|b: BeatPoint| beat_event(b)),
                events@ == beats_part + self.sections@.take(j as int).map_values(
                    |s: SectionPoint| section_event(s),
                ),
        {
            let section = &self.sections[j];
            let strength_milli = if section.confidence_milli <= 1000 {
                section.confidence_milli
            } else {
                1000
            };
            events.push(
                TimelineEvent {
                    at: Duration::from_millis(section.start_ms),
                    kind: TimelineEventKind::Section,
                    strength_milli,
                },
            );
            proof {
                assert(events@ =~= beats_part + self.sections@.take(j + 1).map_values(
                    |s: SectionPoint| section_event(s),
                ));
            }
        }
        proof {
            assert(self.sections@.take(ns as int) =~= self.sections@);
            assert(events@ =~= document_events(*self));
        }
        let t = BeatTimeline::new(events);
        proof {
            lemma_timeline_keeps_every_point(*self, t@);
        }
        t
    }

    /// Check that the document is of the current schema, that no beat lies
    /// past the end of the recording and that every section runs forwards
    /// and ends within it; the first failure is returned.
    pub fn validate(&self) -> (r: Result<(), ValidationError>)
        ensures
            r == validation(*self),
            r is Ok <==> consistent(*self),
    {
        proof {
            lemma_first_beat_past(self.beats@, self.recording.duration_ms, 0);
            lemma_first_bad_section(self.sections@, self.recording.duration_ms, 0);
        }
        if self.schema_version != ANALYSIS_SCHEMA_VERSION {
            return Err(ValidationError::UnsupportedSchema(self.schema_version));
        }
        let duration = self.recording.duration_ms;
        let nb = self.beats.len();
        let mut i: usize = 0;
        while i < nb
            invariant
                nb == self.beats@.len(),
                i <= nb,
                self.schema_version == ANALYSIS_SCHEMA_VERSION,
                duration == self.recording.duration_ms,
                first_beat_past(self.beats@, duration, 0) == first_beat_past(
                    self.beats@,
                    duration,
                    i as nat,
                ),
            decreases nb - i,
        {
            if self.beats[i].at_ms > duration {
                return Err(ValidationError::BeatPastDuration(self.beats[i].at_ms));
            }
            i = i + 1;
        }
        let ns = self.sections.len();
        let mut j: usize = 0;
        while j < ns
            invariant
                ns == self.sections@.len(),
                j <= ns,
                self.schema_version == ANALYSIS_SCHEMA_VERSION,
                duration == self.recording.duration_ms,
                first_beat_past(self.beats@, duration, 0) is None,
                first_bad_section(self.sections@, duration, 0) == first_bad_section(
                    self.sections@,
                    duration,
                    j as nat,
                ),
            decreases ns - j,
        {
            let section = &self.sections[j];
            if section.start_ms > section.end_ms {
                return Err(
                    ValidationError::InvalidSectionRange {
                        start_ms: section.start_ms,
                        end_ms: section.end_ms,
                    },
                );
            }
            if section.end_ms > duration {
                return Err(ValidationError::SectionPastDuration(section.end_ms));
            }
            j = j + 1;
        }
        Ok(())
    }
}

} // verus!

verus! {

/// The text of a validation failure.
pub open spec fn validation_message(e: ValidationError) -> Seq<char> {
    match e {
        ValidationError::UnsupportedSchema(v) => "unsupported analysis schema version "@ + decimal(
            v as nat,
        ),
        ValidationError::BeatPastDuration(at) => "beat at "@ + decimal(at as nat)
            + " ms is past recording duration"@,
        ValidationError::InvalidSectionRange { start_ms, end_ms } => "section starts at "@
            + decimal(start_ms as nat) + " ms but ends at "@ + decimal(end_ms as nat) + " ms"@,
        ValidationError::SectionPastDuration(end) => "section ending at "@ + decimal(end as nat)
            + " ms is past recording duration"@,
    }
}

impl ValidationError {
    /// The text of the failure.
    pub fn message(&self) -> (s: String)
        ensures
            s@ == validation_message(*self),
    {
        let mut out: Vec<char> = Vec::new();
        match *self {
            ValidationError::UnsupportedSchema(v) => {
                push_str(&mut out, "unsupported analysis schema version ");
                push_decimal(&mut out, v as u64);
            },
            ValidationError::BeatPastDuration(at) => {
                push_str(&mut out, "beat at ");
                push_decimal(&mut out, at);
                push_str(&mut out, " ms is past recording duration");
            },
            ValidationError::InvalidSectionRange { start_ms, end_ms } => {
                push_str(&mut out, "section starts at ");
                push_decimal(&mut out, start_ms);
                push_str(&mut out, " ms but ends at ");
                push_decimal(&mut out, end_ms);
                push_str(&mut out, " ms");
            },
            ValidationError::SectionPastDuration(end) => {
                push_str(&mut out, "section ending at ");
                push_decimal(&mut out, end);
                push_str(&mut out, " ms is past recording duration");
            },
        }
        proof {
            assert(out@ =~= validation_message(*self));
        }
        string_from(out.as_slice())
    }
}

} // verus!
