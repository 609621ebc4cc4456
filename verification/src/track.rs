//! What is playing: track identities, provider snapshots and timeline events.

use crate::time::Duration;
use vstd::prelude::*;

verus! {

/// The view of an optional string: the characters it holds, if any.
pub open spec fn opt_chars(o: Option<String>) -> Option<Seq<char>> {
    match o {
        Some(s) => Some(s@),
        None => None,
    }
}

/// Whether two optional strings hold the same characters.
pub fn opt_string_eq(a: &Option<String>, b: &Option<String>) -> (r: bool)
    ensures
        r == (opt_chars(*a) == opt_chars(*b)),
{
    match (a, b) {
        (Some(x), Some(y)) => *x == *y,
        (None, None) => true,
        _ => false,
    }
}

/// A copy of an optional string with the same characters.
pub fn opt_string_clone(a: &Option<String>) -> (r: Option<String>)
    ensures
        opt_chars(r) == opt_chars(*a),
{
    match a {
        Some(x) => Some(x.clone()),
        None => None,
    }
}

/// The identity of a track as a playback provider reports it.
#[derive(Clone, Debug, PartialEq, Eq)]
pub struct TrackIdentity {
    pub title: String,
    pub artist: String,
    pub duration_ms: u64,
    pub isrc: Option<String>,
    pub provider_id: Option<String>,
}

/// The length of the track in nanoseconds.
pub open spec fn track_length(t: TrackIdentity) -> nat {
    (t.duration_ms * crate::time::NANOS_PER_MILLI) as nat
}

/// Whether two track identities agree field by field.
pub open spec fn same_track(a: TrackIdentity, b: TrackIdentity) -> bool {
    &&& a.title@ == b.title@
    &&& a.artist@ == b.artist@
    &&& a.duration_ms == b.duration_ms
    &&& opt_chars(a.isrc) == opt_chars(b.isrc)
    &&& opt_chars(a.provider_id) == opt_chars(b.provider_id)
}

/// Two track identities agree exactly when all their fields are equal:
/// title, artist, duration, ISRC and provider identifier (an absent ISRC or
/// identifier agrees only with an absent one).
pub proof fn lemma_same_track_is_field_equality(a: TrackIdentity, b: TrackIdentity)
    ensures
        same_track(a, b) <==> {
            &&& a.title@ == b.title@
            &&& a.artist@ == b.artist@
            &&& a.duration_ms == b.duration_ms
            &&& match (a.isrc, b.isrc) {
                (Some(x), Some(y)) => x@ == y@,
                (None, None) => true,
                _ => false,
            }
            &&& match (a.provider_id, b.provider_id) {
                (Some(x), Some(y)) => x@ == y@,
                (None, None) => true,
                _ => false,
            }
        },
{
}

impl TrackIdentity {
    /// Whether `self` and `other` agree field by field.
    pub fn same_as(&self, other: &TrackIdentity) -> (r: bool)
        ensures
            r == same_track(*self, *other),
    {
        self.title == other.title && self.artist == other.artist && self.duration_ms
            == other.duration_ms && opt_string_eq(&self.isrc, &other.isrc) && opt_string_eq(
            &self.provider_id,
            &other.provider_id,
        )
    }

    /// A copy that agrees with `self` field by field.
    pub fn duplicate(&self) -> (r: TrackIdentity)
        ensures
            same_track(r, *self),
            r.title@ == self.title@,
            r.artist@ == self.artist@,
            r.duration_ms == self.duration_ms,
            opt_chars(r.isrc) == opt_chars(self.isrc),
            opt_chars(r.provider_id) == opt_chars(self.provider_id),
    {
        TrackIdentity {
            title: self.title.clone(),
            artist: self.artist.clone(),
            duration_ms: self.duration_ms,
            isrc: opt_string_clone(&self.isrc),
            provider_id: opt_string_clone(&self.provider_id),
        }
    }
}

/// One authoritative sample from a playback provider.
#[derive(Clone, Debug, PartialEq, Eq)]
pub struct PlaybackSnapshot {
    pub track: TrackIdentity,
    pub position: Duration,
    pub playing: bool,
}

/// What a timeline event marks.
#[derive(Clone, Copy, Debug, PartialEq, Eq, Structural)]
pub enum TimelineEventKind {
    Beat,
    Downbeat,
    Section,
}

/// A musical event at a position in the track.
#[derive(Clone, Copy, Debug, PartialEq, Eq, Structural)]
pub struct TimelineEvent {
    pub at: Duration,
    pub kind: TimelineEventKind,
    pub strength_milli: u16,
}

/// A failure reported by a playback provider.
#[derive(Debug)]
pub struct ProviderError(pub String);

/// A failure reported by a lighting backend.
#[derive(Debug)]
pub struct BackendError(pub String);

impl ProviderError {
    /// The message the provider gave.
    pub fn message(&self) -> (s: &str)
        ensures
            s@ == self.0@,
    {
        self.0.as_str()
    }
}

impl BackendError {
    /// The message the backend gave.
    pub fn message(&self) -> (s: &str)
        ensures
            s@ == self.0@,
    {
        self.0.as_str()
    }
}

} // verus!
