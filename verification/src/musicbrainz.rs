//! Matching a recording against MusicBrainz recording-search results.

use crate::analysis::{normalized_isrc, RecordingIdentity};
use crate::track::opt_chars;
use crate::matter::strings_view;
use crate::text::{
    alphanumeric, char_lowercase_of, char_to_lowercase, chars_of, decimal, is_alphanumeric,
    push_chars, push_decimal, push_str, string_from,
};
use crate::time::{Duration, NANOS_PER_SEC};
use vstd::prelude::*;

verus! {

/// The lowest search score a match may have.
pub const MIN_MATCH_SCORE: u16 = 80;

/// How far, in milliseconds, a candidate's length may be from the
/// recording's duration.
pub const LENGTH_TOLERANCE_MS: u64 = 5_000;

/// One artist credit of a search result.
#[derive(Clone, Debug, PartialEq, Eq)]
pub struct ArtistCredit {
    pub name: String,
    pub joinphrase: String,
}

/// One recording of a search result.
#[derive(Clone, Debug, PartialEq, Eq)]
pub struct SearchRecording {
    pub id: String,
    pub score: u16,
    pub title: String,
    pub length: Option<u64>,
    pub artist_credit: Vec<ArtistCredit>,
    pub isrcs: Vec<String>,
}

/// The recording MusicBrainz matched.
#[derive(Clone, Debug, PartialEq, Eq)]
pub struct MusicBrainzMatch {
    pub recording_id: String,
    pub title: String,
    pub artist_credit: String,
    pub length_ms: Option<u64>,
    pub score: u16,
    pub isrcs: Vec<String>,
}

/// The text of a title compared for matching: its alphanumeric characters,
/// lower-cased.
pub open spec fn normalized_text(s: Seq<char>) -> Seq<char>
    decreases s.len(),
{
    if s.len() == 0 {
        Seq::empty()
    } else if alphanumeric(s.last()) {
        normalized_text(s.drop_last()) + char_lowercase_of(s.last())
    } else {
        normalized_text(s.drop_last())
    }
}

/// The credited artists, each name followed by its join phrase.
pub open spec fn credit_text(credits: Seq<ArtistCredit>) -> Seq<char>
    decreases credits.len(),
{
    if credits.len() == 0 {
        Seq::empty()
    } else {
        credit_text(credits.drop_last()) + credits.last().name@ + credits.last().joinphrase@
    }
}

/// Whether a candidate may match the requested recording: a score of at
/// least 80 and, unless the request has an ISRC, the same normalised title
/// and a length (when given) within five seconds of the duration.
pub open spec fn acceptable(c: SearchRecording, requested: RecordingIdentity) -> bool {
    &&& c.score >= MIN_MATCH_SCORE
    &&& requested.isrc is Some || {
        &&& normalized_text(c.title@) == normalized_text(requested.title@)
        &&& match c.length {
            Some(len) => if len >= requested.duration_ms {
                len - requested.duration_ms <= LENGTH_TOLERANCE_MS
            } else {
                requested.duration_ms - len <= LENGTH_TOLERANCE_MS
            },
            None => true,
        }
    }
}

/// Candidate `b` is the match: acceptable, with the highest score among the
/// acceptable ones, and the first of those with that score.
pub open spec fn is_best(cands: Seq<SearchRecording>, requested: RecordingIdentity, b: int) -> bool {
    &&& 0 <= b < cands.len()
    &&& acceptable(cands[b], requested)
    &&& forall|j: int|
        0 <= j < cands.len() && acceptable(#[trigger] cands[j], requested) ==> cands[j].score
            <= cands[b].score && (cands[j].score == cands[b].score ==> b <= j)
}

/// There is at most one best candidate.
pub proof fn lemma_best_is_unique(
    cands: Seq<SearchRecording>,
    requested: RecordingIdentity,
    a: int,
    b: int,
)
    requires
        is_best(cands, requested, a),
        is_best(cands, requested, b),
    ensures
        a == b,
{
    assert(acceptable(cands[a], requested));
    assert(acceptable(cands[b], requested));
}

/// A candidate is acceptable exactly when it scores at least 80 and, unless
/// the request has an ISRC, its normalised title is the request's and its
/// length, when given, is within five seconds of the requested duration,
/// whether shorter or longer.
pub proof fn lemma_acceptable_is_close(c: SearchRecording, requested: RecordingIdentity)
    ensures
        acceptable(c, requested) <==> c.score >= 80 && (requested.isrc is Some || (normalized_text(
            c.title@,
        ) == normalized_text(requested.title@) && match c.length {
            Some(len) => len <= requested.duration_ms + 5000 && requested.duration_ms <= len
                + 5000,
            None => true,
        })),
{
}

/// `m` reports candidate `c`.
pub open spec fn reports(m: MusicBrainzMatch, c: SearchRecording) -> bool {
    &&& m.recording_id@ == c.id@
    &&& m.title@ == c.title@
    &&& m.artist_credit@ == credit_text(c.artist_credit@)
    &&& m.length_ms == c.length
    &&& m.score == c.score
    &&& strings_view(m.isrcs@) == strings_view(c.isrcs@)
}

/// The alphanumeric characters of `value`, lower-cased.
pub fn normalize_text(value: &str) -> (r: Vec<char>)
    ensures
        r@ == normalized_text(value@),
{
    let cs = chars_of(value);
    let mut out: Vec<char> = Vec::new();
    for i in 0..cs.len()
        invariant
            cs@ == value@,
            out@ == normalized_text(cs@.take(i as int)),
    {
        let c = cs[i];
        proof {
            assert(cs@.take(i + 1).drop_last() =~= cs@.take(i as int));
        }
        if is_alphanumeric(c) {
            let lower = char_to_lowercase(c);
            push_chars(&mut out, lower.as_slice());
        }
    }
    proof {
        assert(cs@.take(cs@.len() as int) =~= cs@);
    }
    out
}

fn chars_eq(a: &[char], b: &[char]) -> (r: bool)
    ensures
        r == (a@ == b@),
{
    if a.len() != b.len() {
        return false;
    }
    let mut i: usize = 0;
    while i < a.len()
        invariant
            a@.len() == b@.len(),
            i <= a@.len(),
            forall|k: int| 0 <= k < i ==> a@[k] == b@[k],
        decreases a@.len() - i,
    {
        if a[i] != b[i] {
            return false;
        }
        i = i + 1;
    }
    proof {
        assert(a@ =~= b@);
    }
    true
}

fn is_acceptable(c: &SearchRecording, requested: &RecordingIdentity, requested_title: &Vec<char>) -> (r:
    bool)
    requires
        requested_title@ == normalized_text(requested.title@),
    ensures
        r == acceptable(*c, *requested),
{
    if c.score < MIN_MATCH_SCORE {
        return false;
    }
    if requested.isrc.is_some() {
        return true;
    }
    let title = normalize_text(c.title.as_str());
    let title_matches = chars_eq(title.as_slice(), requested_title.as_slice());
    let duration_matches = match c.length {
        Some(len) => {
            let diff = if len >= requested.duration_ms {
                len - requested.duration_ms
            } else {
                requested.duration_ms - len
            };
            diff <= LENGTH_TOLERANCE_MS
        },
        None => true,
    };
    title_matches && duration_matches
}

/// The credited artists, each name followed by its join phrase.
pub fn artist_credit_text(credits: &Vec<ArtistCredit>) -> (s: String)
    ensures
        s@ == credit_text(credits@),
{
    let mut out: Vec<char> = Vec::new();
    for i in 0..credits.len()
        invariant
            out@ == credit_text(credits@.take(i as int)),
    {
        push_str(&mut out, credits[i].name.as_str());
        push_str(&mut out, credits[i].joinphrase.as_str());
        proof {
            assert(credits@.take(i + 1).drop_last() =~= credits@.take(i as int));
        }
    }
    proof {
        assert(credits@.take(credits@.len() as int) =~= credits@);
    }
    string_from(out.as_slice())
}

/// The best candidate for the requested recording, if any is acceptable:
/// the highest-scoring acceptable candidate, the earliest among equals.
pub fn select_match(requested: &RecordingIdentity, candidates: Vec<SearchRecording>) -> (r: Option<
    MusicBrainzMatch,
>)
    ensures
        r is None <==> forall|j: int|
            0 <= j < candidates@.len() ==> !acceptable(#[trigger] candidates@[j], *requested),
        r matches Some(m) ==> exists|b: int|
            is_best(candidates@, *requested, b) && reports(m, #[trigger] candidates@[b]),
        r matches Some(m) ==> m.score >= 80 && (requested.isrc is None ==> match m.length_ms {
            Some(len) => len <= requested.duration_ms + 5000 && requested.duration_ms <= len
                + 5000,
            None => true,
        }),
{
    let requested_title = normalize_text(requested.title.as_str());
    let n = candidates.len();
    let mut best: Option<usize> = None;
    let mut i: usize = 0;
    while i < n
        invariant
            n == candidates@.len(),
            i <= n,
            requested_title@ == normalized_text(requested.title@),
            match best {
                None => forall|j: int|
                    0 <= j < i ==> !acceptable(#[trigger] candidates@[j], *requested),
                Some(b) => is_best(candidates@.take(i as int), *requested, b as int),
            },
        decreases n - i,
    {
        let ok = is_acceptable(&candidates[i], requested, &requested_title);
        let ghost prev = candidates@.take(i as int);
        let ghost next = candidates@.take(i + 1);
        proof {
            assert(forall|j: int| 0 <= j < i ==> next[j] == prev[j]);
            assert(next[i as int] == candidates@[i as int]);
        }
        if ok {
            match best {
                None => {
                    best = Some(i);
                },
                Some(b) => {
                    if candidates[i].score > candidates[b].score {
                        best = Some(i);
                    }
                },
            }
        }
        proof {
            match best {
                None => {},
                Some(b) => {
                    assert forall|j: int|
                        0 <= j < next.len() && acceptable(#[trigger] next[j], *requested) implies next[j].score
                        <= next[b as int].score && (next[j].score == next[b as int].score ==> b <= j) by {
                        if j < i {
                            assert(next[j] == prev[j]);
                        }
                    }
                },
            }
        }
        i = i + 1;
    }
    proof {
        assert(candidates@.take(n as int) =~= candidates@);
    }
    match best {
        None => None,
        Some(b) => {
            let mut candidates = candidates;
            let ghost all = candidates@;
            let chosen = candidates.remove(b);
            let artist_credit = artist_credit_text(&chosen.artist_credit);
            let m = MusicBrainzMatch {
                recording_id: chosen.id,
                title: chosen.title,
                artist_credit,
                length_ms: chosen.length,
                score: chosen.score,
                isrcs: chosen.isrcs,
            };
            proof {
                assert(is_best(all, *requested, b as int));
                assert(reports(m, all[b as int]));
                lemma_acceptable_is_close(all[b as int], *requested);
            }
            Some(m)
        },
    }
}

/// One character of a query phrase, escaped: a backslash or a double
/// quote gets a backslash in front.
pub open spec fn escape_char(c: char) -> Seq<char> {
    if c == '\\' {
        seq!['\\', '\\']
    } else if c == '"' {
        seq!['\\', '"']
    } else {
        seq![c]
    }
}

/// `s` with every backslash and double quote escaped.
pub open spec fn escaped(s: Seq<char>) -> Seq<char>
    decreases s.len(),
{
    if s.len() == 0 {
        Seq::empty()
    } else {
        escaped(s.drop_last()) + escape_char(s.last())
    }
}

/// `value` as a quoted search phrase, with backslashes and quotes escaped.
pub fn quote_query(value: &str) -> (r: String)
    ensures
        r@ == seq!['"'] + escaped(value@) + seq!['"'],
{
    let cs = chars_of(value);
    let mut out: Vec<char> = Vec::new();
    out.push('"');
    for i in 0..cs.len()
        invariant
            cs@ == value@,
            out@ == seq!['"'] + escaped(cs@.take(i as int)),
    {
        let c = cs[i];
        if c == '\\' {
            out.push('\\');
            out.push('\\');
        } else if c == '"' {
            out.push('\\');
            out.push('"');
        } else {
            out.push(c);
        }
        proof {
            assert(cs@.take(i + 1).drop_last() =~= cs@.take(i as int));
            assert(out@ =~= seq!['"'] + escaped(cs@.take(i + 1)));
        }
    }
    out.push('"');
    proof {
        assert(cs@.take(cs@.len() as int) =~= cs@);
    }
    string_from(out.as_slice())
}

/// The search query for a recording: by ISRC when it has one, otherwise by
/// quoted title and artist and its duration in two-second units (rounded to
/// nearest).
pub open spec fn search_query_of(r: RecordingIdentity) -> Seq<char> {
    match r.isrc {
        Some(isrc) => "isrc:"@ + isrc@,
        None => "recording:"@ + seq!['"'] + escaped(r.title@) + seq!['"'] + " AND artist:"@
            + seq!['"'] + escaped(r.artist@) + seq!['"'] + " AND qdur:"@ + decimal(
            ((r.duration_ms + 1000) / 2000) as nat,
        ),
    }
}

/// The search query for a recording.
pub fn search_query(recording: &RecordingIdentity) -> (q: String)
    requires
        recording.isrc is None ==> recording.duration_ms + 1000 <= u64::MAX,
    ensures
        q@ == search_query_of(*recording),
{
    let mut out: Vec<char> = Vec::new();
    match &recording.isrc {
        Some(isrc) => {
            push_str(&mut out, "isrc:");
            push_str(&mut out, isrc.as_str());
        },
        None => {
            push_str(&mut out, "recording:");
            let title = quote_query(recording.title.as_str());
            push_str(&mut out, title.as_str());
            push_str(&mut out, " AND artist:");
            let artist = quote_query(recording.artist.as_str());
            push_str(&mut out, artist.as_str());
            push_str(&mut out, " AND qdur:");
            push_decimal(&mut out, (recording.duration_ms + 1000) / 2000);
        },
    }
    proof {
        assert(out@ =~= search_query_of(*recording));
    }
    string_from(out.as_slice())
}

/// Take what a match tells of a recording: its MusicBrainz recording
/// identifier, and its first ISRC (normalised) when the recording has none.
pub fn adopt_match(identity: &mut RecordingIdentity, matched: &MusicBrainzMatch)
    ensures
        opt_chars(final(identity).musicbrainz_recording_id) == Some(matched.recording_id@),
        old(identity).isrc is Some ==> final(identity).isrc == old(identity).isrc,
        old(identity).isrc is None && matched.isrcs@.len() > 0 ==> opt_chars(final(identity).isrc)
            == Some(normalized_isrc(matched.isrcs@[0]@)),
        old(identity).isrc is None && matched.isrcs@.len() == 0 ==> final(identity).isrc is None,
        final(identity).title == old(identity).title,
        final(identity).artist == old(identity).artist,
        final(identity).duration_ms == old(identity).duration_ms,
        final(identity).provider_ids == old(identity).provider_ids,
{
    identity.set_musicbrainz_recording_id(matched.recording_id.clone());
    if identity.isrc.is_none() && matched.isrcs.len() > 0 {
        identity.set_isrc(matched.isrcs[0].as_str());
    }
}

/// How long to wait before the next request so that requests are at least
/// a second apart, given the time since the previous one (if any).
pub fn rate_limit_wait(since_last_request: Option<Duration>) -> (w: Option<Duration>)
    ensures
        match since_last_request {
            Some(e) => if e@ < NANOS_PER_SEC {
                w matches Some(d) && d@ == NANOS_PER_SEC - e@
            } else {
                w is None
            },
            None => w is None,
        },
{
    match since_last_request {
        Some(elapsed) => {
            let interval = Duration::from_secs(1);
            if elapsed.lt(&interval) {
                Some(interval.saturating_sub(elapsed))
            } else {
                None
            }
        },
        None => None,
    }
}

} // verus!
