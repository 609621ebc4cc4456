//! Beat positions from AcousticBrainz low-level data.

use crate::analysis::{
    consistent, AnalysisDocument, AnalysisSource, BeatPoint, RecordingIdentity,
    ANALYSIS_SCHEMA_VERSION,
};
use crate::text::{push_str, string_from};
use vstd::prelude::*;

verus! {

/// The AcousticBrainz API root.
pub const BASE_URL: &'static str = "https://acousticbrainz.org/api/v1";

/// The low-level data URL of a recording, which needs its MusicBrainz
/// recording identifier.
pub fn low_level_url(recording: &RecordingIdentity) -> (r: Option<String>)
    ensures
        match recording.musicbrainz_recording_id {
            Some(id) => r matches Some(u) && u@ == BASE_URL@ + seq!['/'] + id@ + "/low-level"@,
            None => r is None,
        },
{
    match &recording.musicbrainz_recording_id {
        Some(id) => {
            let mut out: Vec<char> = Vec::new();
            push_str(&mut out, BASE_URL);
            out.push('/');
            push_str(&mut out, id.as_str());
            push_str(&mut out, "/low-level");
            proof {
                assert(out@ =~= BASE_URL@ + seq!['/'] + id@ + "/low-level"@);
            }
            Some(string_from(out.as_slice()))
        },
        None => None,
    }
}

/// The beats kept from positions in milliseconds: those within the
/// recording, in order, as plain beats of strength 700.
pub open spec fn kept_beats(positions_ms: Seq<u64>, duration_ms: u64) -> Seq<BeatPoint>
    decreases positions_ms.len(),
{
    if positions_ms.len() == 0 {
        Seq::empty()
    } else {
        let rest = kept_beats(positions_ms.drop_last(), duration_ms);
        if positions_ms.last() <= duration_ms {
            rest.push(BeatPoint { at_ms: positions_ms.last(), downbeat: false, strength_milli: 700 })
        } else {
            rest
        }
    }
}

proof fn lemma_kept_beats_within(positions_ms: Seq<u64>, duration_ms: u64)
    ensures
        forall|i: int|
            0 <= i < kept_beats(positions_ms, duration_ms).len() ==> #[trigger] kept_beats(
                positions_ms,
                duration_ms,
            )[i].at_ms <= duration_ms,
    decreases positions_ms.len(),
{
    if positions_ms.len() > 0 {
        lemma_kept_beats_within(positions_ms.drop_last(), duration_ms);
        let rest = kept_beats(positions_ms.drop_last(), duration_ms);
        let all = kept_beats(positions_ms, duration_ms);
        assert forall|i: int| 0 <= i < all.len() implies #[trigger] all[i].at_ms <= duration_ms by {
            if i < rest.len() {
                assert(all[i] == rest[i]);
            }
        }
    }
}

/// The analysis document of AcousticBrainz beat positions (already rounded
/// to milliseconds) for `recording`: nothing when no beat lies within the
/// recording.
pub fn beats_document(recording: RecordingIdentity, positions_ms: Vec<u64>, generated_at_unix: u64)
    -> (r: Option<AnalysisDocument>)
    ensures
        kept_beats(positions_ms@, recording.duration_ms).len() == 0 ==> r is None,
        kept_beats(positions_ms@, recording.duration_ms).len() > 0 ==> (r matches Some(d) && {
            &&& d.schema_version == ANALYSIS_SCHEMA_VERSION
            &&& d.recording == recording
            &&& d.source matches AnalysisSource::ExternalProvider { name } && name@
                == "AcousticBrainz"@
            &&& d.generated_at_unix == generated_at_unix
            &&& d.beats@ == kept_beats(positions_ms@, recording.duration_ms)
            &&& d.sections@.len() == 0
            &&& consistent(d)
        }),
{
    let duration_ms = recording.duration_ms;
    let mut beats: Vec<BeatPoint> = Vec::new();
    for i in 0..positions_ms.len()
        invariant
            duration_ms == recording.duration_ms,
            beats@ == kept_beats(positions_ms@.take(i as int), duration_ms),
    {
        let at_ms = positions_ms[i];
        proof {
            assert(positions_ms@.take(i + 1).drop_last() =~= positions_ms@.take(i as int));
        }
        if at_ms <= duration_ms {
            beats.push(BeatPoint { at_ms, downbeat: false, strength_milli: 700 });
        }
    }
    proof {
        assert(positions_ms@.take(positions_ms@.len() as int) =~= positions_ms@);
        lemma_kept_beats_within(positions_ms@, duration_ms);
    }
    if beats.len() == 0 {
        return None;
    }
    let mut name: Vec<char> = Vec::new();
    push_str(&mut name, "AcousticBrainz");
    let mut document = AnalysisDocument::new(
        recording,
        AnalysisSource::ExternalProvider { name: string_from(name.as_slice()) },
        generated_at_unix,
    );
    document.beats = beats;
    Some(document)
}

} // verus!
