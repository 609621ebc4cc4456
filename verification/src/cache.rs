//! Where analysis documents are filed: a stable key per recording.
//!
//! Keys prefer the ISRC, then the MusicBrainz recording identifier, then the
//! Spotify identifier, with normalised metadata as the final fallback.

use crate::analysis::{
    consistent, lookup, pairs_view, validation, AnalysisDocument, RecordingIdentity,
    ValidationError, ANALYSIS_SCHEMA_VERSION,
};
use crate::dirs::join_path;
use crate::hashing::{hex_lower, sha256, sha256_of, to_hex_lower};
use crate::text::{
    chars_of, decimal, lowered_trim, lowercase_of, push_chars, push_decimal, push_str, string_from,
    trimmed,
};
use vstd::prelude::*;
use vstd::utf8::encode_utf8;

verus! {

/// The text a recording's cache key is the digest of.
pub open spec fn canonical_of(r: RecordingIdentity) -> Seq<char> {
    match r.isrc {
        Some(isrc) => "isrc:"@ + isrc@,
        None => match r.musicbrainz_recording_id {
            Some(mbid) => "musicbrainz:"@ + mbid@,
            None => match lookup(pairs_view(r.provider_ids@), "spotify"@) {
                Some(id) => "spotify:"@ + id,
                None => "metadata:"@ + lowercase_of(trimmed(r.artist@)) + seq!['\n']
                    + lowercase_of(trimmed(r.title@)) + seq!['\n'] + decimal(
                    r.duration_ms as nat,
                ),
            },
        },
    }
}

/// The cache key of a recording: the SHA-256 of its canonical text in
/// UTF-8, in lower-case hexadecimal.
pub open spec fn cache_key_of(r: RecordingIdentity) -> Seq<char> {
    hex_lower(sha256_of(encode_utf8(canonical_of(r))))
}

/// `name` inside the directory `root`: joined with one `/` unless `root` is
/// empty or already ends with one (how a relative path is pushed onto a
/// path on Unix).
pub open spec fn joined_path(root: Seq<char>, name: Seq<char>) -> Seq<char> {
    if root.len() == 0 {
        name
    } else if root.last() == '/' {
        root + name
    } else {
        root + seq!['/'] + name
    }
}

/// Why a document read from the cache is refused.
#[derive(Clone, Copy, Debug, PartialEq, Eq, Structural)]
pub enum CacheError {
    /// The document uses another schema version.
    SchemaMismatch(u32),
    /// The document does not describe its recording consistently.
    Invalid(ValidationError),
}

/// What the cache makes of a document read back: refused under another
/// schema version, refused with the first inconsistency found, else taken
/// unchanged.
pub open spec fn loaded(analysis: AnalysisDocument) -> Result<AnalysisDocument, CacheError> {
    if analysis.schema_version != ANALYSIS_SCHEMA_VERSION {
        Err(CacheError::SchemaMismatch(analysis.schema_version))
    } else {
        match validation(analysis) {
            Ok(_) => Ok(analysis),
            Err(e) => Err(CacheError::Invalid(e)),
        }
    }
}

/// A document that saving accepts (it validates) is taken back unchanged
/// when it is read again.
pub proof fn lemma_saved_document_loads_back(analysis: AnalysisDocument)
    requires
        validation(analysis) is Ok,
    ensures
        loaded(analysis) == Ok::<AnalysisDocument, CacheError>(analysis),
{
}

/// A directory of analysis documents, one file per recording.
#[derive(Clone, Debug)]
pub struct AnalysisCache {
    root: String,
}

/// The canonical text of a recording.
pub fn canonical_identity(recording: &RecordingIdentity) -> (s: String)
    ensures
        s@ == canonical_of(*recording),
{
    let mut out: Vec<char> = Vec::new();
    match &recording.isrc {
        Some(isrc) => {
            push_str(&mut out, "isrc:");
            push_str(&mut out, isrc.as_str());
            return string_from(out.as_slice());
        },
        None => {},
    }
    match &recording.musicbrainz_recording_id {
        Some(mbid) => {
            push_str(&mut out, "musicbrainz:");
            push_str(&mut out, mbid.as_str());
            return string_from(out.as_slice());
        },
        None => {},
    }
    match recording.provider_id("spotify") {
        Some(id) => {
            push_str(&mut out, "spotify:");
            push_str(&mut out, id.as_str());
            return string_from(out.as_slice());
        },
        None => {},
    }
    push_str(&mut out, "metadata:");
    let artist = lowered_trim(recording.artist.as_str());
    push_chars(&mut out, artist.as_slice());
    out.push('\n');
    let title = lowered_trim(recording.title.as_str());
    push_chars(&mut out, title.as_slice());
    out.push('\n');
    push_decimal(&mut out, recording.duration_ms);
    proof {
        assert(out@ =~= canonical_of(*recording));
    }
    string_from(out.as_slice())
}


impl AnalysisCache {
    /// A cache in the directory `root`.
    pub fn new(root: String) -> (c: AnalysisCache)
        ensures
            c.root_chars() == root@,
    {
        AnalysisCache { root }
    }

    /// The directory, as characters.
    pub closed spec fn root_chars(self) -> Seq<char> {
        self.root@
    }

    /// The directory of the cache.
    pub fn root(&self) -> (r: &str)
        ensures
            r@ == self.root_chars(),
    {
        self.root.as_str()
    }

    /// The cache key of a recording: 64 lower-case hexadecimal digits.
    pub fn cache_key(recording: &RecordingIdentity) -> (k: String)
        ensures
            k@ == cache_key_of(*recording),
            k@.len() == 64,
    {
        let canonical = canonical_identity(recording);
        let digest = sha256(canonical.as_str().as_bytes());
        to_hex_lower(digest.as_slice())
    }

    /// The file of a recording's document: `<key>.json` in the directory.
    pub fn path_for(&self, recording: &RecordingIdentity) -> (p: String)
        ensures
            p@ == joined_path(self.root_chars(), cache_key_of(*recording) + ".json"@),
    {
        let mut name = chars_of(Self::cache_key(recording).as_str());
        push_str(&mut name, ".json");
        join_path(self.root.as_str(), string_from(name.as_slice()).as_str())
    }

    /// The file a document is first written to before it replaces the
    /// recording's file: `<key>.json.tmp` in the directory.
    pub fn temp_path_for(&self, recording: &RecordingIdentity) -> (p: String)
        ensures
            p@ == joined_path(self.root_chars(), cache_key_of(*recording) + ".json.tmp"@),
    {
        let mut name = chars_of(Self::cache_key(recording).as_str());
        push_str(&mut name, ".json.tmp");
        join_path(self.root.as_str(), string_from(name.as_slice()).as_str())
    }

    /// Accept a document read from the cache: it must use the current schema
    /// and be consistent.
    pub fn accept_loaded(analysis: AnalysisDocument) -> (r: Result<AnalysisDocument, CacheError>)
        ensures
            r == loaded(analysis),
            r is Ok <==> consistent(analysis),
    {
        if analysis.schema_version != ANALYSIS_SCHEMA_VERSION {
            return Err(CacheError::SchemaMismatch(analysis.schema_version));
        }
        match analysis.validate() {
            Ok(()) => Ok(analysis),
            Err(e) => Err(CacheError::Invalid(e)),
        }
    }
}

/// Recordings with the same ISRC share a cache key, whatever else differs.
pub proof fn lemma_key_prefers_isrc(a: RecordingIdentity, b: RecordingIdentity)
    requires
        a.isrc is Some,
        b.isrc is Some,
        a.isrc->0@ == b.isrc->0@,
    ensures
        cache_key_of(a) == cache_key_of(b),
{
}

/// Without an ISRC, recordings with the same MusicBrainz recording
/// identifier share a cache key.
pub proof fn lemma_key_then_musicbrainz(a: RecordingIdentity, b: RecordingIdentity)
    requires
        a.isrc is None,
        b.isrc is None,
        a.musicbrainz_recording_id is Some,
        b.musicbrainz_recording_id is Some,
        a.musicbrainz_recording_id->0@ == b.musicbrainz_recording_id->0@,
    ensures
        cache_key_of(a) == cache_key_of(b),
{
}

/// Without an ISRC or MusicBrainz identifier, recordings with the same
/// Spotify identifier share a cache key.
pub proof fn lemma_key_then_spotify(a: RecordingIdentity, b: RecordingIdentity)
    requires
        a.isrc is None,
        b.isrc is None,
        a.musicbrainz_recording_id is None,
        b.musicbrainz_recording_id is None,
        lookup(pairs_view(a.provider_ids@), "spotify"@) is Some,
        lookup(pairs_view(a.provider_ids@), "spotify"@) == lookup(
            pairs_view(b.provider_ids@),
            "spotify"@,
        ),
    ensures
        cache_key_of(a) == cache_key_of(b),
{
}

/// Falling back to metadata, white space around the artist and title does
/// not change the key.
pub proof fn lemma_key_metadata_ignores_padding(a: RecordingIdentity, b: RecordingIdentity)
    requires
        a.isrc is None,
        b.isrc is None,
        a.musicbrainz_recording_id is None,
        b.musicbrainz_recording_id is None,
        lookup(pairs_view(a.provider_ids@), "spotify"@) is None,
        lookup(pairs_view(b.provider_ids@), "spotify"@) is None,
        trimmed(a.artist@) == trimmed(b.artist@),
        trimmed(a.title@) == trimmed(b.title@),
        a.duration_ms == b.duration_ms,
    ensures
        cache_key_of(a) == cache_key_of(b),
{
}

} // verus!
