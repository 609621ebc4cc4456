use phosyncra::acousticbrainz::{beats_document, low_level_url};
use phosyncra::analysis::{
    default_strength, normalize_isrc, AnalysisDocument, AnalysisSource, BeatPoint,
    RecordingIdentity, SectionPoint, ValidationError, ANALYSIS_SCHEMA_VERSION,
};
use phosyncra::cache::{canonical_identity, AnalysisCache, CacheError};
use phosyncra::time::Duration;
use phosyncra::track::{TimelineEventKind, TrackIdentity};

fn recording() -> RecordingIdentity {
    RecordingIdentity {
        title: "Example".into(),
        artist: "Artist".into(),
        duration_ms: 120_000,
        isrc: Some("USABC1234567".into()),
        musicbrainz_recording_id: None,
        provider_ids: Vec::new(),
    }
}

fn document_with(beats: Vec<BeatPoint>, sections: Vec<SectionPoint>, duration_ms: u64) -> AnalysisDocument {
    let mut recording = recording();
    recording.duration_ms = duration_ms;
    let mut document = AnalysisDocument::new(recording, AnalysisSource::Imported { name: "test".into() }, 0);
    document.beats = beats;
    document.sections = sections;
    document
}

#[test]
fn rejects_recording_without_musicbrainz_id() {
    let recording = RecordingIdentity {
        title: "Example".into(),
        artist: "Artist".into(),
        duration_ms: 100_000,
        isrc: Some("USABC1234567".into()),
        musicbrainz_recording_id: None,
        provider_ids: Vec::new(),
    };

    assert!(recording.musicbrainz_recording_id.is_none());
}

#[test]
fn low_level_url_needs_musicbrainz_id() {
    let mut r = recording();
    assert!(low_level_url(&r).is_none());
    r.musicbrainz_recording_id = Some("abc-123".into());
    assert_eq!(low_level_url(&r).unwrap(), "https://acousticbrainz.org/api/v1/abc-123/low-level");
}

#[test]
fn acousticbrainz_beats_outside_the_recording_are_dropped() {
    let mut r = recording();
    r.duration_ms = 1_000;
    let document = beats_document(r.clone(), vec![0, 500, 1_000, 1_001, 250], 42).unwrap();
    let positions: Vec<_> = document.beats.iter().map(|b| b.at_ms).collect();
    assert_eq!(positions, vec![0, 500, 1_000, 250]);
    assert!(document.beats.iter().all(|b| !b.downbeat && b.strength_milli == 700));
    assert_eq!(document.source, AnalysisSource::ExternalProvider { name: "AcousticBrainz".into() });
    assert_eq!(document.generated_at_unix, 42);
    assert_eq!(document.validate(), Ok(()));
    assert!(beats_document(r, vec![5_000], 0).is_none());
}

#[test]
fn cache_key_prefers_isrc_and_is_stable() {
    let first = AnalysisCache::cache_key(&recording());
    let second = AnalysisCache::cache_key(&recording());

    assert_eq!(first, second);
    assert_eq!(first.len(), 64);
}

#[test]
fn cache_key_matches_sha256_of_canonical_text() {
    let mut r = recording();
    r.title = "Other".into();
    assert_eq!(canonical_identity(&r), "isrc:USABC1234567");
    assert_eq!(AnalysisCache::cache_key(&r), "0bbef9e2a6488233aef74d88937eedd050fdc9bbc56f30a4ec72831b774b3699");
    assert_eq!(AnalysisCache::cache_key(&r), AnalysisCache::cache_key(&recording()));
    assert!(AnalysisCache::cache_key(&r).chars().all(|c| c.is_ascii_hexdigit() && !c.is_ascii_uppercase()));
}

#[test]
fn canonical_identity_falls_back_in_order() {
    let mut r = recording();
    r.isrc = None;
    r.musicbrainz_recording_id = Some("mbid".into());
    r.provider_ids = vec![("spotify".into(), "abc".into())];
    assert_eq!(canonical_identity(&r), "musicbrainz:mbid");
    r.musicbrainz_recording_id = None;
    assert_eq!(canonical_identity(&r), "spotify:abc");
    r.provider_ids = vec![("other".into(), "x".into())];
    r.artist = "  The ARTIST ".into();
    r.title = "\tSong Title\n".into();
    assert_eq!(canonical_identity(&r), "metadata:the artist\nsong title\n120000");
}

#[test]
fn cache_paths_join_the_root() {
    let cache = AnalysisCache::new("/tmp/cache".into());
    let key = AnalysisCache::cache_key(&recording());
    assert_eq!(cache.path_for(&recording()), format!("/tmp/cache/{key}.json"));
    assert_eq!(cache.temp_path_for(&recording()), format!("/tmp/cache/{key}.json.tmp"));
    let slash = AnalysisCache::new("dir/".into());
    assert_eq!(slash.path_for(&recording()), format!("dir/{key}.json"));
    let empty = AnalysisCache::new(String::new());
    assert_eq!(empty.path_for(&recording()), format!("{key}.json"));
    assert_eq!(cache.root(), "/tmp/cache");
}

#[test]
fn loaded_documents_are_checked() {
    let good = document_with(vec![], vec![], 1_000);
    assert!(AnalysisCache::accept_loaded(good.clone()).is_ok());
    let mut old = good.clone();
    old.schema_version = 7;
    assert_eq!(AnalysisCache::accept_loaded(old), Err(CacheError::SchemaMismatch(7)));
    let bad = document_with(vec![BeatPoint { at_ms: 2_000, downbeat: false, strength_milli: 1 }], vec![], 1_000);
    assert_eq!(
        AnalysisCache::accept_loaded(bad),
        Err(CacheError::Invalid(ValidationError::BeatPastDuration(2_000)))
    );
}

#[test]
fn track_identity_normalizes_spotify_and_isrc() {
    let track = TrackIdentity {
        title: "Example".into(),
        artist: "Artist".into(),
        duration_ms: 123_000,
        isrc: Some("us-abc-12-34567".into()),
        provider_id: Some("spotify:abc123".into()),
    };

    let recording = RecordingIdentity::from_track(&track);
    assert_eq!(recording.isrc.as_deref(), Some("USABC1234567"));
    assert_eq!(recording.provider_id("spotify").as_deref(), Some("abc123"));
}

#[test]
fn provider_without_colon_is_filed_as_unknown() {
    let track = TrackIdentity {
        title: "T".into(),
        artist: "A".into(),
        duration_ms: 1,
        isrc: None,
        provider_id: Some("plainid".into()),
    };
    let recording = RecordingIdentity::from_track(&track);
    assert_eq!(recording.provider_ids, vec![("unknown".to_string(), "plainid".to_string())]);
    assert!(recording.isrc.is_none());
    let split = TrackIdentity { provider_id: Some("a:b:c".into()), ..track };
    assert_eq!(RecordingIdentity::from_track(&split).provider_ids, vec![("a".to_string(), "b:c".to_string())]);
    assert_eq!(normalize_isrc(" gb-xyz 99 "), "GBXYZ99");
}

#[test]
fn document_converts_to_sorted_timeline() {
    let recording = RecordingIdentity {
        title: "Example".into(),
        artist: "Artist".into(),
        duration_ms: 10_000,
        isrc: None,
        musicbrainz_recording_id: None,
        provider_ids: Vec::new(),
    };
    let mut analysis =
        AnalysisDocument::new(recording, AnalysisSource::Imported { name: "test".into() }, 0);
    analysis.beats = vec![
        BeatPoint { at_ms: 2_000, downbeat: false, strength_milli: 500 },
        BeatPoint { at_ms: 1_000, downbeat: true, strength_milli: 900 },
    ];
    analysis.sections.push(SectionPoint {
        start_ms: 1_500,
        end_ms: 5_000,
        label: Some("verse".into()),
        confidence_milli: 800,
    });

    let positions: Vec<_> =
        analysis.timeline().events().iter().map(|event| event.at.as_millis()).collect();

    assert_eq!(positions, vec![1_000, 1_500, 2_000]);
}

#[test]
fn timeline_caps_strength_and_marks_kinds() {
    let analysis = document_with(
        vec![BeatPoint { at_ms: 10, downbeat: true, strength_milli: 4_000 }],
        vec![SectionPoint { start_ms: 10, end_ms: 20, label: None, confidence_milli: 2_000 }],
        100,
    );
    let timeline = analysis.timeline();
    let events = timeline.events();
    assert_eq!(events.len(), 2);
    assert_eq!(events[0].kind, TimelineEventKind::Downbeat);
    assert_eq!(events[0].strength_milli, 1_000);
    assert_eq!(events[1].kind, TimelineEventKind::Section);
    assert_eq!(events[1].strength_milli, 1_000);
    assert_eq!(events[1].at, Duration::from_millis(10));
}

#[test]
fn validation_reports_the_first_failure() {
    let mut d = document_with(vec![], vec![], 1_000);
    assert_eq!(d.validate(), Ok(()));
    d.schema_version = 2;
    assert_eq!(d.validate(), Err(ValidationError::UnsupportedSchema(2)));
    d.schema_version = ANALYSIS_SCHEMA_VERSION;
    d.beats = vec![
        BeatPoint { at_ms: 1_001, downbeat: false, strength_milli: default_strength() },
        BeatPoint { at_ms: 1_002, downbeat: false, strength_milli: 700 },
    ];
    assert_eq!(d.validate(), Err(ValidationError::BeatPastDuration(1_001)));
    d.beats.clear();
    d.sections = vec![
        SectionPoint { start_ms: 10, end_ms: 5, label: None, confidence_milli: 0 },
        SectionPoint { start_ms: 10, end_ms: 5_000, label: None, confidence_milli: 0 },
    ];
    assert_eq!(d.validate(), Err(ValidationError::InvalidSectionRange { start_ms: 10, end_ms: 5 }));
    d.sections.remove(0);
    assert_eq!(d.validate(), Err(ValidationError::SectionPastDuration(5_000)));
}

#[test]
fn validation_messages() {
    assert_eq!(ValidationError::UnsupportedSchema(3).message(), "unsupported analysis schema version 3");
    assert_eq!(ValidationError::BeatPastDuration(12).message(), "beat at 12 ms is past recording duration");
    assert_eq!(
        ValidationError::InvalidSectionRange { start_ms: 9, end_ms: 4 }.message(),
        "section starts at 9 ms but ends at 4 ms"
    );
    assert_eq!(ValidationError::SectionPastDuration(0).message(), "section ending at 0 ms is past recording duration");
}

#[test]
fn identity_setters_normalize_and_keep_the_rest() {
    let mut r = recording();
    r.set_isrc("us-xyz-99-00001");
    assert_eq!(r.isrc.as_deref(), Some("USXYZ9900001"));
    r.set_musicbrainz_recording_id("mbid-9".into());
    assert_eq!(r.musicbrainz_recording_id.as_deref(), Some("mbid-9"));
    assert_eq!(r.title, "Example");
    assert_eq!(r.duration_ms, 120_000);
}

#[test]
fn saved_documents_load_back_unchanged() {
    let document = document_with(
        vec![BeatPoint { at_ms: 500, downbeat: true, strength_milli: 1_000 }],
        vec![SectionPoint { start_ms: 0, end_ms: 900, label: Some("intro".into()), confidence_milli: 5 }],
        1_000,
    );
    assert!(document.validate().is_ok());
    assert_eq!(AnalysisCache::accept_loaded(document.clone()), Ok(document));
}
