use phosyncra::analysis::RecordingIdentity;
use phosyncra::musicbrainz::{
    adopt_match, artist_credit_text, normalize_text, quote_query, rate_limit_wait, search_query,
    select_match, ArtistCredit, MusicBrainzMatch, SearchRecording,
};
use phosyncra::time::Duration;

fn identity() -> RecordingIdentity {
    RecordingIdentity {
        title: "One Click Headshot".into(),
        artist: "Feed Me".into(),
        duration_ms: 287_004,
        isrc: None,
        musicbrainz_recording_id: None,
        provider_ids: Vec::new(),
    }
}

fn candidate(id: &str, score: u16, title: &str, length: Option<u64>) -> SearchRecording {
    SearchRecording {
        id: id.into(),
        score,
        title: title.into(),
        length,
        artist_credit: Vec::new(),
        isrcs: Vec::new(),
    }
}

#[test]
fn metadata_match_requires_title_and_reasonable_duration() {
    let candidates = vec![
        SearchRecording {
            id: "wrong".into(),
            score: 100,
            title: "Something Else".into(),
            length: Some(287_000),
            artist_credit: Vec::new(),
            isrcs: Vec::new(),
        },
        SearchRecording {
            id: "right".into(),
            score: 95,
            title: "One Click Headshot".into(),
            length: Some(287_500),
            artist_credit: vec![ArtistCredit { name: "Feed Me".into(), joinphrase: String::new() }],
            isrcs: vec!["GBABC1234567".into()],
        },
    ];

    let matched = select_match(&identity(), candidates).unwrap();
    assert_eq!(matched.recording_id, "right");
    assert_eq!(matched.artist_credit, "Feed Me");
}

#[test]
fn best_score_wins_and_ties_keep_order() {
    let candidates = vec![
        candidate("low", 85, "one click headshot!", None),
        candidate("first", 90, "One-Click Headshot", Some(290_000)),
        candidate("second", 90, "One Click Headshot", None),
        candidate("far", 99, "One Click Headshot", Some(300_000)),
        candidate("weak", 79, "One Click Headshot", None),
    ];
    let matched = select_match(&identity(), candidates).unwrap();
    assert_eq!(matched.recording_id, "first");
    assert_eq!(matched.score, 90);
    assert_eq!(matched.length_ms, Some(290_000));
    assert!(select_match(&identity(), vec![candidate("weak", 79, "One Click Headshot", None)]).is_none());
    let mut with_isrc = identity();
    with_isrc.isrc = Some("X".into());
    let any = select_match(&with_isrc, vec![candidate("a", 80, "Nope", Some(1)), candidate("b", 81, "Nope", None)]);
    assert_eq!(any.unwrap().recording_id, "b");
}

#[test]
fn query_quotes_special_text() {
    assert_eq!(quote_query(r#"A "Quoted" Track"#), r#""A \"Quoted\" Track""#);
}

#[test]
fn queries_and_credits() {
    assert_eq!(quote_query(r"a\b"), r#""a\\b""#);
    assert_eq!(
        search_query(&identity()),
        "recording:\"One Click Headshot\" AND artist:\"Feed Me\" AND qdur:144"
    );
    let mut with_isrc = identity();
    with_isrc.isrc = Some("GBABC1234567".into());
    assert_eq!(search_query(&with_isrc), "isrc:GBABC1234567");
    let credits = vec![
        ArtistCredit { name: "A".into(), joinphrase: " & ".into() },
        ArtistCredit { name: "B".into(), joinphrase: String::new() },
    ];
    assert_eq!(artist_credit_text(&credits), "A & B");
    assert_eq!(normalize_text("Déjà Vu (Live)!").into_iter().collect::<String>(), "déjàvulive");
}

#[test]
fn requests_are_spaced_a_second_apart() {
    assert_eq!(rate_limit_wait(None), None);
    assert_eq!(rate_limit_wait(Some(Duration::from_millis(300))), Some(Duration::from_millis(700)));
    assert_eq!(rate_limit_wait(Some(Duration::from_secs(1))), None);
}

fn matched(isrcs: Vec<String>) -> MusicBrainzMatch {
    MusicBrainzMatch {
        recording_id: "mbid-1".into(),
        title: "One Click Headshot".into(),
        artist_credit: "Feed Me".into(),
        length_ms: Some(287_000),
        score: 100,
        isrcs,
    }
}

#[test]
fn adopting_a_match_fills_a_missing_isrc() {
    let mut id = identity();
    adopt_match(&mut id, &matched(vec!["gb-abc-12-34567".into(), "XX0000000000".into()]));
    assert_eq!(id.musicbrainz_recording_id.as_deref(), Some("mbid-1"));
    assert_eq!(id.isrc.as_deref(), Some("GBABC1234567"));
    assert_eq!(id.title, "One Click Headshot");
}

#[test]
fn adopting_a_match_keeps_a_known_isrc() {
    let mut id = identity();
    id.isrc = Some("USABC1234567".into());
    adopt_match(&mut id, &matched(vec!["GBABC1234567".into()]));
    assert_eq!(id.isrc.as_deref(), Some("USABC1234567"));
    assert_eq!(id.musicbrainz_recording_id.as_deref(), Some("mbid-1"));

    let mut bare = identity();
    adopt_match(&mut bare, &matched(Vec::new()));
    assert_eq!(bare.isrc, None);
}
