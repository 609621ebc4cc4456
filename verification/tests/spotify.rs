use base64::Engine;
use sha2::Digest;
use phosyncra::oauth::{
    callback_pairs, callback_response, callback_target, random_urlsafe, OAuthError, PkceFlow,
    REDIRECT_URI, SCOPE,
};
use phosyncra::spotify::{
    reply_action, PlaybackResponse, ReplyAction, SpotifyArtist, SpotifyItem, TokenSet,
};
use phosyncra::time::Duration;

#[test]
fn generated_authorize_url_uses_pkce_and_loopback() {
    let flow = PkceFlow::new("client-id".into()).unwrap();
    let url = url::Url::parse(flow.authorization_url()).unwrap();
    let query: std::collections::HashMap<_, _> =
        url.query_pairs().map(|(k, v)| (k.into_owned(), v.into_owned())).collect();

    assert_eq!(query.get("client_id").unwrap(), "client-id");
    assert_eq!(query.get("redirect_uri").unwrap(), REDIRECT_URI);
    assert_eq!(query.get("code_challenge_method").unwrap(), "S256");
    assert_eq!(query.get("scope").unwrap(), SCOPE);
    assert!(query.contains_key("code_challenge"));
    assert!(query.contains_key("state"));
}

#[test]
fn pkce_flow_checks_client_and_state() {
    assert_eq!(PkceFlow::new("  ".into()).unwrap_err(), OAuthError::EmptyClientId);
    let flow = PkceFlow::new("id".into()).unwrap();
    let url = url::Url::parse(flow.authorization_url()).unwrap();
    let state = url.query_pairs().find(|(k, _)| k == "state").unwrap().1.into_owned();
    let challenge = url.query_pairs().find(|(k, _)| k == "code_challenge").unwrap().1.into_owned();
    assert_eq!(state.len(), 32);
    assert_eq!(challenge.len(), 43);
    assert!(flow.validate_state(&state).is_ok());
    assert_eq!(flow.validate_state("other"), Err(OAuthError::StateMismatch));
    let form = flow.exchange_form("the-code");
    assert_eq!(form[2], ("code".to_string(), "the-code".to_string()));
    assert_eq!(form[4].0, "code_verifier");
    assert_eq!(form[4].1.len(), 43);

    let good = vec![("code".to_string(), "c1".to_string()), ("state".to_string(), state.clone())];
    assert_eq!(flow.callback_code(&good).unwrap(), "c1");
    let errored = vec![("error".to_string(), "access_denied".to_string())];
    assert_eq!(flow.callback_code(&errored), Err(OAuthError::AuthorizationFailed("access_denied".into())));
    assert_eq!(OAuthError::AuthorizationFailed("access_denied".into()).message(), "Spotify authorization failed: access_denied");
    assert_eq!(flow.callback_code(&vec![]), Err(OAuthError::MissingState));
    let no_code = vec![("state".to_string(), state)];
    assert_eq!(flow.callback_code(&no_code), Err(OAuthError::MissingCode));
    let wrong = vec![("state".to_string(), "x".to_string()), ("code".to_string(), "c".to_string())];
    assert_eq!(flow.callback_code(&wrong), Err(OAuthError::StateMismatch));
}

#[test]
fn callback_requests_are_read() {
    assert_eq!(callback_target("GET /callback?code=a HTTP/1.1\r\nHost: x\r\n\r\n").unwrap(), "/callback?code=a");
    assert_eq!(callback_target(""), Err(OAuthError::InvalidRequest));
    assert_eq!(callback_target("GET\r\n"), Err(OAuthError::InvalidRequestLine));
    assert_eq!(callback_target("  GET   /x"), Ok("/x".to_string()));
    let pairs = callback_pairs("/callback?code=a%20b&state=s&code=z").unwrap();
    assert_eq!(
        pairs,
        vec![
            ("code".to_string(), "a b".to_string()),
            ("state".to_string(), "s".to_string()),
            ("code".to_string(), "z".to_string())
        ]
    );
    let ok = callback_response(true);
    assert!(ok.starts_with("HTTP/1.1 200 OK\r\n"));
    assert!(ok.contains("Content-Length: 96\r\n"));
    assert!(callback_response(false).starts_with("HTTP/1.1 400 Bad Request\r\n"));
}

fn token() -> TokenSet {
    TokenSet {
        access_token: "a".into(),
        refresh_token: "r".into(),
        token_type: "Bearer".into(),
        scope: "s".into(),
        expires_at_unix: 1_000,
    }
}

#[test]
fn tokens_are_refreshed_a_minute_early() {
    assert!(!token().needs_refresh(939));
    assert!(token().needs_refresh(940));
    assert!(token().needs_refresh(u64::MAX));
    let mut t = token();
    t.apply_refresh("a2".into(), "Bearer".into(), "s2".into(), 3_600, None, 10);
    assert_eq!(t.access_token, "a2");
    assert_eq!(t.refresh_token, "r");
    assert_eq!(t.expires_at_unix, 3_610);
    t.apply_refresh("a3".into(), "Bearer".into(), "s2".into(), u64::MAX, Some("r2".into()), 10);
    assert_eq!(t.refresh_token, "r2");
    assert_eq!(t.expires_at_unix, u64::MAX);
    let fresh = TokenSet::from_exchange("x".into(), "Bearer".into(), "s".into(), 60, "y".into(), 100);
    assert_eq!(fresh.expires_at_unix, 160);
    assert_eq!(t.refresh_form("cid")[2], ("client_id".to_string(), "cid".to_string()));
}

#[test]
fn replies_are_classified() {
    assert_eq!(reply_action(401, true, true), ReplyAction::RefreshAndRetry);
    assert_eq!(reply_action(401, false, true), ReplyAction::Failed);
    assert_eq!(reply_action(204, true, true), ReplyAction::NothingPlaying);
    assert_eq!(reply_action(204, true, false), ReplyAction::ReadBody);
    assert_eq!(reply_action(429, false, true), ReplyAction::RateLimited);
    assert_eq!(reply_action(500, false, true), ReplyAction::Failed);
    assert_eq!(reply_action(200, true, true), ReplyAction::ReadBody);
}

#[test]
fn playback_reports_become_snapshots() {
    let item = SpotifyItem {
        id: Some("abc".into()),
        name: "Song".into(),
        duration_ms: 200_000,
        item_type: "track".into(),
        artists: vec![SpotifyArtist { name: "A".into() }, SpotifyArtist { name: "B".into() }],
        external_ids: vec![("isrc".into(), "USX".into())],
    };
    let response = PlaybackResponse {
        device: None,
        progress_ms: Some(1_234),
        is_playing: true,
        item: Some(item.clone()),
        timestamp: Some(9),
    };
    let playback = response.into_playback();
    let snapshot = playback.snapshot.unwrap();
    assert_eq!(snapshot.track.artist, "A, B");
    assert_eq!(snapshot.track.isrc.as_deref(), Some("USX"));
    assert_eq!(snapshot.track.provider_id.as_deref(), Some("spotify:abc"));
    assert_eq!(snapshot.position, Duration::from_millis(1_234));
    assert_eq!(playback.spotify_timestamp_ms, Some(9));
    let episode = PlaybackResponse {
        device: None,
        progress_ms: None,
        is_playing: false,
        item: Some(SpotifyItem { item_type: "episode".into(), ..item }),
        timestamp: None,
    };
    assert!(episode.into_playback().snapshot.is_none());
}

#[test]
fn exchange_verifier_matches_the_sent_challenge() {
    let flow = PkceFlow::new("client".into()).unwrap();
    let copy = flow.clone();
    assert_eq!(copy.authorization_url(), flow.authorization_url());
    let url = url::Url::parse(flow.authorization_url()).unwrap();
    let challenge = url.query_pairs().find(|(k, _)| k == "code_challenge").unwrap().1.into_owned();
    let form = copy.exchange_form("code");
    let digest = sha2::Sha256::digest(form[4].1.as_bytes());
    let expected = base64::engine::general_purpose::URL_SAFE_NO_PAD.encode(digest);
    assert_eq!(challenge, expected);
}

#[test]
fn flow_from_given_parts_carries_their_challenge() {
    let flow = PkceFlow::from_parts("client".into(), "verifier-text".into(), "state-text".into()).unwrap();
    let url = url::Url::parse(flow.authorization_url()).unwrap();
    let get = |name: &str| url.query_pairs().find(|(k, _)| k == name).unwrap().1.into_owned();
    assert_eq!(get("client_id"), "client");
    assert_eq!(get("state"), "state-text");
    let digest = sha2::Sha256::digest("verifier-text".as_bytes());
    assert_eq!(get("code_challenge"), base64::engine::general_purpose::URL_SAFE_NO_PAD.encode(digest));
    assert!(flow.validate_state("state-text").is_ok());
    assert_eq!(flow.exchange_form("c")[4].1, "verifier-text");
}

#[test]
fn unparsable_callback_targets_report_the_parse_error() {
    let expected = url::Url::parse("http://127.0.0.1:43821:x/callback").unwrap_err().to_string();
    let error = callback_pairs(":x/callback").unwrap_err();
    assert_eq!(error, OAuthError::InvalidCallbackUrl(expected.clone()));
    assert_eq!(error.message(), expected);
    assert_eq!(
        OAuthError::RandomUnavailable.message(),
        "operating system random source unavailable"
    );
}

#[test]
fn random_tokens_are_base64_of_the_requested_bytes() {
    let token = random_urlsafe(32).unwrap();
    assert_eq!(token.len(), 43);
    let bytes = base64::engine::general_purpose::URL_SAFE_NO_PAD.decode(token.as_bytes()).unwrap();
    assert_eq!(bytes.len(), 32);
    assert_eq!(random_urlsafe(24).unwrap().len(), 32);
}
