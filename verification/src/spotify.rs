//! Spotify playback state and OAuth tokens.

use crate::analysis::lookup;
use crate::text::{push_str, string_from};
use crate::time::Duration;
use crate::track::{opt_chars, PlaybackSnapshot, TrackIdentity};
use vstd::prelude::*;

verus! {

/// A Spotify Connect device.
#[derive(Clone, Debug, PartialEq, Eq)]
pub struct SpotifyDevice {
    pub id: Option<String>,
    pub is_active: bool,
    pub is_private_session: bool,
    pub is_restricted: bool,
    pub name: String,
    pub device_type: String,
    pub volume_percent: Option<u8>,
    pub supports_volume: bool,
}

/// What Spotify reports as playing, and on which device.
#[derive(Clone, Debug, PartialEq, Eq)]
pub struct SpotifyPlayback {
    pub snapshot: Option<PlaybackSnapshot>,
    pub device: Option<SpotifyDevice>,
    pub spotify_timestamp_ms: Option<u64>,
}

/// An artist of a playing item.
#[derive(Clone, Debug, PartialEq, Eq)]
pub struct SpotifyArtist {
    pub name: String,
}

/// The playing item of a playback report.
#[derive(Clone, Debug, PartialEq, Eq)]
pub struct SpotifyItem {
    pub id: Option<String>,
    pub name: String,
    pub duration_ms: u64,
    pub item_type: String,
    pub artists: Vec<SpotifyArtist>,
    /// External identifiers by kind (such as `isrc`); each kind once (see
    /// `keys_distinct`), so a kind is looked up wherever its pair stands.
    pub external_ids: Vec<(String, String)>,
}

/// A playback report of the player endpoint.
#[derive(Clone, Debug, PartialEq, Eq)]
pub struct PlaybackResponse {
    pub device: Option<SpotifyDevice>,
    pub progress_ms: Option<u64>,
    pub is_playing: bool,
    pub item: Option<SpotifyItem>,
    pub timestamp: Option<u64>,
}

/// The artists' names separated by `", "`.
pub open spec fn artist_names(artists: Seq<SpotifyArtist>) -> Seq<char>
    decreases artists.len(),
{
    if artists.len() == 0 {
        Seq::empty()
    } else if artists.len() == 1 {
        artists[0].name@
    } else {
        artist_names(artists.drop_last()) + ", "@ + artists.last().name@
    }
}

/// The characters of each pair of a list of string pairs.
pub open spec fn pair_chars(v: Seq<(String, String)>) -> Seq<(Seq<char>, Seq<char>)> {
    v.map_values(|p: (String, String)| (p.0@, p.1@))
}

/// The track a playing item describes, given it is a track.
pub open spec fn item_track(t: TrackIdentity, item: SpotifyItem) -> bool {
    &&& t.title@ == item.name@
    &&& t.artist@ == artist_names(item.artists@)
    &&& t.duration_ms == item.duration_ms
    &&& opt_chars(t.isrc) == lookup(pair_chars(item.external_ids@), "isrc"@)
    &&& opt_chars(t.provider_id) == match item.id {
        Some(id) => Some("spotify:"@ + id@),
        None => None::<Seq<char>>,
    }
}

/// The track of a playing item has the item's name as its title, the item's
/// duration in milliseconds exactly, the item's ISRC when it lists one, and
/// the item's identifier under `spotify:`.
pub proof fn lemma_item_track_keeps_the_item(t: TrackIdentity, item: SpotifyItem)
    requires
        item_track(t, item),
    ensures
        t.title@ == item.name@,
        t.duration_ms == item.duration_ms,
        opt_chars(t.isrc) == lookup(pair_chars(item.external_ids@), "isrc"@),
        opt_chars(t.provider_id) == match item.id {
            Some(id) => Some("spotify:"@ + id@),
            None => None::<Seq<char>>,
        },
{
}

/// The artists' names separated by `", "`.
pub fn join_artist_names(artists: &Vec<SpotifyArtist>) -> (s: String)
    ensures
        s@ == artist_names(artists@),
{
    let mut out: Vec<char> = Vec::new();
    for i in 0..artists.len()
        invariant
            out@ == artist_names(artists@.take(i as int)),
    {
        if i > 0 {
            push_str(&mut out, ", ");
        }
        push_str(&mut out, artists[i].name.as_str());
        proof {
            assert(artists@.take(i + 1).drop_last() =~= artists@.take(i as int));
            if i == 0 {
                assert(out@ =~= artists@.take(1)[0].name@);
            }
        }
    }
    proof {
        assert(artists@.take(artists@.len() as int) =~= artists@);
    }
    string_from(out.as_slice())
}

fn lookup_pair(pairs: &Vec<(String, String)>, key: &str) -> (r: Option<String>)
    ensures
        opt_chars(r) == lookup(pair_chars(pairs@), key@),
{
    let n = pairs.len();
    let mut i: usize = 0;
    proof {
        assert(pair_chars(pairs@).skip(0) =~= pair_chars(pairs@));
    }
    while i < n
        invariant
            i <= n == pairs@.len(),
            lookup(pair_chars(pairs@), key@) == lookup(pair_chars(pairs@).skip(i as int), key@),
        decreases n - i,
    {
        let ghost rest = pair_chars(pairs@).skip(i as int);
        proof {
            assert(rest.drop_first() =~= pair_chars(pairs@).skip(i + 1));
            assert(rest[0] == (pairs@[i as int].0@, pairs@[i as int].1@));
        }
        if crate::text::str_eq(pairs[i].0.as_str(), key) {
            return Some(pairs[i].1.clone());
        }
        i = i + 1;
    }
    None
}

impl PlaybackResponse {
    /// The snapshot of a playing track (nothing for other kinds of item),
    /// its device and Spotify's timestamp.
    pub fn into_playback(self) -> (p: SpotifyPlayback)
        ensures
            p.device == self.device,
            p.spotify_timestamp_ms == self.timestamp,
            match self.item {
                Some(item) => if item.item_type@ == "track"@ {
                    p.snapshot matches Some(s) && item_track(s.track, item) && s.position@ == match self.progress_ms {
                        Some(ms) => ms * crate::time::NANOS_PER_MILLI,
                        None => 0,
                    } && s.playing == self.is_playing
                } else {
                    p.snapshot is None
                },
                None => p.snapshot is None,
            },
            match self.item {
                Some(item) => item.item_type@ == "track"@ ==> (p.snapshot matches Some(s)
                    && s.track.title@ == item.name@ && s.track.duration_ms == item.duration_ms
                    && opt_chars(s.track.isrc) == lookup(pair_chars(item.external_ids@), "isrc"@)),
                None => true,
            },
    {
        let ghost original_item = self.item;
        let snapshot = match self.item {
            Some(item) => {
                if crate::text::str_eq(item.item_type.as_str(), "track") {
                    let artist = join_artist_names(&item.artists);
                    let isrc = lookup_pair(&item.external_ids, "isrc");
                    let provider_id = match &item.id {
                        Some(id) => {
                            let mut out: Vec<char> = Vec::new();
                            push_str(&mut out, "spotify:");
                            push_str(&mut out, id.as_str());
                            Some(string_from(out.as_slice()))
                        },
                        None => None,
                    };
                    let progress = match self.progress_ms {
                        Some(ms) => ms,
                        None => 0,
                    };
                    Some(
                        PlaybackSnapshot {
                            track: TrackIdentity {
                                title: item.name,
                                artist,
                                duration_ms: item.duration_ms,
                                isrc,
                                provider_id,
                            },
                            position: Duration::from_millis(progress),
                            playing: self.is_playing,
                        },
                    )
                } else {
                    None
                }
            },
            None => None,
        };
        let ghost snap = snapshot;
        proof {
            match (original_item, snap) {
                (Some(item), Some(s)) => {
                    if item.item_type@ == "track"@ {
                        lemma_item_track_keeps_the_item(s.track, item);
                    }
                },
                _ => {},
            }
        }
        SpotifyPlayback { snapshot, device: self.device, spotify_timestamp_ms: self.timestamp }
    }
}

/// Stored OAuth tokens.
#[derive(Clone, Debug, PartialEq, Eq)]
pub struct TokenSet {
    pub access_token: String,
    pub refresh_token: String,
    pub token_type: String,
    pub scope: String,
    pub expires_at_unix: u64,
}

/// The seconds before expiry at which an access token is renewed.
pub const REFRESH_MARGIN_SECS: u64 = 60;

/// `a + b`, capped at `u64::MAX`.
pub open spec fn sat_add_u64(a: u64, b: u64) -> u64 {
    if a + b > u64::MAX {
        u64::MAX
    } else {
        (a + b) as u64
    }
}

impl TokenSet {
    /// Whether the access token expires within a minute of `now_unix`.
    pub fn needs_refresh(&self, now_unix: u64) -> (b: bool)
        ensures
            b == (self.expires_at_unix <= sat_add_u64(now_unix, REFRESH_MARGIN_SECS)),
    {
        self.expires_at_unix <= now_unix.saturating_add(REFRESH_MARGIN_SECS)
    }

    /// The tokens of an authorisation-code exchange answered at `now_unix`.
    pub fn from_exchange(
        access_token: String,
        token_type: String,
        scope: String,
        expires_in: u64,
        refresh_token: String,
        now_unix: u64,
    ) -> (t: TokenSet)
        ensures
            t.access_token == access_token,
            t.refresh_token == refresh_token,
            t.token_type == token_type,
            t.scope == scope,
            t.expires_at_unix == sat_add_u64(now_unix, expires_in),
    {
        TokenSet {
            access_token,
            refresh_token,
            token_type,
            scope,
            expires_at_unix: now_unix.saturating_add(expires_in),
        }
    }

    /// Take a refresh answered at `now_unix`: the new access token, type,
    /// scope and expiry, and the new refresh token when one was issued.
    pub fn apply_refresh(
        &mut self,
        access_token: String,
        token_type: String,
        scope: String,
        expires_in: u64,
        refresh_token: Option<String>,
        now_unix: u64,
    )
        ensures
            final(self).access_token == access_token,
            final(self).token_type == token_type,
            final(self).scope == scope,
            final(self).expires_at_unix == sat_add_u64(now_unix, expires_in),
            final(self).refresh_token == match refresh_token {
                Some(r) => r,
                None => old(self).refresh_token,
            },
    {
        self.access_token = access_token;
        self.token_type = token_type;
        self.scope = scope;
        self.expires_at_unix = now_unix.saturating_add(expires_in);
        match refresh_token {
            Some(r) => {
                self.refresh_token = r;
            },
            None => {},
        }
    }

    /// The form that asks for a new access token.
    pub fn refresh_form(&self, client_id: &str) -> (form: Vec<(String, String)>)
        ensures
            pair_chars(form@) == seq![
                ("grant_type"@, "refresh_token"@),
                ("refresh_token"@, self.refresh_token@),
                ("client_id"@, client_id@),
            ],
    {
        let form = vec![
            ("grant_type".to_owned(), "refresh_token".to_owned()),
            ("refresh_token".to_owned(), self.refresh_token.clone()),
            ("client_id".to_owned(), client_id.to_owned()),
        ];
        proof {
            assert(pair_chars(form@) =~= seq![
                ("grant_type"@, "refresh_token"@),
                ("refresh_token"@, self.refresh_token@),
                ("client_id"@, client_id@),
            ]);
        }
        form
    }
}

/// What to do with a Web API reply.
#[derive(Clone, Copy, Debug, PartialEq, Eq, Structural)]
pub enum ReplyAction {
    /// The access token was refused: refresh it and ask again.
    RefreshAndRetry,
    /// Nothing is playing.
    NothingPlaying,
    /// Too many requests.
    RateLimited,
    /// Any other failure.
    Failed,
    /// Read the body.
    ReadBody,
}

/// What to do with a reply of HTTP status `status`: a refused token is
/// refreshed once (on the first attempt); `204 No Content` means nothing
/// plays where `no_content_is_idle`; `429` is a rate limit; any other status
/// outside 200..=299 is a failure.
pub fn reply_action(status: u16, first_attempt: bool, no_content_is_idle: bool) -> (a: ReplyAction)
    ensures
        a == if status == 401 && first_attempt {
            ReplyAction::RefreshAndRetry
        } else if status == 204 && no_content_is_idle {
            ReplyAction::NothingPlaying
        } else if status == 429 {
            ReplyAction::RateLimited
        } else if !(200 <= status <= 299) {
            ReplyAction::Failed
        } else {
            ReplyAction::ReadBody
        },
{
    if status == 401 && first_attempt {
        ReplyAction::RefreshAndRetry
    } else if status == 204 && no_content_is_idle {
        ReplyAction::NothingPlaying
    } else if status == 429 {
        ReplyAction::RateLimited
    } else if !(200 <= status && status <= 299) {
        ReplyAction::Failed
    } else {
        ReplyAction::ReadBody
    }
}

} // verus!
