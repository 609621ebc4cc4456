//! Spotify authorisation with PKCE: the authorisation request, the loopback
//! callback and the token-exchange form.

use crate::analysis::{first_index_of, lookup};
use crate::hashing::{base64_unpadded_len, base64_url_no_pad, base64_url_of, sha256, sha256_of};
use crate::spotify::pair_chars;
use crate::text::{
    chars_of, decimal, is_white_space, is_whitespace, leading_white, push_decimal, push_str,
    string_from, trim, trimmed,
};
use crate::track::opt_chars;
use rand::RngCore;
use vstd::prelude::*;
use vstd::slice::slice_subrange;
use vstd::utf8::encode_utf8;

verus! {

/// Spotify's authorisation endpoint.
pub const AUTHORIZE_URL: &'static str = "https://accounts.spotify.com/authorize";

/// The loopback address Spotify redirects to.
pub const REDIRECT_URI: &'static str = "http://127.0.0.1:43821/callback";

/// The access asked for.
pub const SCOPE: &'static str = "user-read-playback-state";

/// The URL `base` with the pairs appended to its query in
/// `application/x-www-form-urlencoded` form, or nothing when `base` is not a
/// URL.
pub uninterp spec fn url_with_query_of(
    base: Seq<char>,
    pairs: Seq<(Seq<char>, Seq<char>)>,
) -> Option<Seq<char>>;

/// `url::Url::parse(base)`, then `query_pairs_mut().append_pair(..)` for each
/// pair in order, then `as_str()`: the result is the named function of the
/// base and the pairs.
#[verifier::external_body]
pub fn url_with_query(base: &str, pairs: &[(String, String)]) -> (r: Option<String>)
    ensures
        opt_chars(r) == url_with_query_of(base@, pair_chars(pairs@)),
{
    match url::Url::parse(base) {
        Ok(mut url) => {
            for (name, value) in pairs.iter() {
                url.query_pairs_mut().append_pair(name, value);
            }
            Some(url.as_str().to_owned())
        },
        Err(_) => None,
    }
}

/// The decoded query pairs of the URL `url`, in order, or nothing when it is
/// not a URL.
pub uninterp spec fn url_query_pairs_of(url: Seq<char>) -> Option<Seq<(Seq<char>, Seq<char>)>>;

/// The text of the error that `url::Url::parse` reports for `url` when it is
/// not a URL (the `Display` of its `url::ParseError`).
pub uninterp spec fn url_parse_error_of(url: Seq<char>) -> Seq<char>;

/// `url::Url::parse(url)` and then its `query_pairs()`, decoded to owned
/// strings: the pairs are the named function of the text; when the text is
/// not a URL, the parse error's text, also a function of the text.
#[verifier::external_body]
pub fn url_query_pairs(url: &str) -> (r: Result<Vec<(String, String)>, String>)
    ensures
        match r {
            Ok(v) => url_query_pairs_of(url@) == Some(pair_chars(v@)),
            Err(t) => url_query_pairs_of(url@) is None && t@ == url_parse_error_of(url@),
        },
{
    match url::Url::parse(url) {
        Ok(parsed) => Ok(
            parsed.query_pairs().map(|(k, v)| (k.into_owned(), v.into_owned())).collect(),
        ),
        Err(error) => Err(error.to_string()),
    }
}

/// `n` bytes from the operating system's random source
/// (`rand::rngs::OsRng.try_fill_bytes`), or nothing when the operating system
/// cannot supply them; of the bytes only their number is known.
#[verifier::external_body]
pub fn random_bytes(n: usize) -> (r: Option<Vec<u8>>)
    requires
        n <= isize::MAX,
    ensures
        r matches Some(v) ==> v@.len() == n,
{
    let mut data = vec![0u8; n];
    match rand::rngs::OsRng.try_fill_bytes(&mut data) {
        Ok(()) => Some(data),
        Err(_) => None,
    }
}

/// A random URL-safe token from `bytes` random bytes: their URL-safe base64
/// encoding; nothing when no random bytes can be had.
pub fn random_urlsafe(bytes: usize) -> (r: Option<String>)
    requires
        bytes <= usize::MAX / 4,
    ensures
        r matches Some(s) ==> {
            &&& s@.len() == base64_unpadded_len(bytes as nat)
            &&& exists|d: Seq<u8>| d.len() == bytes && s@ == base64_url_of(d)
        },
{
    let data = match random_bytes(bytes) {
        Some(d) => d,
        None => {
            return None;
        },
    };
    let s = base64_url_no_pad(data.as_slice());
    proof {
        assert(data@.len() == bytes && s@ == base64_url_of(data@));
    }
    Some(s)
}

/// Why an authorisation step failed.
#[derive(Clone, Debug, PartialEq, Eq)]
pub enum OAuthError {
    /// The client identifier is blank.
    EmptyClientId,
    /// The authorisation URL could not be built.
    InvalidUrl,
    /// The callback's state is not the one sent.
    StateMismatch,
    /// The callback request has no request line.
    InvalidRequest,
    /// The callback request line has no target.
    InvalidRequestLine,
    /// Spotify reported the given error.
    AuthorizationFailed(String),
    /// The callback has no state.
    MissingState,
    /// The callback has no authorisation code.
    MissingCode,
    /// The callback target does not make a URL; the parse error's text.
    InvalidCallbackUrl(String),
    /// The operating system could not supply random bytes.
    RandomUnavailable,
}

/// The PKCE challenge of a verifier: base64url of the SHA-256 of its UTF-8.
pub open spec fn challenge_of(verifier: Seq<char>) -> Seq<char> {
    base64_url_of(sha256_of(encode_utf8(verifier)))
}

/// The query of the authorisation request.
pub open spec fn authorize_pairs(
    client_id: Seq<char>,
    state: Seq<char>,
    challenge: Seq<char>,
) -> Seq<(Seq<char>, Seq<char>)> {
    seq![
        ("client_id"@, client_id),
        ("response_type"@, "code"@),
        ("redirect_uri"@, REDIRECT_URI@),
        ("scope"@, SCOPE@),
        ("state"@, state),
        ("code_challenge_method"@, "S256"@),
        ("code_challenge"@, challenge),
    ]
}

/// The authorisation request asks for an authorisation code
/// (`response_type=code`) for the client, to be sent to the loopback
/// redirect, for the playback-state scope, with the given state and the
/// challenge of the verifier made by S256.
pub proof fn lemma_authorize_query_asks_for_a_code(
    client_id: Seq<char>,
    state: Seq<char>,
    challenge: Seq<char>,
)
    ensures
        lookup(authorize_pairs(client_id, state, challenge), "response_type"@) == Some("code"@),
        lookup(authorize_pairs(client_id, state, challenge), "client_id"@) == Some(client_id),
        lookup(authorize_pairs(client_id, state, challenge), "redirect_uri"@) == Some(REDIRECT_URI@),
        lookup(authorize_pairs(client_id, state, challenge), "scope"@) == Some(SCOPE@),
        lookup(authorize_pairs(client_id, state, challenge), "state"@) == Some(state),
        lookup(authorize_pairs(client_id, state, challenge), "code_challenge_method"@) == Some(
            "S256"@,
        ),
        lookup(authorize_pairs(client_id, state, challenge), "code_challenge"@) == Some(challenge),
{
    reveal_strlit("client_id");
    reveal_strlit("response_type");
    reveal_strlit("code");
    reveal_strlit("redirect_uri");
    reveal_strlit("scope");
    reveal_strlit("state");
    reveal_strlit("code_challenge_method");
    reveal_strlit("S256");
    reveal_strlit("code_challenge");
    assert("client_id"@.len() == 9);
    assert("response_type"@.len() == 13);
    assert("redirect_uri"@.len() == 12);
    assert("scope"@.len() == 5 && "scope"@[1] == 'c');
    assert("state"@.len() == 5 && "state"@[1] == 't');
    assert("code_challenge_method"@.len() == 21);
    assert("code_challenge"@.len() == 14);
    let p0 = authorize_pairs(client_id, state, challenge);
    let p1 = p0.drop_first();
    let p2 = p1.drop_first();
    let p3 = p2.drop_first();
    let p4 = p3.drop_first();
    let p5 = p4.drop_first();
    let p6 = p5.drop_first();
    assert(p6 =~= seq![("code_challenge"@, challenge)]);
    assert(p5[0] == ("code_challenge_method"@, "S256"@));
    assert(p4[0] == ("state"@, state));
    assert(p3[0] == ("scope"@, SCOPE@));
    assert(p2[0] == ("redirect_uri"@, REDIRECT_URI@));
    assert(p1[0] == ("response_type"@, "code"@));
    assert(p0[0] == ("client_id"@, client_id));
    assert(lookup(p6, "code_challenge"@) == Some(challenge));
    assert(lookup(p5, "code_challenge"@) == Some(challenge));
    assert(lookup(p5, "code_challenge_method"@) == Some("S256"@));
    assert(lookup(p4, "code_challenge"@) == Some(challenge));
    assert(lookup(p4, "code_challenge_method"@) == Some("S256"@));
    assert(lookup(p4, "state"@) == Some(state));
    assert(lookup(p3, "code_challenge"@) == Some(challenge));
    assert(lookup(p3, "code_challenge_method"@) == Some("S256"@));
    assert(lookup(p3, "state"@) == Some(state));
    assert(lookup(p3, "scope"@) == Some(SCOPE@));
    assert(lookup(p2, "code_challenge"@) == Some(challenge));
    assert(lookup(p2, "code_challenge_method"@) == Some("S256"@));
    assert(lookup(p2, "state"@) == Some(state));
    assert(lookup(p2, "scope"@) == Some(SCOPE@));
    assert(lookup(p2, "redirect_uri"@) == Some(REDIRECT_URI@));
    assert(lookup(p1, "code_challenge"@) == Some(challenge));
    assert(lookup(p1, "code_challenge_method"@) == Some("S256"@));
    assert(lookup(p1, "state"@) == Some(state));
    assert(lookup(p1, "scope"@) == Some(SCOPE@));
    assert(lookup(p1, "redirect_uri"@) == Some(REDIRECT_URI@));
    assert(lookup(p1, "response_type"@) == Some("code"@));
}

/// One authorisation attempt: the client, the secret verifier, the state
/// and the URL the user opens.
#[derive(Debug)]
pub struct PkceFlow {
    client_id: String,
    verifier: String,
    state: String,
    authorization_url: String,
}

impl PkceFlow {
    /// The authorisation URL carries the client, the state and the challenge
    /// of the verifier.
    #[verifier::type_invariant]
    spec fn url_matches(self) -> bool {
        Some(self.authorization_url@) == url_with_query_of(
            AUTHORIZE_URL@,
            authorize_pairs(self.client_id@, self.state@, challenge_of(self.verifier@)),
        )
    }

    /// The client identifier.
    pub closed spec fn client(self) -> Seq<char> {
        self.client_id@
    }

    /// The code verifier.
    pub closed spec fn verifier_chars(self) -> Seq<char> {
        self.verifier@
    }

    /// The state sent with the request.
    pub closed spec fn state_chars(self) -> Seq<char> {
        self.state@
    }

    /// The authorisation URL.
    pub closed spec fn url_chars(self) -> Seq<char> {
        self.authorization_url@
    }

    /// A new attempt for `client_id`, with a fresh random verifier (32 bytes)
    /// and state (24 bytes), each URL-safe base64; it fails when the client
    /// is blank, when no random bytes can be had, or when the URL cannot be
    /// built.
    pub fn new(client_id: String) -> (r: Result<PkceFlow, OAuthError>)
        ensures
            trimmed(client_id@).len() == 0 ==> r == Err::<PkceFlow, OAuthError>(
                OAuthError::EmptyClientId,
            ),
            trimmed(client_id@).len() > 0 ==> match r {
                Ok(f) => {
                    &&& f.client() == client_id@
                    &&& f.verifier_chars().len() == 43
                    &&& f.state_chars().len() == 32
                    &&& exists|d: Seq<u8>| d.len() == 32 && f.verifier_chars() == base64_url_of(d)
                    &&& exists|d: Seq<u8>| d.len() == 24 && f.state_chars() == base64_url_of(d)
                    &&& Some(f.url_chars()) == url_with_query_of(
                        AUTHORIZE_URL@,
                        authorize_pairs(
                            client_id@,
                            f.state_chars(),
                            challenge_of(f.verifier_chars()),
                        ),
                    )
                },
                Err(e) => e == OAuthError::InvalidUrl || e == OAuthError::RandomUnavailable,
            },
            r matches Err(OAuthError::InvalidUrl) ==> exists|s: Seq<char>, v: Seq<char>|
                s.len() == 32 && v.len() == 43 && #[trigger] url_with_query_of(
                    AUTHORIZE_URL@,
                    authorize_pairs(client_id@, s, challenge_of(v)),
                ) is None,
    {
        let cs = chars_of(client_id.as_str());
        let t = trim(cs.as_slice());
        if t.len() == 0 {
            return Err(OAuthError::EmptyClientId);
        }
        let verifier = match random_urlsafe(32) {
            Some(v) => v,
            None => {
                return Err(OAuthError::RandomUnavailable);
            },
        };
        let state = match random_urlsafe(24) {
            Some(v) => v,
            None => {
                return Err(OAuthError::RandomUnavailable);
            },
        };
        Self::from_parts(client_id, verifier, state)
    }

    /// An attempt for `client_id` with the given code verifier and state:
    /// it holds the authorisation URL that carries the client, the state and
    /// the challenge of the verifier, and fails only when that URL cannot be
    /// built.
    pub fn from_parts(client_id: String, verifier: String, state: String) -> (r: Result<
        PkceFlow,
        OAuthError,
    >)
        ensures
            r is Ok <==> url_with_query_of(
                AUTHORIZE_URL@,
                authorize_pairs(client_id@, state@, challenge_of(verifier@)),
            ) is Some,
            r matches Ok(f) ==> {
                &&& f.client() == client_id@
                &&& f.verifier_chars() == verifier@
                &&& f.state_chars() == state@
                &&& Some(f.url_chars()) == url_with_query_of(
                    AUTHORIZE_URL@,
                    authorize_pairs(client_id@, state@, challenge_of(verifier@)),
                )
            },
            r matches Err(e) ==> e == OAuthError::InvalidUrl,
            r matches Ok(f) ==> exists|q: Seq<(Seq<char>, Seq<char>)>|
                #![trigger url_with_query_of(AUTHORIZE_URL@, q)]
                {
                    &&& Some(f.url_chars()) == url_with_query_of(AUTHORIZE_URL@, q)
                    &&& lookup(q, "response_type"@) == Some("code"@)
                    &&& lookup(q, "client_id"@) == Some(client_id@)
                    &&& lookup(q, "redirect_uri"@) == Some(REDIRECT_URI@)
                    &&& lookup(q, "state"@) == Some(state@)
                    &&& lookup(q, "code_challenge_method"@) == Some("S256"@)
                    &&& lookup(q, "code_challenge"@) == Some(challenge_of(verifier@))
                },
    {
        proof {
            lemma_authorize_query_asks_for_a_code(client_id@, state@, challenge_of(verifier@));
        }
        let digest = sha256(verifier.as_str().as_bytes());
        let challenge = base64_url_no_pad(digest.as_slice());
        let pairs = vec![
            ("client_id".to_owned(), client_id.clone()),
            ("response_type".to_owned(), "code".to_owned()),
            ("redirect_uri".to_owned(), REDIRECT_URI.to_owned()),
            ("scope".to_owned(), SCOPE.to_owned()),
            ("state".to_owned(), state.clone()),
            ("code_challenge_method".to_owned(), "S256".to_owned()),
            ("code_challenge".to_owned(), challenge),
        ];
        proof {
            assert(pair_chars(pairs@) =~= authorize_pairs(
                client_id@,
                state@,
                challenge_of(verifier@),
            ));
        }
        match url_with_query(AUTHORIZE_URL, pairs.as_slice()) {
            Some(authorization_url) => Ok(
                PkceFlow { client_id, verifier, state, authorization_url },
            ),
            None => Err(OAuthError::InvalidUrl),
        }
    }

    /// The URL the user opens to authorise.
    pub fn authorization_url(&self) -> (u: &str)
        ensures
            u@ == self.url_chars(),
    {
        self.authorization_url.as_str()
    }

    /// Accept a callback only with the state that was sent.
    pub fn validate_state(&self, state: &str) -> (r: Result<(), OAuthError>)
        ensures
            r is Ok <==> state@ == self.state_chars(),
            r is Err ==> r == Err::<(), OAuthError>(OAuthError::StateMismatch),
    {
        if crate::text::str_eq(state, self.state.as_str()) {
            Ok(())
        } else {
            Err(OAuthError::StateMismatch)
        }
    }

    /// The form that exchanges an authorisation code for tokens. Its code
    /// verifier is the one whose challenge the authorisation URL carries.
    pub fn exchange_form(&self, code: &str) -> (form: Vec<(String, String)>)
        ensures
            pair_chars(form@) == seq![
                ("client_id"@, self.client()),
                ("grant_type"@, "authorization_code"@),
                ("code"@, code@),
                ("redirect_uri"@, REDIRECT_URI@),
                ("code_verifier"@, self.verifier_chars()),
            ],
            Some(self.url_chars()) == url_with_query_of(
                AUTHORIZE_URL@,
                authorize_pairs(self.client(), self.state_chars(), challenge_of(form@[4].1@)),
            ),
    {
        proof {
            use_type_invariant(self);
        }
        let form = vec![
            ("client_id".to_owned(), self.client_id.clone()),
            ("grant_type".to_owned(), "authorization_code".to_owned()),
            ("code".to_owned(), code.to_owned()),
            ("redirect_uri".to_owned(), REDIRECT_URI.to_owned()),
            ("code_verifier".to_owned(), self.verifier.clone()),
        ];
        proof {
            assert(pair_chars(form@) =~= seq![
                ("client_id"@, self.client()),
                ("grant_type"@, "authorization_code"@),
                ("code"@, code@),
                ("redirect_uri"@, REDIRECT_URI@),
                ("code_verifier"@, self.verifier_chars()),
            ]);
        }
        form
    }

    /// The authorisation code of a callback's query pairs: Spotify's error
    /// if it sent one, else the state must be present and match, and the
    /// code present (the last value of each name counts).
    pub fn callback_code(&self, pairs: &Vec<(String, String)>) -> (r: Result<String, OAuthError>)
        ensures
            ({
                let p = pair_chars(pairs@);
                match last_value(p, "error"@) {
                    Some(e) => r matches Err(OAuthError::AuthorizationFailed(t)) && t@ == e,
                    None => match last_value(p, "state"@) {
                        None => r == Err::<String, OAuthError>(OAuthError::MissingState),
                        Some(s) => if s != self.state_chars() {
                            r == Err::<String, OAuthError>(OAuthError::StateMismatch)
                        } else {
                            match last_value(p, "code"@) {
                                None => r == Err::<String, OAuthError>(OAuthError::MissingCode),
                                Some(c) => r matches Ok(t) && t@ == c,
                            }
                        },
                    },
                }
            }),
    {
        let error = last_pair_value(pairs, "error");
        match error {
            Some(e) => {
                return Err(OAuthError::AuthorizationFailed(e));
            },
            None => {},
        }
        let state = last_pair_value(pairs, "state");
        match state {
            None => Err(OAuthError::MissingState),
            Some(s) => {
                self.validate_state(s.as_str())?;
                match last_pair_value(pairs, "code") {
                    None => Err(OAuthError::MissingCode),
                    Some(c) => Ok(c),
                }
            },
        }
    }
}

impl Clone for PkceFlow {
    /// The same attempt: client, verifier, state and URL.
    fn clone(&self) -> (c: PkceFlow)
        ensures
            c.client() == self.client(),
            c.verifier_chars() == self.verifier_chars(),
            c.state_chars() == self.state_chars(),
            c.url_chars() == self.url_chars(),
    {
        proof {
            use_type_invariant(self);
        }
        PkceFlow {
            client_id: self.client_id.clone(),
            verifier: self.verifier.clone(),
            state: self.state.clone(),
            authorization_url: self.authorization_url.clone(),
        }
    }
}

/// The value of the last pair named `key`.
pub open spec fn last_value(pairs: Seq<(Seq<char>, Seq<char>)>, key: Seq<char>) -> Option<
    Seq<char>,
>
    decreases pairs.len(),
{
    if pairs.len() == 0 {
        None
    } else if pairs.last().0 == key {
        Some(pairs.last().1)
    } else {
        last_value(pairs.drop_last(), key)
    }
}

fn last_pair_value(pairs: &Vec<(String, String)>, key: &str) -> (r: Option<String>)
    ensures
        opt_chars(r) == last_value(pair_chars(pairs@), key@),
{
    let mut i = pairs.len();
    proof {
        assert(pair_chars(pairs@).take(i as int) =~= pair_chars(pairs@));
    }
    while i > 0
        invariant
            i <= pairs@.len(),
            last_value(pair_chars(pairs@), key@) == last_value(
                pair_chars(pairs@).take(i as int),
                key@,
            ),
        decreases i,
    {
        let ghost pre = pair_chars(pairs@).take(i as int);
        proof {
            assert(pre.drop_last() =~= pair_chars(pairs@).take(i - 1));
            assert(pre.last() == (pairs@[i - 1].0@, pairs@[i - 1].1@));
        }
        if crate::text::str_eq(pairs[i - 1].0.as_str(), key) {
            return Some(pairs[i - 1].1.clone());
        }
        i = i - 1;
    }
    proof {
        assert(pair_chars(pairs@).take(0) =~= Seq::<(Seq<char>, Seq<char>)>::empty());
    }
    None
}

/// The first line of a request as `str::lines` yields it: up to the first
/// newline, without a carriage return just before it; nothing for an empty
/// request.
pub open spec fn first_line(s: Seq<char>) -> Option<Seq<char>> {
    if s.len() == 0 {
        None
    } else {
        match first_index_of(s, '\n') {
            None => Some(s),
            Some(i) => {
                let line = s.take(i as int);
                if line.len() > 0 && line.last() == '\r' {
                    Some(line.drop_last())
                } else {
                    Some(line)
                }
            },
        }
    }
}

/// The number of leading characters of `s` that are not white space.
pub open spec fn word_len(s: Seq<char>) -> nat
    decreases s.len(),
{
    if s.len() > 0 && !is_white_space(s[0]) {
        1 + word_len(s.drop_first())
    } else {
        0
    }
}

/// The second white-space-separated word of `s`.
pub open spec fn second_word(s: Seq<char>) -> Option<Seq<char>> {
    let r1 = s.skip(leading_white(s) as int);
    let w1 = word_len(r1);
    if w1 == 0 {
        None
    } else {
        let r2 = r1.skip(w1 as int);
        let r3 = r2.skip(leading_white(r2) as int);
        let w2 = word_len(r3);
        if w2 == 0 {
            None
        } else {
            Some(r3.take(w2 as int))
        }
    }
}

proof fn lemma_scan(s: Seq<char>, from: nat, to: nat, white: bool)
    requires
        from <= to <= s.len(),
        forall|k: int| from <= k < to ==> is_white_space(#[trigger] s[k]) == white,
        to < s.len() ==> is_white_space(s[to as int]) != white,
    ensures
        white ==> leading_white(s.skip(from as int)) == to - from,
        !white ==> word_len(s.skip(from as int)) == to - from,
    decreases to - from,
{
    if from < to {
        lemma_scan(s, from + 1, to, white);
        assert(s.skip(from as int).drop_first() =~= s.skip(from + 1 as int));
    } else if to < s.len() {
        assert(s.skip(from as int)[0] == s[to as int]);
    }
}

fn scan(s: &Vec<char>, from: usize, white: bool) -> (to: usize)
    requires
        from <= s@.len(),
    ensures
        from <= to <= s@.len(),
        white ==> leading_white(s@.skip(from as int)) == to - from,
        !white ==> word_len(s@.skip(from as int)) == to - from,
{
    let mut to = from;
    while to < s.len() && is_whitespace(s[to]) == white
        invariant
            from <= to <= s@.len(),
            forall|k: int| from <= k < to ==> is_white_space(#[trigger] s@[k]) == white,
        decreases s@.len() - to,
    {
        to = to + 1;
    }
    proof {
        lemma_scan(s@, from as nat, to as nat, white);
    }
    to
}

/// The first line of a non-empty request, without its line terminator.
fn request_first_line(cs: &Vec<char>) -> (line: Vec<char>)
    requires
        cs@.len() > 0,
    ensures
        first_line(cs@) == Some(line@),
{
    let n = cs.len();
    let mut i: usize = 0;
    while i < n && cs[i] != '\n'
        invariant
            i <= n == cs@.len(),
            forall|k: int| 0 <= k < i ==> cs@[k] != '\n',
        decreases n - i,
    {
        i = i + 1;
    }
    proof {
        lemma_first_newline(cs@, i as nat);
    }
    let end = if i < n && i > 0 && cs[i - 1] == '\r' {
        i - 1
    } else {
        i
    };
    let line_slice = slice_subrange(cs.as_slice(), 0, end);
    let mut line: Vec<char> = Vec::new();
    crate::text::push_chars(&mut line, line_slice);
    proof {
        assert(line@ =~= first_line(cs@)->0);
    }
    line
}

/// The second white-space-separated word of `line`, if it has one.
fn line_second_word(line: &Vec<char>) -> (r: Option<Vec<char>>)
    ensures
        match second_word(line@) {
            None => r is None,
            Some(w) => r matches Some(v) && v@ == w,
        },
{
    let a = scan(line, 0, true);
    let b = scan(line, a, false);
    proof {
        assert(line@.skip(0) =~= line@);
    }
    if b == a {
        return None;
    }
    let c = scan(line, b, true);
    let d = scan(line, c, false);
    proof {
        let r1 = line@.skip(a as int);
        assert(r1.skip((b - a) as int) =~= line@.skip(b as int));
        let r2 = line@.skip(b as int);
        assert(r2.skip((c - b) as int) =~= line@.skip(c as int));
    }
    if d == c {
        return None;
    }
    let word = slice_subrange(line.as_slice(), c, d);
    proof {
        assert(word@ =~= line@.skip(c as int).take((d - c) as int));
    }
    let mut v: Vec<char> = Vec::new();
    crate::text::push_chars(&mut v, word);
    Some(v)
}

/// The request target of a callback request: the second word of its first
/// line.
pub fn callback_target(request: &str) -> (r: Result<String, OAuthError>)
    ensures
        match first_line(request@) {
            None => r == Err::<String, OAuthError>(OAuthError::InvalidRequest),
            Some(line) => match second_word(line) {
                None => r == Err::<String, OAuthError>(OAuthError::InvalidRequestLine),
                Some(w) => r matches Ok(t) && t@ == w,
            },
        },
{
    let cs = chars_of(request);
    if cs.len() == 0 {
        return Err(OAuthError::InvalidRequest);
    }
    let line = request_first_line(&cs);
    match line_second_word(&line) {
        None => Err(OAuthError::InvalidRequestLine),
        Some(word) => Ok(string_from(word.as_slice())),
    }
}

proof fn lemma_first_newline(s: Seq<char>, i: nat)
    requires
        i <= s.len(),
        forall|k: int| 0 <= k < i ==> s[k] != '\n',
        i < s.len() ==> s[i as int] == '\n',
    ensures
        first_index_of(s, '\n') == if i < s.len() {
            Some(i)
        } else {
            None::<nat>
        },
    decreases i,
{
    if i > 0 {
        lemma_first_newline(s.drop_first(), (i - 1) as nat);
    }
}

/// The page shown after a successful authorisation.
pub const SUCCESS_BODY: &'static str = "<html><body><h2>Phosyncra connected to Spotify.</h2><p>You can close this tab.</p></body></html>";

/// The page shown after a failed authorisation.
pub const FAILURE_BODY: &'static str = "<html><body><h2>Phosyncra Spotify authorization failed.</h2><p>Return to the terminal for details.</p></body></html>";

/// The HTTP response to a callback with `status` and the HTML `body`.
pub open spec fn callback_response_of(status: Seq<char>, body: Seq<char>) -> Seq<char> {
    "HTTP/1.1 "@ + status + "\r\nContent-Type: text/html; charset=utf-8\r\nContent-Length: "@
        + decimal(encode_utf8(body).len()) + "\r\nConnection: close\r\n\r\n"@ + body
}

/// The HTTP response to the browser: `200 OK` and the success page when the
/// authorisation succeeded, `400 Bad Request` and the failure page otherwise.
pub fn callback_response(success: bool) -> (r: String)
    ensures
        r@ == if success {
            callback_response_of("200 OK"@, SUCCESS_BODY@)
        } else {
            callback_response_of("400 Bad Request"@, FAILURE_BODY@)
        },
{
    let (status, body) = if success {
        ("200 OK", SUCCESS_BODY)
    } else {
        ("400 Bad Request", FAILURE_BODY)
    };
    let mut out: Vec<char> = Vec::new();
    push_str(&mut out, "HTTP/1.1 ");
    push_str(&mut out, status);
    push_str(&mut out, "\r\nContent-Type: text/html; charset=utf-8\r\nContent-Length: ");
    let len = body.as_bytes().len();
    push_decimal(&mut out, len as u64);
    push_str(&mut out, "\r\nConnection: close\r\n\r\n");
    push_str(&mut out, body);
    proof {
        assert(out@ =~= callback_response_of(status@, body@));
    }
    string_from(out.as_slice())
}

/// The loopback origin the callback target is resolved against.
pub const CALLBACK_ORIGIN: &'static str = "http://127.0.0.1:43821";

/// The decoded query pairs of a callback target, read as a path on the
/// loopback origin.
pub fn callback_pairs(target: &str) -> (r: Result<Vec<(String, String)>, OAuthError>)
    ensures
        match url_query_pairs_of(CALLBACK_ORIGIN@ + target@) {
            Some(p) => r matches Ok(v) && pair_chars(v@) == p,
            None => r matches Err(OAuthError::InvalidCallbackUrl(t)) && t@ == url_parse_error_of(
                CALLBACK_ORIGIN@ + target@,
            ),
        },
{
    let mut url: Vec<char> = Vec::new();
    push_str(&mut url, CALLBACK_ORIGIN);
    push_str(&mut url, target);
    let text = string_from(url.as_slice());
    match url_query_pairs(text.as_str()) {
        Ok(v) => Ok(v),
        Err(t) => Err(OAuthError::InvalidCallbackUrl(t)),
    }
}

/// The text of an authorisation failure.
pub open spec fn oauth_message(e: OAuthError) -> Seq<char> {
    match e {
        OAuthError::EmptyClientId => "Spotify client ID is empty"@,
        OAuthError::InvalidUrl => "invalid Spotify authorization URL"@,
        OAuthError::StateMismatch => "Spotify OAuth state mismatch"@,
        OAuthError::InvalidRequest => "invalid callback HTTP request"@,
        OAuthError::InvalidRequestLine => "invalid callback request line"@,
        OAuthError::AuthorizationFailed(t) => "Spotify authorization failed: "@ + t@,
        OAuthError::MissingState => "Spotify callback did not include state"@,
        OAuthError::MissingCode => "Spotify callback did not include an authorization code"@,
        OAuthError::InvalidCallbackUrl(t) => t@,
        OAuthError::RandomUnavailable => "operating system random source unavailable"@,
    }
}

impl OAuthError {
    /// The text of the failure.
    pub fn message(&self) -> (s: String)
        ensures
            s@ == oauth_message(*self),
    {
        let mut out: Vec<char> = Vec::new();
        match self {
            OAuthError::EmptyClientId => push_str(&mut out, "Spotify client ID is empty"),
            OAuthError::InvalidUrl => push_str(&mut out, "invalid Spotify authorization URL"),
            OAuthError::StateMismatch => push_str(&mut out, "Spotify OAuth state mismatch"),
            OAuthError::InvalidRequest => push_str(&mut out, "invalid callback HTTP request"),
            OAuthError::InvalidRequestLine => push_str(&mut out, "invalid callback request line"),
            OAuthError::AuthorizationFailed(t) => {
                push_str(&mut out, "Spotify authorization failed: ");
                push_str(&mut out, t.as_str());
            },
            OAuthError::MissingState => push_str(&mut out, "Spotify callback did not include state"),
            OAuthError::MissingCode => push_str(
                &mut out,
                "Spotify callback did not include an authorization code",
            ),
            OAuthError::InvalidCallbackUrl(t) => push_str(&mut out, t.as_str()),
            OAuthError::RandomUnavailable => push_str(
                &mut out,
                "operating system random source unavailable",
            ),
        }
        proof {
            assert(out@ =~= oauth_message(*self));
        }
        string_from(out.as_slice())
    }
}

} // verus!
