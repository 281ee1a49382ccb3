//! Decisions of the authentication layer: which credential of a request is
//! checked, which outside check comes next, and what a request is answered.
//!
//! A session cookie is preferred; without one, a JWT from the token cookie
//! or, failing that, from a `Bearer` authorization header is used.
use vstd::prelude::*;
use vstd::string::StringExecFns;

use crate::domain::player::PlayerKey;

verus! {

/// Name of the cookie holding a JWT.
pub const TOKEN_COOKIE_NAME: &'static str = "rstoken";

/// Name of the cookie holding a session token.
pub const SESSION_COOKIE_NAME: &'static str = "rsession";

/// A session token.
#[derive(Debug)]
pub struct SessionToken(String);

impl View for SessionToken {
    type V = Seq<char>;

    closed spec fn view(&self) -> Seq<char> {
        self.0@
    }
}

impl SessionToken {
    /// Wraps a token.
    pub fn new(token: String) -> (t: SessionToken)
        ensures
            t@ == token@,
    {
        SessionToken(token)
    }

    /// The token's text.
    pub fn as_str(&self) -> (s: &str)
        ensures
            s@ == self@,
    {
        self.0.as_str()
    }
}

/// The JSON body of a refused request.
#[derive(Debug)]
pub struct ErrorResponse {
    pub status: &'static str,
    pub message: String,
}

/// The credential a request is authenticated with.
#[derive(Debug)]
pub enum Credentials {
    /// The value of the session cookie
    Session(String),
    /// A JWT, from the token cookie or the `Bearer` header
    Jwt(String),
    /// None was sent
    Missing,
}

/// Why a request is refused.
#[derive(Debug)]
pub enum AuthFailure {
    /// No credential was sent
    NotLoggedIn,
    /// The session token is unknown or expired
    InvalidSession,
    /// The JWT could not be decoded
    InvalidToken,
    /// The JWT's expiry has passed
    TokenExpired,
    /// The JWT names a player that no longer exists
    PlayerGone,
    /// Looking the player up failed, with this description
    LookupFailed(String),
}

/// What is done to the response's cookies.
#[derive(Debug, Clone, Copy, PartialEq, Eq, Structural)]
pub enum CookieChange {
    /// Nothing
    Keep,
    /// The session cookie is removed
    RemoveSession,
    /// The token cookie is removed
    RemoveToken,
    /// The session cookie is sent again, to live this many more seconds
    RefreshSession { max_age_seconds: i64 },
}

/// What a request is answered.
#[derive(Debug)]
pub enum AuthOutcome {
    /// The request goes on to its handler, authenticated as this player
    Accept(PlayerKey, CookieChange),
    /// The request is answered 401 with this body
    Reject(ErrorResponse, CookieChange),
}

/// What a player lookup for a decoded JWT found.
#[derive(Debug)]
pub enum PlayerLookup {
    /// The player exists
    Found,
    /// No such player
    Missing,
    /// The lookup failed, with this description
    Failed(String),
}

/// The credential that is checked: the session cookie when present, else the
/// token cookie, else the `Bearer` token.
pub open spec fn chosen(session: Option<Seq<char>>, token: Option<Seq<char>>, bearer: Option<Seq<char>>) -> (
    int,
    Seq<char>,
) {
    match session {
        Some(s) => (0, s),
        None => match token {
            Some(t) => (1, t),
            None => match bearer {
                Some(b) => (1, b),
                None => (2, Seq::empty()),
            },
        },
    }
}

/// The kind of credential and its text: 0 for a session, 1 for a JWT, 2 for
/// none.
pub open spec fn credentials_view(c: Credentials) -> (int, Seq<char>) {
    match c {
        Credentials::Session(s) => (0, s@),
        Credentials::Jwt(t) => (1, t@),
        Credentials::Missing => (2, Seq::empty()),
    }
}

pub open spec fn opt_text(s: Option<String>) -> Option<Seq<char>> {
    match s {
        Some(s) => Some(s@),
        None => None,
    }
}

/// Picks the credential of a request from its session cookie, token cookie
/// and `Bearer` header.
pub fn choose_credentials(
    session_cookie: Option<String>,
    token_cookie: Option<String>,
    bearer: Option<String>,
) -> (c: Credentials)
    ensures
        credentials_view(c) == chosen(opt_text(session_cookie), opt_text(token_cookie), opt_text(bearer)),
{
    match session_cookie {
        Some(s) => Credentials::Session(s),
        None => match token_cookie {
            Some(t) => Credentials::Jwt(t),
            None => match bearer {
                Some(b) => Credentials::Jwt(b),
                None => Credentials::Missing,
            },
        },
    }
}

/// The message and cookie change of a refusal.
pub open spec fn failure_message(f: AuthFailure) -> (Seq<char>, CookieChange) {
    match f {
        AuthFailure::NotLoggedIn => ("You are not logged in, please authenticate"@, CookieChange::Keep),
        AuthFailure::InvalidSession => ("Invalid session token"@, CookieChange::RemoveSession),
        AuthFailure::InvalidToken => ("Invalid token"@, CookieChange::RemoveToken),
        AuthFailure::TokenExpired => ("Token has expired"@, CookieChange::RemoveToken),
        AuthFailure::PlayerGone => (
            "The player belonging to this token no longer exists"@,
            CookieChange::RemoveToken,
        ),
        AuthFailure::LookupFailed(e) => (
            "Error fetching player from database: "@ + e@,
            CookieChange::RemoveToken,
        ),
    }
}

/// `o` refuses the request as failure `f` says: status "fail", the failure's
/// message and cookie change.
pub open spec fn refuses_as(o: AuthOutcome, f: AuthFailure) -> bool {
    match o {
        AuthOutcome::Reject(body, cookie) => {
            &&& body.status@ == "fail"@
            &&& body.message@ == failure_message(f).0
            &&& cookie == failure_message(f).1
        },
        AuthOutcome::Accept(_, _) => false,
    }
}

/// The refusal of a request for the given reason.
pub fn refuse(f: AuthFailure) -> (o: AuthOutcome)
    ensures
        refuses_as(o, f),
{
    let (message, cookie) = match &f {
        AuthFailure::NotLoggedIn => (
            String::from_str("You are not logged in, please authenticate"),
            CookieChange::Keep,
        ),
        AuthFailure::InvalidSession => (String::from_str("Invalid session token"), CookieChange::RemoveSession),
        AuthFailure::InvalidToken => (String::from_str("Invalid token"), CookieChange::RemoveToken),
        AuthFailure::TokenExpired => (String::from_str("Token has expired"), CookieChange::RemoveToken),
        AuthFailure::PlayerGone => (
            String::from_str("The player belonging to this token no longer exists"),
            CookieChange::RemoveToken,
        ),
        AuthFailure::LookupFailed(e) => (
            String::from_str("Error fetching player from database: ").concat(e.as_str()),
            CookieChange::RemoveToken,
        ),
    };
    AuthOutcome::Reject(ErrorResponse { status: "fail", message }, cookie)
}

/// Whole seconds from `now` to `until` (Unix microseconds), rounded toward
/// zero.
pub open spec fn seconds_between(now: i64, until: i64) -> int {
    let d = until - now;
    if d >= 0 {
        d / 1_000_000
    } else {
        -((-d) / 1_000_000)
    }
}

/// `o` answers a request whose session token was checked: accepted as the
/// session's player, with the session cookie sent again to live until the
/// session expires, when the token is valid (until `expires_at`); refused as
/// an invalid session otherwise.
pub open spec fn session_answered(valid: Option<(i64, PlayerKey)>, now: i64, o: AuthOutcome) -> bool {
    match valid {
        Some((t, player)) => o == AuthOutcome::Accept(
            player,
            CookieChange::RefreshSession { max_age_seconds: seconds_between(now, t) as i64 },
        ),
        None => refuses_as(o, AuthFailure::InvalidSession),
    }
}

/// The answer to a request carrying a session token, once the token was
/// checked: its session's expiry and player when it is valid.
pub fn session_outcome(valid: Option<(i64, PlayerKey)>, now: i64) -> (o: AuthOutcome)
    ensures
        session_answered(valid, now, o),
{
    match valid {
        Some((t, player)) => {
            let d: i128 = t as i128 - now as i128;
            let secs: i128 = d / 1_000_000;
            AuthOutcome::Accept(player, CookieChange::RefreshSession { max_age_seconds: secs as i64 })
        },
        None => refuse(AuthFailure::InvalidSession),
    }
}

/// A JWT whose expiry is `exp` has expired at `now_secs` (Unix seconds),
/// the time taken as a `usize`.
pub fn token_expired(exp: usize, now_secs: i64) -> (b: bool)
    ensures
        b == (exp <= now_secs as usize),
{
    exp <= now_secs as usize
}

/// The answer to a request carrying a JWT, once it has been decoded (to its
/// expiry) or not: refused as invalid when it could not be decoded, refused
/// as expired when its expiry has passed, and `None` (the player is to be
/// looked up) otherwise.
pub fn claims_outcome(decoded_exp: Option<usize>, now_secs: i64) -> (o: Option<AuthOutcome>)
    ensures
        match decoded_exp {
            None => o matches Some(r) && refuses_as(r, AuthFailure::InvalidToken),
            Some(exp) => if exp <= now_secs as usize {
                o matches Some(r) && refuses_as(r, AuthFailure::TokenExpired)
            } else {
                o is None
            },
        },
{
    match decoded_exp {
        None => Some(refuse(AuthFailure::InvalidToken)),
        Some(exp) => if token_expired(exp, now_secs) {
            Some(refuse(AuthFailure::TokenExpired))
        } else {
            None
        },
    }
}

/// `o` answers a request whose valid JWT names `player`, once the player was
/// looked up: accepted as that player when found, refused otherwise.
pub open spec fn lookup_answered(lookup: PlayerLookup, player: PlayerKey, o: AuthOutcome) -> bool {
    match lookup {
        PlayerLookup::Found => o == AuthOutcome::Accept(player, CookieChange::Keep),
        PlayerLookup::Missing => refuses_as(o, AuthFailure::PlayerGone),
        PlayerLookup::Failed(e) => refuses_as(o, AuthFailure::LookupFailed(e)),
    }
}

/// The answer to a request whose valid JWT names `player`, once the player
/// was looked up.
pub fn lookup_outcome(lookup: PlayerLookup, player: PlayerKey) -> (o: AuthOutcome)
    ensures
        lookup_answered(lookup, player, o),
{
    match lookup {
        PlayerLookup::Found => AuthOutcome::Accept(player, CookieChange::Keep),
        PlayerLookup::Missing => refuse(AuthFailure::PlayerGone),
        PlayerLookup::Failed(e) => refuse(AuthFailure::LookupFailed(e)),
    }
}

/// Where the authentication of a request stands: waiting for an outside
/// check, or done.
#[derive(Debug)]
pub enum AuthStep {
    /// The session store is to check this session token
    CheckSession(String),
    /// This JWT is to be decoded
    DecodeToken(String),
    /// The player named by a valid JWT is to be looked up
    FindPlayer(PlayerKey),
    /// The request is answered
    Done(AuthOutcome),
}

/// What an outside check answered.
#[derive(Debug)]
pub enum AuthEvent {
    /// The session's expiry (Unix microseconds) and player, when the token is valid
    SessionChecked(Option<(i64, PlayerKey)>),
    /// The JWT's expiry (Unix seconds) and subject, when it could be decoded
    TokenDecoded(Option<(usize, PlayerKey)>),
    /// The outcome of the player lookup
    PlayerLooked(PlayerLookup),
}

/// The first step for a request's credential: check the session token,
/// decode the JWT, or refuse a request that carries none.
pub fn begin_auth(c: Credentials) -> (r: AuthStep)
    ensures
        match c {
            Credentials::Session(s) => r matches AuthStep::CheckSession(t) && t@ == s@,
            Credentials::Jwt(j) => r matches AuthStep::DecodeToken(t) && t@ == j@,
            Credentials::Missing => r matches AuthStep::Done(o) && refuses_as(o, AuthFailure::NotLoggedIn),
        },
{
    match c {
        Credentials::Session(s) => AuthStep::CheckSession(s),
        Credentials::Jwt(j) => AuthStep::DecodeToken(j),
        Credentials::Missing => AuthStep::Done(refuse(AuthFailure::NotLoggedIn)),
    }
}

/// `event` answers the check that `step` waits for.
pub open spec fn answers(step: AuthStep, event: AuthEvent) -> bool {
    match step {
        AuthStep::CheckSession(_) => event is SessionChecked,
        AuthStep::DecodeToken(_) => event is TokenDecoded,
        AuthStep::FindPlayer(_) => event is PlayerLooked,
        AuthStep::Done(_) => false,
    }
}

/// The Unix second of the instant `now` (microseconds), rounded down.
pub open spec fn unix_seconds(now: i64) -> int {
    now / 1_000_000
}

fn seconds_of(now: i64) -> (s: i64)
    ensures
        s == unix_seconds(now),
{
    let q: i64 = now / 1_000_000;
    if now % 1_000_000 < 0 {
        q - 1
    } else {
        q
    }
}

/// The next step once the check that `awaiting` waits for has answered, at
/// `now` (Unix microseconds): a checked session answers the request; a JWT
/// that could not be decoded, or whose expiry is not after the current Unix
/// second, is refused, and a valid one has its subject looked up; a lookup
/// answers the request as that subject.
pub fn next_auth_step(awaiting: &AuthStep, event: AuthEvent, now: i64) -> (r: AuthStep)
    requires
        answers(*awaiting, event),
    ensures
        match event {
            AuthEvent::SessionChecked(valid) => r matches AuthStep::Done(o) && session_answered(valid, now, o),
            AuthEvent::TokenDecoded(None) => r matches AuthStep::Done(o) && refuses_as(o, AuthFailure::InvalidToken),
            AuthEvent::TokenDecoded(Some((exp, sub))) => if exp <= unix_seconds(now) as usize {
                r matches AuthStep::Done(o) && refuses_as(o, AuthFailure::TokenExpired)
            } else {
                r == AuthStep::FindPlayer(sub)
            },
            AuthEvent::PlayerLooked(lookup) => *awaiting matches AuthStep::FindPlayer(player) && r matches AuthStep::Done(o)
                && lookup_answered(lookup, player, o),
        },
{
    match event {
        AuthEvent::SessionChecked(valid) => AuthStep::Done(session_outcome(valid, now)),
        AuthEvent::TokenDecoded(decoded) => {
            let now_secs = seconds_of(now);
            match decoded {
                None => AuthStep::Done(refuse(AuthFailure::InvalidToken)),
                Some((exp, sub)) => match claims_outcome(Some(exp), now_secs) {
                    Some(o) => AuthStep::Done(o),
                    None => AuthStep::FindPlayer(sub),
                },
            }
        },
        AuthEvent::PlayerLooked(lookup) => {
            let player = match awaiting {
                AuthStep::FindPlayer(p) => *p,
                // `answers` admits a lookup only while a player is awaited
                _ => 0,
            };
            AuthStep::Done(lookup_outcome(lookup, player))
        },
    }
}

} // verus!
