use empire::net::auth::{
    begin_auth, choose_credentials, claims_outcome, lookup_outcome, next_auth_step, refuse,
    session_outcome, token_expired, AuthEvent, AuthFailure, AuthOutcome, AuthStep, CookieChange,
    Credentials, PlayerLookup, SessionToken, SESSION_COOKIE_NAME, TOKEN_COOKIE_NAME,
};
use empire::net::request_id::MakeRequestUlid;

fn rejection(o: AuthOutcome) -> (String, CookieChange) {
    match o {
        AuthOutcome::Reject(body, cookie) => {
            assert_eq!(body.status, "fail");
            (body.message, cookie)
        }
        AuthOutcome::Accept(_, _) => panic!("expected a refusal"),
    }
}

#[test]
fn cookie_names() {
    assert_eq!(TOKEN_COOKIE_NAME, "rstoken");
    assert_eq!(SESSION_COOKIE_NAME, "rsession");
}

#[test]
fn session_cookie_wins() {
    let c = choose_credentials(Some("s".to_string()), Some("t".to_string()), Some("b".to_string()));
    assert!(matches!(c, Credentials::Session(s) if s == "s"));
}

#[test]
fn token_cookie_before_bearer() {
    let c = choose_credentials(None, Some("t".to_string()), Some("b".to_string()));
    assert!(matches!(c, Credentials::Jwt(t) if t == "t"));
    let c = choose_credentials(None, None, Some("b".to_string()));
    assert!(matches!(c, Credentials::Jwt(t) if t == "b"));
    assert!(matches!(choose_credentials(None, None, None), Credentials::Missing));
}

#[test]
fn refusal_messages() {
    assert_eq!(
        rejection(refuse(AuthFailure::NotLoggedIn)),
        ("You are not logged in, please authenticate".to_string(), CookieChange::Keep)
    );
    assert_eq!(
        rejection(refuse(AuthFailure::LookupFailed("timeout".to_string()))),
        ("Error fetching player from database: timeout".to_string(), CookieChange::RemoveToken)
    );
}

#[test]
fn valid_session_refreshes_cookie() {
    let o = session_outcome(Some((90_500_000, 7)), 500_000);
    assert!(matches!(
        o,
        AuthOutcome::Accept(7, CookieChange::RefreshSession { max_age_seconds: 90 })
    ));
    assert_eq!(
        rejection(session_outcome(None, 0)),
        ("Invalid session token".to_string(), CookieChange::RemoveSession)
    );
}

#[test]
fn expired_and_invalid_tokens() {
    assert!(token_expired(100, 100));
    assert!(!token_expired(101, 100));
    assert_eq!(
        rejection(claims_outcome(Some(50), 100).unwrap()),
        ("Token has expired".to_string(), CookieChange::RemoveToken)
    );
    assert_eq!(
        rejection(claims_outcome(None, 100).unwrap()),
        ("Invalid token".to_string(), CookieChange::RemoveToken)
    );
    assert!(claims_outcome(Some(150), 100).is_none());
}

#[test]
fn player_lookup_decides() {
    assert!(matches!(
        lookup_outcome(PlayerLookup::Found, 9),
        AuthOutcome::Accept(9, CookieChange::Keep)
    ));
    assert_eq!(
        rejection(lookup_outcome(PlayerLookup::Missing, 9)),
        (
            "The player belonging to this token no longer exists".to_string(),
            CookieChange::RemoveToken
        )
    );
}

#[test]
fn session_token_keeps_its_text() {
    assert_eq!(SessionToken::new("abc".to_string()).as_str(), "abc");
}

#[test]
fn request_ids_are_ulids() {
    let mut maker = MakeRequestUlid;
    let id = maker.make_request_id();
    assert_eq!(id.len(), 26);
    assert!(id.chars().all(|c| "0123456789ABCDEFGHJKMNPQRSTVWXYZ".contains(c)));
    assert_ne!(id, maker.make_request_id());
}

fn answer(step: AuthStep) -> AuthOutcome {
    match step {
        AuthStep::Done(o) => o,
        other => panic!("expected an answer, got {other:?}"),
    }
}

#[test]
fn a_request_without_credentials_is_refused_at_once() {
    let step = begin_auth(choose_credentials(None, None, None));
    assert_eq!(
        rejection(answer(step)),
        ("You are not logged in, please authenticate".to_string(), CookieChange::Keep)
    );
}

#[test]
fn a_session_request_is_accepted_as_its_player() {
    let step = begin_auth(choose_credentials(Some("s1".to_string()), Some("t".to_string()), None));
    assert!(matches!(&step, AuthStep::CheckSession(t) if t == "s1"));
    let done = next_auth_step(&step, AuthEvent::SessionChecked(Some((61_000_000, 42))), 1_000_000);
    assert!(matches!(
        answer(done),
        AuthOutcome::Accept(42, CookieChange::RefreshSession { max_age_seconds: 60 })
    ));
    let refused = next_auth_step(&step, AuthEvent::SessionChecked(None), 1_000_000);
    assert_eq!(
        rejection(answer(refused)),
        ("Invalid session token".to_string(), CookieChange::RemoveSession)
    );
}

#[test]
fn a_token_request_looks_up_its_subject() {
    let step = begin_auth(choose_credentials(None, None, Some("jwt".to_string())));
    assert!(matches!(&step, AuthStep::DecodeToken(t) if t == "jwt"));
    let find = next_auth_step(&step, AuthEvent::TokenDecoded(Some((200, 5))), 100_000_000);
    assert!(matches!(find, AuthStep::FindPlayer(5)));
    let done = next_auth_step(&find, AuthEvent::PlayerLooked(PlayerLookup::Found), 100_000_000);
    assert!(matches!(answer(done), AuthOutcome::Accept(5, CookieChange::Keep)));
    let gone = next_auth_step(&find, AuthEvent::PlayerLooked(PlayerLookup::Missing), 100_000_000);
    assert_eq!(rejection(answer(gone)).1, CookieChange::RemoveToken);
}

#[test]
fn an_expired_or_broken_token_is_refused() {
    let step = AuthStep::DecodeToken("jwt".to_string());
    let expired = next_auth_step(&step, AuthEvent::TokenDecoded(Some((100, 5))), 100_999_999);
    assert_eq!(
        rejection(answer(expired)),
        ("Token has expired".to_string(), CookieChange::RemoveToken)
    );
    let live = next_auth_step(&step, AuthEvent::TokenDecoded(Some((101, 5))), 100_999_999);
    assert!(matches!(live, AuthStep::FindPlayer(5)));
    let broken = next_auth_step(&step, AuthEvent::TokenDecoded(None), 0);
    assert_eq!(rejection(answer(broken)).0, "Invalid token");
}
