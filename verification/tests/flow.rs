use evault_auth::cache::SessionStore;
use evault_auth::errors::{AppError, STATUS_FORBIDDEN, STATUS_UNAUTHORIZED};
use evault_auth::github::{GitHubAPI, GitHubAuthToken, GitHubUserProfile, fetch_token_outcome};
use evault_auth::handshake::{authenticated_requests, begin_handshake, callback_validate,
    issue_session};
use evault_auth::secrets::SecretToken;

fn sample_api() -> GitHubAPI {
    GitHubAPI::new(
        String::from("cid"),
        SecretToken::new(String::from("cs")),
        String::from("http://localhost:5173/auth/github"),
    )
    .unwrap()
}

fn provider_token() -> GitHubAuthToken {
    GitHubAuthToken {
        access_token: SecretToken::new(String::from("gho_abc")),
        token_type: String::from("bearer"),
        scope: String::from("repo read:user"),
    }
}

fn provider_profile() -> GitHubUserProfile {
    GitHubUserProfile {
        id: 7,
        login: String::from("octo"),
        name: String::from("Octo Cat"),
        email: Some(String::from("octo@example.com")),
        avatar_url: String::from("https://avatars.example/7"),
    }
}

fn expect_response(err: AppError, code: u16, detail: &str) {
    let (status, body) = err.into_response();
    assert_eq!(status, code);
    assert_eq!(body, detail);
}

#[test]
fn scenario_full_handshake_issues_usable_session() {
    let api = sample_api();
    let mut store = SessionStore::new();

    // START -> REDIRECTED, with a browser client
    let url = begin_handshake(&api, &mut store, "sid16", "state32", "browser", 1000);
    assert!(url.contains("state32"));
    assert!(url.contains("sid16"));

    // provider calls back with the matching state
    let handshake = callback_validate(&mut store, "sid16", "state32", 1050).unwrap();
    assert_eq!(handshake.device_type, "browser");

    // stubbed provider accepts the code and returns token and profile
    let token = fetch_token_outcome(Some(200), Some(provider_token())).unwrap();

    // SESSION_ISSUED under a fresh identifier, never the handshake's id
    let cookie = issue_session(
        &mut store,
        &provider_profile(),
        token,
        String::from("fresh-session-token"),
        1060,
    )
    .unwrap();
    assert_eq!(cookie, "fresh-session-token");

    // a protected request carrying the cookie resolves to the identity
    let user = authenticated_requests(&store, Some(cookie.as_str()), 1100).unwrap();
    assert_eq!(user.user_id, 7);
    assert_eq!(user.user_login, "octo");
}

#[test]
fn scenario_wrong_state_rejected_and_handshake_consumed() {
    let api = sample_api();
    let mut store = SessionStore::new();
    let _ = begin_handshake(&api, &mut store, "sid-b", "right", "browser", 1000);

    let wrong = callback_validate(&mut store, "sid-b", "wrong", 1010);
    expect_response(wrong.unwrap_err(), STATUS_UNAUTHORIZED, "Invalid credentials.");

    // the handshake was consumed by the failed callback: the correct
    // state cannot be replayed afterwards
    let replay = callback_validate(&mut store, "sid-b", "right", 1020);
    expect_response(replay.unwrap_err(), STATUS_UNAUTHORIZED, "Authentication failed.");
}

#[test]
fn scenario_expired_handshake_rejected() {
    let api = sample_api();
    let mut store = SessionStore::new();
    let _ = begin_handshake(&api, &mut store, "sid-c", "state-c", "browser", 1000);

    let late = callback_validate(&mut store, "sid-c", "state-c", 1120);
    expect_response(late.unwrap_err(), STATUS_UNAUTHORIZED, "Authentication failed.");
}

#[test]
fn scenario_gate_distinguishes_missing_and_expired() {
    let mut store = SessionStore::new();

    // no cookie at all
    let missing = authenticated_requests(&store, None, 1000);
    expect_response(missing.unwrap_err(), STATUS_FORBIDDEN, "Missing credentials.");

    // a cookie for a session that has expired
    let token = provider_token();
    let cookie = issue_session(&mut store, &provider_profile(), token, String::from("tok"), 1000)
        .unwrap();
    let expired = authenticated_requests(&store, Some(cookie.as_str()), 1300);
    expect_response(expired.unwrap_err(), STATUS_FORBIDDEN, "Session expired.");
}

#[test]
fn issuing_under_live_identifier_fails() {
    let mut store = SessionStore::new();
    let first = issue_session(
        &mut store,
        &provider_profile(),
        provider_token(),
        String::from("dup"),
        1000,
    );
    assert!(first.is_ok());

    let second = issue_session(
        &mut store,
        &provider_profile(),
        provider_token(),
        String::from("dup"),
        1010,
    );
    expect_response(second.unwrap_err(), STATUS_UNAUTHORIZED, "Failed to create user session");
}
