use evault_auth::cache::{EVAULT_SESSION_TTL, RedisAuthSession, SessionStore, UserSessionInternal};
use evault_auth::errors::{AppError, STATUS_FORBIDDEN, STATUS_UNAUTHORIZED};
use evault_auth::github::GitHubAuthToken;
use evault_auth::secrets::SecretToken;

fn sample_token() -> GitHubAuthToken {
    GitHubAuthToken {
        access_token: SecretToken::new(String::from("gho_sample")),
        token_type: String::from("bearer"),
        scope: String::from("repo read:user"),
    }
}

fn sample_session(session_id: &str) -> UserSessionInternal {
    UserSessionInternal {
        session_id: String::from(session_id),
        user_id: 42,
        token: sample_token(),
        user_avatar_url: String::from("https://avatars.example/42"),
        user_name: String::from("Sample User"),
        user_login: String::from("sample"),
    }
}

fn expect_response(err: AppError, code: u16, detail: &str) {
    let (status, body) = err.into_response();
    assert_eq!(status, code);
    assert_eq!(body, detail);
}

#[test]
fn handshake_taken_exactly_once() {
    let mut store = SessionStore::new();
    let hs = RedisAuthSession {
        state: String::from("state-a"),
        device_type: String::from("browser"),
    };
    store.make_auth_session("sid-1", &hs, 120, 1000);

    let taken = store.get_auth_session("sid-1", 1050).unwrap();
    assert_eq!(taken.state, "state-a");
    assert_eq!(taken.device_type, "browser");

    let again = store.get_auth_session("sid-1", 1050);
    expect_response(again.unwrap_err(), STATUS_UNAUTHORIZED, "Authentication failed.");
}

#[test]
fn handshake_expires() {
    let mut store = SessionStore::new();
    let hs = RedisAuthSession {
        state: String::from("state-b"),
        device_type: String::from("cli"),
    };
    store.make_auth_session("sid-2", &hs, 120, 1000);

    let late = store.get_auth_session("sid-2", 1120);
    expect_response(late.unwrap_err(), STATUS_UNAUTHORIZED, "Authentication failed.");
}

#[test]
fn handshake_unknown_id_fails() {
    let mut store = SessionStore::new();
    let missing = store.get_auth_session("nobody", 0);
    expect_response(missing.unwrap_err(), STATUS_UNAUTHORIZED, "Authentication failed.");
}

#[test]
fn handshake_write_keeps_live_record() {
    let mut store = SessionStore::new();
    let first = RedisAuthSession {
        state: String::from("first"),
        device_type: String::from("browser"),
    };
    let second = RedisAuthSession {
        state: String::from("second"),
        device_type: String::from("browser"),
    };
    store.make_auth_session("sid-3", &first, 120, 1000);
    store.make_auth_session("sid-3", &second, 120, 1001);

    let taken = store.get_auth_session("sid-3", 1002).unwrap();
    assert_eq!(taken.state, "first");
}

#[test]
fn create_session_is_create_if_absent() {
    let mut store = SessionStore::new();
    assert!(store.create_user_session(sample_session("tok-1"), EVAULT_SESSION_TTL, 1000).is_ok());

    let replay = store.create_user_session(sample_session("tok-1"), EVAULT_SESSION_TTL, 1100);
    expect_response(replay.unwrap_err(), STATUS_UNAUTHORIZED, "Failed to create user session");
}

#[test]
fn create_session_after_expiry_succeeds() {
    let mut store = SessionStore::new();
    assert!(store.create_user_session(sample_session("tok-2"), 300, 1000).is_ok());
    assert!(store.create_user_session(sample_session("tok-2"), 300, 1300).is_ok());
}

#[test]
fn session_read_returns_stored_identity() {
    let mut store = SessionStore::new();
    store.create_user_session(sample_session("tok-3"), 300, 1000).unwrap();

    let user = store.get_user_session("tok-3", 1299).unwrap();
    assert_eq!(user.session_id, "tok-3");
    assert_eq!(user.user_id, 42);
    assert_eq!(user.user_login, "sample");
    assert_eq!(user.user_name, "Sample User");
    assert_eq!(user.user_avatar_url, "https://avatars.example/42");
    assert_eq!(user.token.access_token.expose_secret(), "gho_sample");
    assert_eq!(user.token.token_type, "bearer");
    assert_eq!(user.token.scope, "repo read:user");
}

#[test]
fn session_read_after_ttl_is_expired_never_stale() {
    let mut store = SessionStore::new();
    store.create_user_session(sample_session("tok-4"), 300, 1000).unwrap();

    let late = store.get_user_session("tok-4", 1300);
    expect_response(late.unwrap_err(), STATUS_FORBIDDEN, "Session expired.");
}

#[test]
fn session_read_does_not_extend_ttl() {
    let mut store = SessionStore::new();
    store.create_user_session(sample_session("tok-5"), 300, 1000).unwrap();

    assert!(store.get_user_session("tok-5", 1299).is_ok());
    let late = store.get_user_session("tok-5", 1301);
    expect_response(late.unwrap_err(), STATUS_FORBIDDEN, "Session expired.");
}
