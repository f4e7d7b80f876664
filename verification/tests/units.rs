use evault_auth::cache::UserSessionInternal;
use evault_auth::database::{Repository, repository_access};
use evault_auth::errors::{ApiError, AppError};
use evault_auth::github::GitHubAuthToken;
use evault_auth::handshake::{COOKIE_ACCESS_TOKEN_KEY, profile_of_session};
use evault_auth::secrets::{SecretToken, token_urlsafe};
use evault_auth::urlenc::pct_encode;
use evault_auth::utils::Stage;

fn is_b64url(c: char) -> bool {
    c.is_ascii_uppercase() || c.is_ascii_lowercase() || c.is_ascii_digit() || c == '-' || c == '_'
}

#[test]
fn tokens_have_the_unpadded_base64_length() {
    let t32 = token_urlsafe(32).unwrap();
    assert_eq!(t32.len(), 43);
    let t16 = token_urlsafe(16).unwrap();
    assert_eq!(t16.len(), 22);
    let t0 = token_urlsafe(0).unwrap();
    assert_eq!(t0.len(), 0);
}

#[test]
fn tokens_stay_in_the_url_safe_alphabet() {
    let t = token_urlsafe(64).unwrap();
    assert!(t.chars().all(is_b64url));
}

#[test]
fn consecutive_tokens_differ() {
    let a = token_urlsafe(32).unwrap();
    let b = token_urlsafe(32).unwrap();
    assert_ne!(a, b);
}

#[test]
fn percent_encoding_keeps_unreserved_text() {
    assert_eq!(pct_encode("AZaz09-._~"), "AZaz09-._~");
}

#[test]
fn percent_encoding_escapes_reserved_bytes() {
    assert_eq!(pct_encode("a b&c=d/e"), "a%20b%26c%3Dd%2Fe");
    assert_eq!(pct_encode(""), "");
}

#[test]
fn percent_encoding_works_bytewise_on_utf8() {
    assert_eq!(pct_encode("caf\u{e9}"), "caf%C3%A9");
}

#[test]
fn secret_token_round_trips_through_its_accessor() {
    let s = SecretToken::new(String::from("top-secret"));
    assert_eq!(s.expose_secret(), "top-secret");
    let c = s.clone();
    assert_eq!(c.expose_secret(), "top-secret");
}

#[test]
fn internal_errors_render_generically() {
    let e = AppError::Internal(String::from("connection refused at 10.0.0.1"));
    let (status, body) = e.into_response();
    assert_eq!(status, 500);
    assert_eq!(body, "Something went wrong.");
}

#[test]
fn response_errors_render_verbatim() {
    let e = AppError::Response(ApiError { code: 418, detail: String::from("teapot") });
    let (status, body) = e.into_response();
    assert_eq!(status, 418);
    assert_eq!(body, "teapot");
}

#[test]
fn stage_parses_its_two_names() {
    assert!(matches!(Stage::from_name("development"), Some(Stage::Development)));
    assert!(matches!(Stage::from_name("production"), Some(Stage::Production)));
    assert!(Stage::from_name("staging").is_none());
    assert!(Stage::from_name("").is_none());
}

#[test]
fn repository_access_decides_by_owner() {
    let repo = Repository {
        id: 5,
        name: String::from("vault"),
        owner_id: 42,
        bucket_addr: None,
        password: String::from("pw"),
    };

    let own = repository_access(&Some(repo), 42);
    assert!(own.vault_initialized && own.read_access && own.write_access);

    let repo_other = Repository {
        id: 5,
        name: String::from("vault"),
        owner_id: 41,
        bucket_addr: None,
        password: String::from("pw"),
    };
    let other = repository_access(&Some(repo_other), 42);
    assert!(other.vault_initialized && !other.read_access && !other.write_access);

    let none = repository_access(&None, 42);
    assert!(!none.vault_initialized && !none.read_access && !none.write_access);
}

#[test]
fn profile_of_session_carries_no_email_and_no_token() {
    let user = UserSessionInternal {
        session_id: String::from("tok"),
        user_id: 7,
        token: GitHubAuthToken {
            access_token: SecretToken::new(String::from("gho_abc")),
            token_type: String::from("bearer"),
            scope: String::from("repo"),
        },
        user_avatar_url: String::from("https://avatars.example/7"),
        user_name: String::from("Octo Cat"),
        user_login: String::from("octo"),
    };
    let p = profile_of_session(&user);
    assert_eq!(p.id, 7);
    assert_eq!(p.login, "octo");
    assert_eq!(p.name, "Octo Cat");
    assert_eq!(p.avatar_url, "https://avatars.example/7");
    assert!(p.email.is_none());
}

#[test]
fn cookie_name_is_fixed() {
    assert_eq!(COOKIE_ACCESS_TOKEN_KEY, "evault_access_token");
}
