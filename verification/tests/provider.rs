use evault_auth::errors::{AppError, STATUS_BAD_GATEWAY, STATUS_INTERNAL_SERVER_ERROR};
use evault_auth::github::{
    GitHubAPI, GitHubAuthToken, GitHubUserProfile, RepoOwner, Repository,
    fetch_profile_outcome, fetch_repositories_outcome, fetch_token_outcome,
};
use evault_auth::secrets::SecretToken;

fn sample_api() -> GitHubAPI {
    GitHubAPI::new(
        String::from("cid"),
        SecretToken::new(String::from("s3cret")),
        String::from("http://localhost:5173/auth/github"),
    )
    .unwrap()
}

fn provider_token() -> GitHubAuthToken {
    GitHubAuthToken {
        access_token: SecretToken::new(String::from("gho_abc")),
        token_type: String::from("bearer"),
        scope: String::from("repo"),
    }
}

#[test]
fn login_url_is_exact() {
    let api = sample_api();
    let url = api.make_login_url("sid", "st", "browser");
    assert_eq!(
        url,
        "https://github.com/login/oauth/authorize?client_id=cid&redirect_uri=\
         http%3A%2F%2Flocalhost%3A5173%2Fauth%2Fgithub%3Fsession_id%3Dsid%26device_type%3Dbrowser\
         &state=st&scope=repo%20read%3Auser"
    );
}

#[test]
fn token_exchange_url_is_exact() {
    let api = sample_api();
    let url = api.make_github_oauth_url("the-code");
    assert_eq!(
        url,
        "https://github.com/login/oauth/access_token?client_id=cid&client_secret=s3cret&code=the-code"
    );
}

#[test]
fn malformed_redirect_uri_fails_at_construction() {
    let bad = GitHubAPI::new(
        String::from("cid"),
        SecretToken::new(String::from("cs")),
        String::from("not a url"),
    );
    let (status, _) = bad.unwrap_err().into_response();
    assert_eq!(status, STATUS_INTERNAL_SERVER_ERROR);
}

#[test]
fn provider_rejection_forwards_status_with_generic_message() {
    let denied = fetch_token_outcome(Some(401), None);
    let (status, body) = denied.unwrap_err().into_response();
    assert_eq!(status, 401);
    assert_eq!(body, "Failed to fetch user credentials from GitHub.");
}

#[test]
fn transport_failure_is_bad_gateway() {
    let out = fetch_token_outcome(None, None);
    let (status, body) = out.unwrap_err().into_response();
    assert_eq!(status, STATUS_BAD_GATEWAY);
    assert_eq!(body, "Failed to fetch user credentials from GitHub.");
}

#[test]
fn unparsable_token_body_is_internal() {
    let out = fetch_token_outcome(Some(200), None);
    match out.unwrap_err() {
        AppError::Internal(_) => {},
        AppError::Response(_) => panic!("a parse failure is an infrastructure fault"),
    }
}

#[test]
fn accepted_token_is_returned() {
    let out = fetch_token_outcome(Some(200), Some(provider_token())).unwrap();
    assert_eq!(out.token_type, "bearer");
    assert_eq!(out.access_token.expose_secret(), "gho_abc");
}

#[test]
fn profile_outcome_mirrors_status_mapping() {
    let profile = GitHubUserProfile {
        id: 7,
        login: String::from("octo"),
        name: String::from("Octo Cat"),
        email: None,
        avatar_url: String::from("https://avatars.example/7"),
    };
    let ok = fetch_profile_outcome(Some(200), Some(profile)).unwrap();
    assert_eq!(ok.login, "octo");

    let denied = fetch_profile_outcome(Some(403), None);
    let (status, body) = denied.unwrap_err().into_response();
    assert_eq!(status, 403);
    assert_eq!(body, "Failed to fetch the GitHub user profile.");
}

#[test]
fn repositories_outcome_mirrors_status_mapping() {
    let repos = vec![Repository {
        id: 1,
        full_name: String::from("octo/vault"),
        private: true,
        html_url: String::from("https://github.example/octo/vault"),
        description: None,
        owner: RepoOwner {
            id: 7,
            login: String::from("octo"),
            avatar_url: String::from("https://avatars.example/7"),
        },
    }];
    let ok = fetch_repositories_outcome(Some(200), Some(repos)).unwrap();
    assert_eq!(ok.len(), 1);
    assert_eq!(ok[0].full_name, "octo/vault");

    let gone = fetch_repositories_outcome(None, None);
    let (status, body) = gone.unwrap_err().into_response();
    assert_eq!(status, STATUS_BAD_GATEWAY);
    assert_eq!(body, "Failed to get repositories from GitHub.");
}
