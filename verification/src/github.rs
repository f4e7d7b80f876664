//! The identity provider's side of the handshake: the data it returns, the
//! immutable OAuth configuration, and the construction of the two URLs the
//! flow needs.
//!
//! URL construction is pure: each builder's result is pinned, character for
//! character, by a spec function over the configuration and the request's
//! values. The outbound HTTP calls themselves happen outside the library;
//! their observed status and parsed body come back in, and the
//! `*_outcome` functions decide, with an exact contract, what the gateway
//! answers.

use vstd::prelude::*;
use vstd::string::*;
use vstd::utf8::encode_utf8;

use crate::errors::{AppError, STATUS_BAD_GATEWAY, STATUS_OK, result_is_internal, result_is_response};
use crate::secrets::{SecretToken, secret_of};
use crate::urlenc::{pct_encode, pct_encoded};

verus! {

/// How long a handshake record lives in the store, in seconds.
pub const GITHUB_OAUTH_STATE_TTL: u64 = 120;

/// The bearer credential the provider returns for a one-time code. The
/// token value itself is held in a [`SecretToken`] and never leaves the
/// record except through its explicit accessor.
#[derive(Debug)]
pub struct GitHubAuthToken {
    pub access_token: SecretToken,
    pub token_type: String,
    pub scope: String,
}

/// The mathematical content of a [`GitHubAuthToken`].
pub struct GitHubAuthTokenV {
    pub access_token: Seq<char>,
    pub token_type: Seq<char>,
    pub scope: Seq<char>,
}

impl View for GitHubAuthToken {
    type V = GitHubAuthTokenV;

    open spec fn view(&self) -> GitHubAuthTokenV {
        GitHubAuthTokenV {
            access_token: secret_of(self.access_token),
            token_type: self.token_type@,
            scope: self.scope@,
        }
    }
}

impl Clone for GitHubAuthToken {
    fn clone(&self) -> (r: Self)
        ensures
            r@ == self@,
    {
        GitHubAuthToken {
            access_token: self.access_token.clone(),
            token_type: self.token_type.clone(),
            scope: self.scope.clone(),
        }
    }
}

/// The provider's account record, consumed once to mint a session and
/// upsert the local user row.
#[derive(Debug)]
pub struct GitHubUserProfile {
    pub id: i64,
    pub login: String,
    pub name: String,
    pub email: Option<String>,
    pub avatar_url: String,
}

/// The owner of a listed repository.
#[derive(Debug)]
pub struct RepoOwner {
    pub id: u64,
    pub login: String,
    pub avatar_url: String,
}

/// One repository of the authenticated user, as the provider lists it.
#[derive(Debug)]
pub struct Repository {
    pub id: u64,
    pub full_name: String,
    pub private: bool,
    pub html_url: String,
    pub description: Option<String>,
    pub owner: RepoOwner,
}

/// Whether the url crate accepts `s` as an absolute URL; parsing is a
/// function of the text alone.
pub uninterp spec fn url_parse_ok(s: Seq<char>) -> bool;

/// Relies on `url::Url::parse`: accepts or rejects the text by the URL
/// grammar alone.
#[verifier::external_body]
fn url_is_valid(s: &str) -> (r: bool)
    ensures
        r == url_parse_ok(s@),
{
    url::Url::parse(s).is_ok()
}

/// The percent-encoding of a string's UTF-8 form, as it appears in a query
/// string this library builds.
pub open spec fn enc(s: Seq<char>) -> Seq<char> {
    pct_encoded(encode_utf8(s))
}

/// The provider redirect target: the configured redirect URI with the
/// handshake's `session_id` and `device_type` round-tripped through its
/// query component.
pub open spec fn spec_redirect_url(
    redirect_uri: Seq<char>,
    session_id: Seq<char>,
    device_type: Seq<char>,
) -> Seq<char> {
    redirect_uri + "?session_id="@ + enc(session_id) + "&device_type="@ + enc(device_type)
}

/// The provider authorization URL: carries the client id, the redirect
/// target, the CSRF `state` and the requested scopes.
pub open spec fn spec_login_url(
    client_id: Seq<char>,
    redirect_uri: Seq<char>,
    state: Seq<char>,
    session_id: Seq<char>,
    device_type: Seq<char>,
) -> Seq<char> {
    "https://github.com/login/oauth/authorize?client_id="@ + enc(client_id) + "&redirect_uri="@
        + enc(spec_redirect_url(redirect_uri, session_id, device_type)) + "&state="@ + enc(state)
        + "&scope="@ + enc("repo read:user"@)
}

/// The token-exchange URL: carries the client credentials and the
/// provider's one-time `code`.
pub open spec fn spec_token_exchange_url(
    client_id: Seq<char>,
    client_secret: Seq<char>,
    code: Seq<char>,
) -> Seq<char> {
    "https://github.com/login/oauth/access_token?client_id="@ + enc(client_id)
        + "&client_secret="@ + enc(client_secret) + "&code="@ + enc(code)
}

/// The immutable OAuth configuration, constructed once at startup and
/// passed to everything that needs it. A malformed redirect URI fails at
/// construction, not at request time.
#[derive(Debug)]
pub struct GitHubAPI {
    pub oauth_client_id: String,
    pub oauth_client_secret: SecretToken,
    pub oauth_redirect_uri: String,
}

impl GitHubAPI {
    /// Builds the configuration, rejecting a redirect URI the URL grammar
    /// refuses.
    pub fn new(client_id: String, client_secret: SecretToken, redirect_uri: String) -> (r: Result<
        GitHubAPI,
        AppError,
    >)
        ensures
            r matches Ok(api) ==> url_parse_ok(redirect_uri@) && api.oauth_client_id@ == client_id@
                && secret_of(api.oauth_client_secret) == secret_of(client_secret)
                && api.oauth_redirect_uri@ == redirect_uri@,
            r matches Err(e) ==> !url_parse_ok(redirect_uri@) && e matches AppError::Internal(_),
    {
        if url_is_valid(redirect_uri.as_str()) {
            Ok(
                GitHubAPI {
                    oauth_client_id: client_id,
                    oauth_client_secret: client_secret,
                    oauth_redirect_uri: redirect_uri,
                },
            )
        } else {
            Err(AppError::internal("Failed to parse github redirect uri".to_owned()))
        }
    }

    /// The authorization URL the browser is redirected to. The result is
    /// exactly [`spec_login_url`] of the configuration and the request's
    /// values; in particular it carries `state` and `session_id`.
    pub fn make_login_url(&self, session_id: &str, state: &str, device_type: &str) -> (r: String)
        ensures
            r@ == spec_login_url(
                self.oauth_client_id@,
                self.oauth_redirect_uri@,
                state@,
                session_id@,
                device_type@,
            ),
    {
        let mut redirect = self.oauth_redirect_uri.clone();
        redirect.append("?session_id=");
        let e_sid = pct_encode(session_id);
        redirect.append(e_sid.as_str());
        redirect.append("&device_type=");
        let e_dev = pct_encode(device_type);
        redirect.append(e_dev.as_str());

        let mut u = String::new();
        u.append("https://github.com/login/oauth/authorize?client_id=");
        let e_cid = pct_encode(self.oauth_client_id.as_str());
        u.append(e_cid.as_str());
        u.append("&redirect_uri=");
        let e_red = pct_encode(redirect.as_str());
        u.append(e_red.as_str());
        u.append("&state=");
        let e_state = pct_encode(state);
        u.append(e_state.as_str());
        u.append("&scope=");
        let e_scope = pct_encode("repo read:user");
        u.append(e_scope.as_str());
        proof {
            assert(u@ =~= spec_login_url(
                self.oauth_client_id@,
                self.oauth_redirect_uri@,
                state@,
                session_id@,
                device_type@,
            ));
        }
        u
    }

    /// The token-exchange URL for a callback's one-time `code`. The result
    /// is exactly [`spec_token_exchange_url`] of the configuration and the
    /// code.
    pub fn make_github_oauth_url(&self, code: &str) -> (r: String)
        ensures
            r@ == spec_token_exchange_url(
                self.oauth_client_id@,
                secret_of(self.oauth_client_secret),
                code@,
            ),
    {
        let mut u = String::new();
        u.append("https://github.com/login/oauth/access_token?client_id=");
        let e_cid = pct_encode(self.oauth_client_id.as_str());
        u.append(e_cid.as_str());
        u.append("&client_secret=");
        let e_sec = pct_encode(self.oauth_client_secret.expose_secret());
        u.append(e_sec.as_str());
        u.append("&code=");
        let e_code = pct_encode(code);
        u.append(e_code.as_str());
        proof {
            assert(u@ =~= spec_token_exchange_url(
                self.oauth_client_id@,
                secret_of(self.oauth_client_secret),
                code@,
            ));
        }
        u
    }
}

/// Decides the gateway's answer to the token-exchange call. `status` is
/// the provider's HTTP status, or `None` when the call failed at the
/// transport level (including a timeout); `parsed` is the token parsed
/// from a 200 body, or `None` when the body did not parse. The provider's
/// own response body is never part of the answer.
pub fn fetch_token_outcome(status: Option<u16>, parsed: Option<GitHubAuthToken>) -> (r: Result<
    GitHubAuthToken,
    AppError,
>)
    ensures
        status is None ==> result_is_response(
            r,
            STATUS_BAD_GATEWAY,
            "Failed to fetch user credentials from GitHub."@,
        ),
        status matches Some(s) ==> (s != STATUS_OK ==> result_is_response(
            r,
            s,
            "Failed to fetch user credentials from GitHub."@,
        )),
        status == Some(STATUS_OK) && parsed is None ==> result_is_internal(r),
        parsed matches Some(t) ==> (status == Some(STATUS_OK) ==> r == Ok::<
            GitHubAuthToken,
            AppError,
        >(t)),
{
    match status {
        None => Err(
            AppError::response(
                STATUS_BAD_GATEWAY,
                "Failed to fetch user credentials from GitHub.".to_owned(),
            ),
        ),
        Some(s) => {
            if s != STATUS_OK {
                Err(
                    AppError::response(
                        s,
                        "Failed to fetch user credentials from GitHub.".to_owned(),
                    ),
                )
            } else {
                match parsed {
                    None => Err(
                        AppError::internal(
                            "Failed to parse GitHub access token response".to_owned(),
                        ),
                    ),
                    Some(t) => Ok(t),
                }
            }
        },
    }
}

/// Decides the gateway's answer to the profile fetch, under the same
/// status mapping as the token exchange; the provider's body is never
/// forwarded.
pub fn fetch_profile_outcome(status: Option<u16>, parsed: Option<GitHubUserProfile>) -> (r: Result<
    GitHubUserProfile,
    AppError,
>)
    ensures
        status is None ==> result_is_response(
            r,
            STATUS_BAD_GATEWAY,
            "Failed to fetch the GitHub user profile."@,
        ),
        status matches Some(s) ==> (s != STATUS_OK ==> result_is_response(
            r,
            s,
            "Failed to fetch the GitHub user profile."@,
        )),
        status == Some(STATUS_OK) && parsed is None ==> result_is_internal(r),
        parsed matches Some(p) ==> (status == Some(STATUS_OK) ==> r == Ok::<
            GitHubUserProfile,
            AppError,
        >(p)),
{
    match status {
        None => Err(
            AppError::response(
                STATUS_BAD_GATEWAY,
                "Failed to fetch the GitHub user profile.".to_owned(),
            ),
        ),
        Some(s) => {
            if s != STATUS_OK {
                Err(AppError::response(s, "Failed to fetch the GitHub user profile.".to_owned()))
            } else {
                match parsed {
                    None => Err(
                        AppError::internal(
                            "Failed to parse GitHub user profile response".to_owned(),
                        ),
                    ),
                    Some(p) => Ok(p),
                }
            }
        },
    }
}

/// Decides the gateway's answer to the repository listing, under the same
/// status mapping.
pub fn fetch_repositories_outcome(status: Option<u16>, parsed: Option<Vec<Repository>>) -> (r:
    Result<Vec<Repository>, AppError>)
    ensures
        status is None ==> result_is_response(
            r,
            STATUS_BAD_GATEWAY,
            "Failed to get repositories from GitHub."@,
        ),
        status matches Some(s) ==> (s != STATUS_OK ==> result_is_response(
            r,
            s,
            "Failed to get repositories from GitHub."@,
        )),
        status == Some(STATUS_OK) && parsed is None ==> result_is_internal(r),
        parsed matches Some(v) ==> (status == Some(STATUS_OK) ==> r == Ok::<
            Vec<Repository>,
            AppError,
        >(v)),
{
    match status {
        None => Err(
            AppError::response(
                STATUS_BAD_GATEWAY,
                "Failed to get repositories from GitHub.".to_owned(),
            ),
        ),
        Some(s) => {
            if s != STATUS_OK {
                Err(AppError::response(s, "Failed to get repositories from GitHub.".to_owned()))
            } else {
                match parsed {
                    None => Err(AppError::internal("Failed to marshal repositories".to_owned())),
                    Some(v) => Ok(v),
                }
            }
        },
    }
}

} // verus!
