//! The handshake orchestrator and the authentication gate.
//!
//! A handshake starts by persisting a fresh CSRF nonce under a fresh
//! identifier and redirecting the browser to the provider; the callback
//! consumes that record, checks the echoed nonce, and — once the code has
//! been exchanged and the profile fetched — mints a session under a new
//! identifier. The store transitions and decisions of every step live
//! here, each with an exact contract; the two outbound provider calls
//! happen between the steps, outside the library, and hand their observed
//! outcome to the deciders in [`crate::github`].
//!
//! Nothing in this module performs I/O.

use vstd::prelude::*;
use vstd::utf8::{encode_utf8, is_ascii_chars, is_ascii_chars_encode_utf8};

use crate::cache::{
    EVAULT_SESSION_TTL, HandshakeV, RedisAuthSession, SessionStore, SessionV,
    UserSessionInternal, UserSessionInternalV, hs_live, sess_live, spec_get_session,
    spec_put_handshake, spec_take_map, spec_take_result,
};
use crate::errors::{
    AppError, STATUS_FORBIDDEN, STATUS_UNAUTHORIZED, result_is_response,
};
use crate::github::{
    GITHUB_OAUTH_STATE_TTL, GitHubAPI, GitHubUserProfile, enc, spec_login_url,
    spec_redirect_url,
};
use crate::secrets::{is_token_text, token_urlsafe};
use crate::urlenc::{
    contains_at, contains_seq, lemma_pct_concat, lemma_pct_unreserved_identity,
};

verus! {

/// The cookie that carries the issued session identifier — and nothing
/// else: the bearer token never gets a client-readable copy.
pub const COOKIE_ACCESS_TOKEN_KEY: &'static str = "evault_access_token";

/// The query of the handshake-start request.
pub struct AuthQuery {
    pub device_type: String,
}

/// The query of the provider callback: the round-tripped handshake id and
/// client hint, the one-time code, and the echoed CSRF state.
pub struct TokenQuery {
    pub session_id: String,
    pub device_type: String,
    pub code: String,
    pub state: String,
}

/// `START → REDIRECTED`: persist the handshake under `session_id` with
/// the handshake TTL and hand back the authorization URL to redirect to.
/// No session exists yet.
pub fn begin_handshake(
    api: &GitHubAPI,
    store: &mut SessionStore,
    session_id: &str,
    state: &str,
    device_type: &str,
    now: u64,
) -> (r: String)
    requires
        old(store).wf(),
        now + GITHUB_OAUTH_STATE_TTL <= u64::MAX,
    ensures
        final(store).wf(),
        final(store).handshakes() == spec_put_handshake(
            old(store).handshakes(),
            session_id@,
            state@,
            device_type@,
            GITHUB_OAUTH_STATE_TTL,
            now,
        ),
        final(store).sessions() == old(store).sessions(),
        r@ == spec_login_url(
            api.oauth_client_id@,
            api.oauth_redirect_uri@,
            state@,
            session_id@,
            device_type@,
        ),
{
    let url = api.make_login_url(session_id, state, device_type);
    let auth_session = RedisAuthSession {
        state: state.to_owned(),
        device_type: device_type.to_owned(),
    };
    store.make_auth_session(session_id, &auth_session, GITHUB_OAUTH_STATE_TTL, now);
    url
}

/// The whole start step: generate the CSRF state and the handshake id
/// from the secure source, persist the handshake, and return the
/// authorization URL. Only an entropy failure fails it.
pub fn auth_redirect(api: &GitHubAPI, store: &mut SessionStore, device_type: &str, now: u64) -> (r:
    Result<String, AppError>)
    requires
        old(store).wf(),
        now + GITHUB_OAUTH_STATE_TTL <= u64::MAX,
    ensures
        final(store).wf(),
        final(store).sessions() == old(store).sessions(),
        r matches Err(e) ==> e matches AppError::Internal(_) && final(store).handshakes() == old(
            store,
        ).handshakes(),
        r matches Ok(u) ==> (exists|st: Seq<char>, sid: Seq<char>|
            {
                &&& is_token_text(st)
                &&& is_token_text(sid)
                &&& u@ == spec_login_url(
                    api.oauth_client_id@,
                    api.oauth_redirect_uri@,
                    st,
                    sid,
                    device_type@,
                )
                &&& final(store).handshakes() == #[trigger] spec_put_handshake(
                    old(store).handshakes(),
                    sid,
                    st,
                    device_type@,
                    GITHUB_OAUTH_STATE_TTL,
                    now,
                )
            }),
{
    let oauth_state = match token_urlsafe(32) {
        Ok(t) => t,
        Err(e) => { return Err(e); },
    };
    let session_id = match token_urlsafe(16) {
        Ok(t) => t,
        Err(e) => { return Err(e); },
    };
    let url = begin_handshake(api, store, session_id.as_str(), oauth_state.as_str(), device_type, now);
    proof {
        assert(final(store).handshakes() == spec_put_handshake(
            old(store).handshakes(),
            session_id@,
            oauth_state@,
            device_type@,
            GITHUB_OAUTH_STATE_TTL,
            now,
        ));
    }
    Ok(url)
}

/// How a callback fares against the stored handshake: the handshake is
/// missing or expired, or its state does not match the one presented, or
/// it is accepted.
pub enum SpecCallbackOutcome {
    Expired,
    CsrfMismatch,
    Accepted(HandshakeV),
}

/// The outcome of validating a callback `(id, state)` against the
/// handshake map at `now`.
pub open spec fn spec_callback_outcome(
    m: Map<Seq<char>, HandshakeV>,
    id: Seq<char>,
    state: Seq<char>,
    now: u64,
) -> SpecCallbackOutcome {
    match spec_take_result(m, id, now) {
        None => SpecCallbackOutcome::Expired,
        Some(h) => if h.state == state {
            SpecCallbackOutcome::Accepted(h)
        } else {
            SpecCallbackOutcome::CsrfMismatch
        },
    }
}

/// The CSRF check itself: the callback's `state` must equal the stored
/// one, compared as full strings — never a prefix or a part. A mismatch
/// is the unauthorized `CSRF_MISMATCH` outcome.
pub fn check_state(stored: &RedisAuthSession, presented: &str) -> (r: Result<(), AppError>)
    ensures
        stored.state@ == presented@ ==> r is Ok,
        stored.state@ != presented@ ==> result_is_response(
            r,
            STATUS_UNAUTHORIZED,
            "Invalid credentials."@,
        ),
{
    let p = presented.to_owned();
    if stored.state == p {
        Ok(())
    } else {
        Err(AppError::response(STATUS_UNAUTHORIZED, "Invalid credentials.".to_owned()))
    }
}

/// `REDIRECTED → CALLBACK_RECEIVED`: atomically consume the handshake
/// under `session_id` and hold the callback's `state` against the stored
/// one, comparing the full strings. A missing or expired handshake is
/// `EXPIRED_HANDSHAKE`; a mismatch is `CSRF_MISMATCH`. In every case the
/// handshake is gone afterwards, so the callback cannot be replayed.
pub fn callback_validate(
    store: &mut SessionStore,
    session_id: &str,
    state: &str,
    now: u64,
) -> (r: Result<RedisAuthSession, AppError>)
    requires
        old(store).wf(),
    ensures
        final(store).wf(),
        final(store).sessions() == old(store).sessions(),
        final(store).handshakes() == spec_take_map(old(store).handshakes(), session_id@, now),
        spec_callback_outcome(old(store).handshakes(), session_id@, state@, now) matches
            SpecCallbackOutcome::Accepted(h) ==> (r matches Ok(a) && a.state@ == h.state
            && a.device_type@ == h.device_type),
        spec_callback_outcome(old(store).handshakes(), session_id@, state@, now)
            is Expired ==> result_is_response(r, STATUS_UNAUTHORIZED, "Authentication failed."@),
        spec_callback_outcome(old(store).handshakes(), session_id@, state@, now)
            is CsrfMismatch ==> result_is_response(r, STATUS_UNAUTHORIZED, "Invalid credentials."@),
{
    let auth_session = match store.get_auth_session(session_id, now) {
        Ok(a) => a,
        Err(e) => { return Err(e); },
    };
    match check_state(&auth_session, state) {
        Ok(()) => Ok(auth_session),
        Err(e) => Err(e),
    }
}

/// `PROFILE_FETCHED → SESSION_ISSUED`: assemble the session record from
/// the fetched profile and the exchanged token, under the freshly
/// generated `session_id` (never the handshake's id), and create it with
/// the session TTL. On success the returned cookie value is the session
/// identifier itself — the bearer token is in the store only.
pub fn issue_session(
    store: &mut SessionStore,
    profile: &GitHubUserProfile,
    token: crate::github::GitHubAuthToken,
    session_id: String,
    now: u64,
) -> (r: Result<String, AppError>)
    requires
        old(store).wf(),
        now + EVAULT_SESSION_TTL <= u64::MAX,
    ensures
        final(store).wf(),
        final(store).handshakes() == old(store).handshakes(),
        !sess_live(old(store).sessions(), session_id@, now) ==> (r matches Ok(v) && v@
            == session_id@ && final(store).sessions() == old(store).sessions().insert(
            session_id@,
            SessionV {
                session: UserSessionInternalV {
                    session_id: session_id@,
                    user_id: profile.id as u64,
                    token: token@,
                    user_avatar_url: profile.avatar_url@,
                    user_name: profile.name@,
                    user_login: profile.login@,
                },
                expires_at: (now + EVAULT_SESSION_TTL) as u64,
            },
        )),
        sess_live(old(store).sessions(), session_id@, now) ==> (result_is_response(
            r,
            STATUS_UNAUTHORIZED,
            "Failed to create user session"@,
        ) && final(store).sessions() == old(store).sessions()),
{
    let cookie_value = session_id.clone();
    let user_session = UserSessionInternal {
        session_id,
        user_id: profile.id as u64,
        user_name: profile.name.clone(),
        user_avatar_url: profile.avatar_url.clone(),
        user_login: profile.login.clone(),
        token,
    };
    match store.create_user_session(user_session, EVAULT_SESSION_TTL, now) {
        Ok(()) => Ok(cookie_value),
        Err(e) => Err(e),
    }
}

/// The authentication gate. A request without the session cookie is
/// rejected as missing credentials; one whose cookie resolves to no live
/// session is rejected as expired, distinguishably; otherwise the stored
/// identity is returned for the downstream handler, and the store is not
/// touched.
pub fn authenticated_requests(store: &SessionStore, session_cookie: Option<&str>, now: u64) -> (r:
    Result<UserSessionInternal, AppError>)
    requires
        store.wf(),
    ensures
        session_cookie is None ==> result_is_response(
            r,
            STATUS_FORBIDDEN,
            "Missing credentials."@,
        ),
        session_cookie matches Some(c) ==> (spec_get_session(store.sessions(), c@, now) matches
            Some(sv) ==> (r matches Ok(u) && u@ == sv)),
        session_cookie matches Some(c) ==> (spec_get_session(store.sessions(), c@, now) is None
            ==> result_is_response(r, STATUS_FORBIDDEN, "Session expired."@)),
{
    match session_cookie {
        None => Err(AppError::response(STATUS_FORBIDDEN, "Missing credentials.".to_owned())),
        Some(cookie) => store.get_user_session(cookie, now),
    }
}

/// The profile a downstream handler sees for an authenticated request: a
/// copy of what the session holds, with no email (the session does not
/// keep one) and, above all, no bearer token.
pub fn profile_of_session(user: &UserSessionInternal) -> (r: GitHubUserProfile)
    ensures
        r.id == user.user_id as i64,
        r.login@ == user.user_login@,
        r.name@ == user.user_name@,
        r.email is None,
        r.avatar_url@ == user.user_avatar_url@,
{
    GitHubUserProfile {
        id: user.user_id as i64,
        login: user.user_login.clone(),
        name: user.user_name.clone(),
        email: None,
        avatar_url: user.user_avatar_url.clone(),
    }
}

/// A callback whose state differs from the stored one — in length, or at
/// even one position — is rejected as a CSRF mismatch, whatever the rest
/// of the payload carries.
pub proof fn lemma_csrf_rejects_any_difference(
    m: Map<Seq<char>, HandshakeV>,
    id: Seq<char>,
    presented: Seq<char>,
    now: u64,
    k: int,
)
    requires
        hs_live(m, id, now),
        m[id].state.len() != presented.len() || (0 <= k < m[id].state.len() && k
            < presented.len() && m[id].state[k] != presented[k]),
    ensures
        spec_callback_outcome(m, id, presented, now) is CsrfMismatch,
{
    assert(m[id].state != presented);
}

/// Encoding a byte sequence distributes over concatenation of the
/// character sequences it came from.
proof fn lemma_encode_utf8_concat(a: Seq<char>, b: Seq<char>)
    ensures
        encode_utf8(a + b) == encode_utf8(a) + encode_utf8(b),
    decreases a.len(),
{
    if a.len() == 0 {
        assert(a + b =~= b);
        assert(encode_utf8(a) + encode_utf8(b) =~= encode_utf8(b));
    } else {
        assert((a + b).drop_first() =~= a.drop_first() + b);
        lemma_encode_utf8_concat(a.drop_first(), b);
        assert((a + b)[0] == a[0]);
        assert(encode_utf8(a + b) =~= encode_utf8(a) + encode_utf8(b));
    }
}

/// Query-string encoding distributes over concatenation.
proof fn lemma_enc_concat(a: Seq<char>, b: Seq<char>)
    ensures
        enc(a + b) == enc(a) + enc(b),
{
    lemma_encode_utf8_concat(a, b);
    lemma_pct_concat(encode_utf8(a), encode_utf8(b));
}

/// A token of the URL-safe alphabet passes through query-string encoding
/// unchanged.
proof fn lemma_enc_token_identity(s: Seq<char>)
    requires
        is_token_text(s),
    ensures
        enc(s) == s,
{
    assert forall|i: int| 0 <= i < s.len() implies '\0' <= #[trigger] s[i] <= '\u{7f}' by {
        assert(crate::secrets::in_b64url_alphabet(s[i]));
    }
    assert(is_ascii_chars(s));
    is_ascii_chars_encode_utf8(s);
    let bytes = encode_utf8(s);
    assert forall|i: int| 0 <= i < bytes.len() implies crate::urlenc::is_unreserved_byte(
        #[trigger] bytes[i],
    ) by {
        assert(crate::secrets::in_b64url_alphabet(s[i]));
        assert(bytes[i] == s[i] as u8);
    }
    lemma_pct_unreserved_identity(bytes);
    assert forall|i: int| 0 <= i < s.len() implies enc(s)[i] == s[i] by {
        assert(enc(s)[i] == (s[i] as u8) as char);
    }
    assert(enc(s) =~= s);
}

/// A sequence occurs in any concatenation that has it as the middle part.
proof fn lemma_contains_concat_middle(a: Seq<char>, b: Seq<char>, c: Seq<char>)
    ensures
        contains_seq(a + b + c, b),
{
    assert((a + b + c).subrange(a.len() as int, a.len() as int + b.len() as int) =~= b);
    assert(contains_at(a + b + c, b, a.len() as int));
}

/// The authorization URL carries the generated CSRF state and the
/// handshake's session id verbatim: both are tokens of the URL-safe
/// alphabet, which percent-encoding leaves untouched.
pub proof fn lemma_login_url_carries_tokens(
    client_id: Seq<char>,
    redirect_uri: Seq<char>,
    state: Seq<char>,
    session_id: Seq<char>,
    device_type: Seq<char>,
)
    requires
        is_token_text(state),
        is_token_text(session_id),
    ensures
        contains_seq(
            spec_login_url(client_id, redirect_uri, state, session_id, device_type),
            state,
        ),
        contains_seq(
            spec_login_url(client_id, redirect_uri, state, session_id, device_type),
            session_id,
        ),
{
    lemma_enc_token_identity(state);
    lemma_enc_token_identity(session_id);
    let url = spec_login_url(client_id, redirect_uri, state, session_id, device_type);
    let red = spec_redirect_url(redirect_uri, session_id, device_type);

    let a1 = "https://github.com/login/oauth/authorize?client_id="@ + enc(client_id)
        + "&redirect_uri="@ + enc(red) + "&state="@;
    let c1 = "&scope="@ + enc("repo read:user"@);
    assert(url =~= a1 + state + c1);
    lemma_contains_concat_middle(a1, state, c1);
    assert(contains_seq(url, state));

    let pre = redirect_uri + "?session_id="@;
    let post = "&device_type="@ + enc(device_type);
    assert(red =~= pre + session_id + post);
    lemma_enc_concat(pre + session_id, post);
    lemma_enc_concat(pre, session_id);
    assert(enc(red) =~= enc(pre) + session_id + enc(post));

    let a2 = "https://github.com/login/oauth/authorize?client_id="@ + enc(client_id)
        + "&redirect_uri="@ + enc(pre);
    let c2 = enc(post) + "&state="@ + state + "&scope="@ + enc("repo read:user"@);
    assert(url =~= a2 + session_id + c2);
    lemma_contains_concat_middle(a2, session_id, c2);
    assert(contains_seq(url, session_id));
}

} // verus!
