//! The ephemeral session store: two kinds of TTL-bounded records keyed by
//! opaque identifiers.
//!
//! A handshake record ([`RedisAuthSession`]) lives for at most
//! [`crate::github::GITHUB_OAUTH_STATE_TTL`] seconds and is consumed by the read that
//! finds it, which is what makes a callback single-use. A session record
//! ([`UserSessionInternal`]) lives for [`EVAULT_SESSION_TTL`] seconds, is
//! created only if no live record holds its key (so a replay cannot
//! clobber a live session), and is not renewed by being read.
//!
//! The store's behaviour is stated over two maps from key to record, and
//! every operation's contract is an exact transition on those maps, with
//! time an explicit argument: a record whose expiry is not after `now` is
//! treated exactly as an absent one.

use vstd::prelude::*;

use crate::errors::{
    AppError, STATUS_FORBIDDEN, STATUS_UNAUTHORIZED, result_is_response,
};
use crate::github::{GitHubAuthToken, GitHubAuthTokenV};

verus! {

/// How long an authenticated session lives in the store, in seconds.
pub const EVAULT_SESSION_TTL: u64 = 300;

/// The transient handshake record: the CSRF nonce this server issued and
/// the client hint to echo back.
#[derive(Debug)]
pub struct RedisAuthSession {
    pub state: String,
    pub device_type: String,
}

/// The mathematical content of a [`RedisAuthSession`].
pub struct RedisAuthSessionV {
    pub state: Seq<char>,
    pub device_type: Seq<char>,
}

impl View for RedisAuthSession {
    type V = RedisAuthSessionV;

    open spec fn view(&self) -> RedisAuthSessionV {
        RedisAuthSessionV { state: self.state@, device_type: self.device_type@ }
    }
}

/// The authenticated-identity record. The key it is stored under is its
/// `session_id`; the provider bearer credential sits inside `token` and
/// never leaves except through the token's explicit accessor.
#[derive(Debug)]
pub struct UserSessionInternal {
    pub session_id: String,
    pub user_id: u64,
    pub token: GitHubAuthToken,
    pub user_avatar_url: String,
    pub user_name: String,
    pub user_login: String,
}

/// The mathematical content of a [`UserSessionInternal`].
pub struct UserSessionInternalV {
    pub session_id: Seq<char>,
    pub user_id: u64,
    pub token: GitHubAuthTokenV,
    pub user_avatar_url: Seq<char>,
    pub user_name: Seq<char>,
    pub user_login: Seq<char>,
}

impl View for UserSessionInternal {
    type V = UserSessionInternalV;

    open spec fn view(&self) -> UserSessionInternalV {
        UserSessionInternalV {
            session_id: self.session_id@,
            user_id: self.user_id,
            token: self.token@,
            user_avatar_url: self.user_avatar_url@,
            user_name: self.user_name@,
            user_login: self.user_login@,
        }
    }
}

impl Clone for UserSessionInternal {
    fn clone(&self) -> (r: Self)
        ensures
            r@ == self@,
    {
        UserSessionInternal {
            session_id: self.session_id.clone(),
            user_id: self.user_id,
            token: self.token.clone(),
            user_avatar_url: self.user_avatar_url.clone(),
            user_name: self.user_name.clone(),
            user_login: self.user_login.clone(),
        }
    }
}

/// A stored handshake: its content and the instant it expires.
pub struct HandshakeV {
    pub state: Seq<char>,
    pub device_type: Seq<char>,
    pub expires_at: u64,
}

/// A stored session: its content and the instant it expires.
pub struct SessionV {
    pub session: UserSessionInternalV,
    pub expires_at: u64,
}

/// A handshake record under `id` exists and has not expired at `now`.
pub open spec fn hs_live(m: Map<Seq<char>, HandshakeV>, id: Seq<char>, now: u64) -> bool {
    m.contains_key(id) && now < m[id].expires_at
}

/// A session record under `id` exists and has not expired at `now`.
pub open spec fn sess_live(m: Map<Seq<char>, SessionV>, id: Seq<char>, now: u64) -> bool {
    m.contains_key(id) && now < m[id].expires_at
}

/// What writing a handshake does to the handshake map: a create-if-absent,
/// where an expired record counts as absent.
pub open spec fn spec_put_handshake(
    m: Map<Seq<char>, HandshakeV>,
    id: Seq<char>,
    state: Seq<char>,
    device_type: Seq<char>,
    ttl: u64,
    now: u64,
) -> Map<Seq<char>, HandshakeV> {
    if hs_live(m, id, now) {
        m
    } else {
        m.insert(id, HandshakeV { state, device_type, expires_at: (now + ttl) as u64 })
    }
}

/// What the atomic read-and-delete returns: the live record under `id`,
/// or nothing.
pub open spec fn spec_take_result(
    m: Map<Seq<char>, HandshakeV>,
    id: Seq<char>,
    now: u64,
) -> Option<HandshakeV> {
    if hs_live(m, id, now) {
        Some(m[id])
    } else {
        None
    }
}

/// What the atomic read-and-delete leaves behind: the map without `id` if
/// the record was live, the map unchanged otherwise.
pub open spec fn spec_take_map(
    m: Map<Seq<char>, HandshakeV>,
    id: Seq<char>,
    now: u64,
) -> Map<Seq<char>, HandshakeV> {
    if hs_live(m, id, now) {
        m.remove(id)
    } else {
        m
    }
}

/// What the conditional create does to the session map: nothing when a
/// live record already holds the key, an insert otherwise.
pub open spec fn spec_create_map(
    m: Map<Seq<char>, SessionV>,
    s: UserSessionInternalV,
    ttl: u64,
    now: u64,
) -> Map<Seq<char>, SessionV> {
    if sess_live(m, s.session_id, now) {
        m
    } else {
        m.insert(s.session_id, SessionV { session: s, expires_at: (now + ttl) as u64 })
    }
}

/// What a session read returns: the live record under `id`, or nothing.
/// Reading changes no record and extends no TTL.
pub open spec fn spec_get_session(
    m: Map<Seq<char>, SessionV>,
    id: Seq<char>,
    now: u64,
) -> Option<UserSessionInternalV> {
    if sess_live(m, id, now) {
        Some(m[id].session)
    } else {
        None
    }
}

struct HandshakeEntry {
    session_id: String,
    session: RedisAuthSession,
    expires_at: u64,
}

struct SessionEntry {
    session: UserSessionInternal,
    expires_at: u64,
}

spec fn hs_key(e: HandshakeEntry) -> Seq<char> {
    e.session_id@
}

spec fn hs_val(e: HandshakeEntry) -> HandshakeV {
    HandshakeV {
        state: e.session.state@,
        device_type: e.session.device_type@,
        expires_at: e.expires_at,
    }
}

spec fn ss_key(e: SessionEntry) -> Seq<char> {
    e.session.session_id@
}

spec fn ss_val(e: SessionEntry) -> SessionV {
    SessionV { session: e.session@, expires_at: e.expires_at }
}

spec fn hs_fold(s: Seq<HandshakeEntry>) -> Map<Seq<char>, HandshakeV>
    decreases s.len(),
{
    if s.len() == 0 {
        Map::empty()
    } else {
        hs_fold(s.drop_last()).insert(hs_key(s.last()), hs_val(s.last()))
    }
}

spec fn ss_fold(s: Seq<SessionEntry>) -> Map<Seq<char>, SessionV>
    decreases s.len(),
{
    if s.len() == 0 {
        Map::empty()
    } else {
        ss_fold(s.drop_last()).insert(ss_key(s.last()), ss_val(s.last()))
    }
}

spec fn hs_unique(s: Seq<HandshakeEntry>) -> bool {
    forall|i: int, j: int| 0 <= i < j < s.len() ==> hs_key(s[i]) != hs_key(s[j])
}

spec fn ss_unique(s: Seq<SessionEntry>) -> bool {
    forall|i: int, j: int| 0 <= i < j < s.len() ==> ss_key(s[i]) != ss_key(s[j])
}

proof fn lemma_hs_contains(s: Seq<HandshakeEntry>, k: Seq<char>)
    ensures
        hs_fold(s).contains_key(k) <==> exists|i: int| 0 <= i < s.len() && hs_key(s[i]) == k,
    decreases s.len(),
{
    if s.len() > 0 {
        lemma_hs_contains(s.drop_last(), k);
        if hs_fold(s).contains_key(k) {
            if hs_key(s.last()) == k {
                assert(hs_key(s[s.len() - 1]) == k);
            } else {
                let i = choose|i: int| 0 <= i < s.drop_last().len() && hs_key(
                    s.drop_last()[i],
                ) == k;
                assert(hs_key(s[i]) == k);
            }
        }
        if exists|i: int| 0 <= i < s.len() && hs_key(s[i]) == k {
            let i = choose|i: int| 0 <= i < s.len() && hs_key(s[i]) == k;
            if i < s.len() - 1 {
                assert(hs_key(s.drop_last()[i]) == k);
            }
        }
    }
}

proof fn lemma_hs_at(s: Seq<HandshakeEntry>, i: int)
    requires
        hs_unique(s),
        0 <= i < s.len(),
    ensures
        hs_fold(s).contains_key(hs_key(s[i])),
        hs_fold(s)[hs_key(s[i])] == hs_val(s[i]),
    decreases s.len(),
{
    if i < s.len() - 1 {
        assert(hs_unique(s.drop_last()));
        lemma_hs_at(s.drop_last(), i);
        assert(hs_key(s[i]) != hs_key(s[s.len() - 1]));
    }
}

proof fn lemma_hs_remove(s: Seq<HandshakeEntry>, i: int)
    requires
        hs_unique(s),
        0 <= i < s.len(),
    ensures
        hs_fold(s.remove(i)) == hs_fold(s).remove(hs_key(s[i])),
        hs_unique(s.remove(i)),
    decreases s.len(),
{
    let k = hs_key(s[i]);
    assert forall|x: int, y: int| 0 <= x < y < s.remove(i).len() implies hs_key(
        s.remove(i)[x],
    ) != hs_key(s.remove(i)[y]) by {
        let x0 = if x < i { x } else { x + 1 };
        let y0 = if y < i { y } else { y + 1 };
        assert(s.remove(i)[x] == s[x0]);
        assert(s.remove(i)[y] == s[y0]);
    }
    if i == s.len() - 1 {
        assert(s.remove(i) =~= s.drop_last());
        lemma_hs_contains(s.drop_last(), k);
        assert(forall|j: int| 0 <= j < s.len() - 1 ==> hs_key(s.drop_last()[j]) != k);
        assert(!hs_fold(s.drop_last()).contains_key(k));
        assert(hs_fold(s.drop_last()).insert(k, hs_val(s.last())).remove(k) =~= hs_fold(
            s.drop_last(),
        ));
    } else {
        assert(hs_unique(s.drop_last()));
        lemma_hs_remove(s.drop_last(), i);
        assert(s.remove(i).drop_last() =~= s.drop_last().remove(i));
        assert(s.remove(i).last() == s.last());
        let lk = hs_key(s.last());
        let lv = hs_val(s.last());
        assert(lk != k);
        assert(hs_fold(s.drop_last()).remove(k).insert(lk, lv) =~= hs_fold(
            s.drop_last(),
        ).insert(lk, lv).remove(k));
    }
}

proof fn lemma_hs_push(s: Seq<HandshakeEntry>, e: HandshakeEntry)
    requires
        hs_unique(s),
        forall|j: int| 0 <= j < s.len() ==> hs_key(s[j]) != hs_key(e),
    ensures
        hs_fold(s.push(e)) == hs_fold(s).insert(hs_key(e), hs_val(e)),
        hs_unique(s.push(e)),
{
    assert(s.push(e).drop_last() =~= s);
    assert(s.push(e).last() == e);
    assert forall|x: int, y: int| 0 <= x < y < s.push(e).len() implies hs_key(
        s.push(e)[x],
    ) != hs_key(s.push(e)[y]) by {
        if y < s.len() {
            assert(s.push(e)[x] == s[x] && s.push(e)[y] == s[y]);
        } else {
            assert(s.push(e)[x] == s[x] && s.push(e)[y] == e);
        }
    }
}

proof fn lemma_ss_contains(s: Seq<SessionEntry>, k: Seq<char>)
    ensures
        ss_fold(s).contains_key(k) <==> exists|i: int| 0 <= i < s.len() && ss_key(s[i]) == k,
    decreases s.len(),
{
    if s.len() > 0 {
        lemma_ss_contains(s.drop_last(), k);
        if ss_fold(s).contains_key(k) {
            if ss_key(s.last()) == k {
                assert(ss_key(s[s.len() - 1]) == k);
            } else {
                let i = choose|i: int| 0 <= i < s.drop_last().len() && ss_key(
                    s.drop_last()[i],
                ) == k;
                assert(ss_key(s[i]) == k);
            }
        }
        if exists|i: int| 0 <= i < s.len() && ss_key(s[i]) == k {
            let i = choose|i: int| 0 <= i < s.len() && ss_key(s[i]) == k;
            if i < s.len() - 1 {
                assert(ss_key(s.drop_last()[i]) == k);
            }
        }
    }
}

proof fn lemma_ss_at(s: Seq<SessionEntry>, i: int)
    requires
        ss_unique(s),
        0 <= i < s.len(),
    ensures
        ss_fold(s).contains_key(ss_key(s[i])),
        ss_fold(s)[ss_key(s[i])] == ss_val(s[i]),
    decreases s.len(),
{
    if i < s.len() - 1 {
        assert(ss_unique(s.drop_last()));
        lemma_ss_at(s.drop_last(), i);
        assert(ss_key(s[i]) != ss_key(s[s.len() - 1]));
    }
}

proof fn lemma_ss_remove(s: Seq<SessionEntry>, i: int)
    requires
        ss_unique(s),
        0 <= i < s.len(),
    ensures
        ss_fold(s.remove(i)) == ss_fold(s).remove(ss_key(s[i])),
        ss_unique(s.remove(i)),
    decreases s.len(),
{
    let k = ss_key(s[i]);
    assert forall|x: int, y: int| 0 <= x < y < s.remove(i).len() implies ss_key(
        s.remove(i)[x],
    ) != ss_key(s.remove(i)[y]) by {
        let x0 = if x < i { x } else { x + 1 };
        let y0 = if y < i { y } else { y + 1 };
        assert(s.remove(i)[x] == s[x0]);
        assert(s.remove(i)[y] == s[y0]);
    }
    if i == s.len() - 1 {
        assert(s.remove(i) =~= s.drop_last());
        lemma_ss_contains(s.drop_last(), k);
        assert(forall|j: int| 0 <= j < s.len() - 1 ==> ss_key(s.drop_last()[j]) != k);
        assert(!ss_fold(s.drop_last()).contains_key(k));
        assert(ss_fold(s.drop_last()).insert(k, ss_val(s.last())).remove(k) =~= ss_fold(
            s.drop_last(),
        ));
    } else {
        assert(ss_unique(s.drop_last()));
        lemma_ss_remove(s.drop_last(), i);
        assert(s.remove(i).drop_last() =~= s.drop_last().remove(i));
        assert(s.remove(i).last() == s.last());
        let lk = ss_key(s.last());
        let lv = ss_val(s.last());
        assert(lk != k);
        assert(ss_fold(s.drop_last()).remove(k).insert(lk, lv) =~= ss_fold(
            s.drop_last(),
        ).insert(lk, lv).remove(k));
    }
}

proof fn lemma_ss_push(s: Seq<SessionEntry>, e: SessionEntry)
    requires
        ss_unique(s),
        forall|j: int| 0 <= j < s.len() ==> ss_key(s[j]) != ss_key(e),
    ensures
        ss_fold(s.push(e)) == ss_fold(s).insert(ss_key(e), ss_val(e)),
        ss_unique(s.push(e)),
{
    assert(s.push(e).drop_last() =~= s);
    assert(s.push(e).last() == e);
    assert forall|x: int, y: int| 0 <= x < y < s.push(e).len() implies ss_key(
        s.push(e)[x],
    ) != ss_key(s.push(e)[y]) by {
        if y < s.len() {
            assert(s.push(e)[x] == s[x] && s.push(e)[y] == s[y]);
        } else {
            assert(s.push(e)[x] == s[x] && s.push(e)[y] == e);
        }
    }
}

/// The ephemeral session store, holding both record kinds. All state of
/// the gateway lives here; time is an explicit argument of every
/// operation, and expiry is enforced by comparing against it.
pub struct SessionStore {
    handshakes: Vec<HandshakeEntry>,
    sessions: Vec<SessionEntry>,
}

impl SessionStore {
    /// The store is well-formed: no key is held twice.
    pub closed spec fn wf(self) -> bool {
        hs_unique(self.handshakes@) && ss_unique(self.sessions@)
    }

    /// The handshake records, as a map from key to record.
    pub closed spec fn handshakes(self) -> Map<Seq<char>, HandshakeV> {
        hs_fold(self.handshakes@)
    }

    /// The session records, as a map from key to record.
    pub closed spec fn sessions(self) -> Map<Seq<char>, SessionV> {
        ss_fold(self.sessions@)
    }

    /// An empty store.
    pub fn new() -> (r: SessionStore)
        ensures
            r.wf(),
            r.handshakes() == Map::<Seq<char>, HandshakeV>::empty(),
            r.sessions() == Map::<Seq<char>, SessionV>::empty(),
    {
        SessionStore { handshakes: Vec::new(), sessions: Vec::new() }
    }

    fn find_handshake(&self, session_id: &String) -> (r: Option<usize>)
        ensures
            r matches Some(i) ==> i < self.handshakes@.len() && hs_key(self.handshakes@[i as int])
                == session_id@,
            r is None ==> forall|j: int|
                0 <= j < self.handshakes@.len() ==> hs_key(self.handshakes@[j]) != session_id@,
    {
        let n = self.handshakes.len();
        let mut i: usize = 0;
        while i < n
            invariant
                n == self.handshakes@.len(),
                i <= n,
                forall|j: int| 0 <= j < i ==> hs_key(self.handshakes@[j]) != session_id@,
            decreases n - i,
        {
            if self.handshakes[i].session_id == *session_id {
                return Some(i);
            }
            i = i + 1;
        }
        None
    }

    fn find_session(&self, session_id: &String) -> (r: Option<usize>)
        ensures
            r matches Some(i) ==> i < self.sessions@.len() && ss_key(self.sessions@[i as int])
                == session_id@,
            r is None ==> forall|j: int|
                0 <= j < self.sessions@.len() ==> ss_key(self.sessions@[j]) != session_id@,
    {
        let n = self.sessions.len();
        let mut i: usize = 0;
        while i < n
            invariant
                n == self.sessions@.len(),
                i <= n,
                forall|j: int| 0 <= j < i ==> ss_key(self.sessions@[j]) != session_id@,
            decreases n - i,
        {
            if self.sessions[i].session.session_id == *session_id {
                return Some(i);
            }
            i = i + 1;
        }
        None
    }

    /// Writes a handshake record with its TTL, atomically. The write is a
    /// create-if-absent: a live record under the same key is left
    /// untouched, and no differently-keyed record is ever overwritten.
    pub fn make_auth_session(
        &mut self,
        session_id: &str,
        auth_session: &RedisAuthSession,
        ttl: u64,
        now: u64,
    )
        requires
            old(self).wf(),
            now + ttl <= u64::MAX,
        ensures
            final(self).wf(),
            final(self).handshakes() == spec_put_handshake(
                old(self).handshakes(),
                session_id@,
                auth_session.state@,
                auth_session.device_type@,
                ttl,
                now,
            ),
            final(self).sessions() == old(self).sessions(),
    {
        let key = session_id.to_owned();
        let entry = HandshakeEntry {
            session_id: key,
            session: RedisAuthSession {
                state: auth_session.state.clone(),
                device_type: auth_session.device_type.clone(),
            },
            expires_at: now + ttl,
        };
        match self.find_handshake(&entry.session_id) {
            Some(i) => {
                proof {
                    lemma_hs_at(self.handshakes@, i as int);
                }
                if now < self.handshakes[i].expires_at {
                    // live record: the write yields to it
                } else {
                    let ghost s0 = self.handshakes@;
                    let _ = self.handshakes.remove(i);
                    proof {
                        lemma_hs_remove(s0, i as int);
                        lemma_hs_contains(s0, entry.session_id@);
                    }
                    let ghost s1 = self.handshakes@;
                    proof {
                        assert(forall|j: int|
                            0 <= j < s1.len() ==> hs_key(s1[j]) != entry.session_id@);
                    }
                    self.handshakes.push(entry);
                    proof {
                        lemma_hs_push(s1, self.handshakes@.last());
                        assert(hs_fold(s0).remove(session_id@).insert(
                            session_id@,
                            hs_val(self.handshakes@.last()),
                        ) =~= hs_fold(s0).insert(session_id@, hs_val(self.handshakes@.last())));
                    }
                }
            },
            None => {
                proof {
                    lemma_hs_contains(self.handshakes@, entry.session_id@);
                }
                let ghost s1 = self.handshakes@;
                self.handshakes.push(entry);
                proof {
                    lemma_hs_push(s1, self.handshakes@.last());
                }
            },
        }
    }

    /// Atomically reads and deletes the handshake record under
    /// `session_id`. An absent or expired record yields the unauthorized
    /// outcome; a live one is returned and is gone afterwards, so a second
    /// read of the same key fails.
    pub fn get_auth_session(&mut self, session_id: &str, now: u64) -> (r: Result<
        RedisAuthSession,
        AppError,
    >)
        requires
            old(self).wf(),
        ensures
            final(self).wf(),
            final(self).sessions() == old(self).sessions(),
            final(self).handshakes() == spec_take_map(old(self).handshakes(), session_id@, now),
            spec_take_result(old(self).handshakes(), session_id@, now) matches Some(h) ==> (
            r matches Ok(a) && a.state@ == h.state && a.device_type@ == h.device_type),
            spec_take_result(old(self).handshakes(), session_id@, now) is None
                ==> result_is_response(r, STATUS_UNAUTHORIZED, "Authentication failed."@),
    {
        let key = session_id.to_owned();
        match self.find_handshake(&key) {
            Some(i) => {
                proof {
                    lemma_hs_at(self.handshakes@, i as int);
                }
                if now < self.handshakes[i].expires_at {
                    let ghost s0 = self.handshakes@;
                    let entry = self.handshakes.remove(i);
                    proof {
                        lemma_hs_remove(s0, i as int);
                    }
                    Ok(entry.session)
                } else {
                    Err(AppError::response(
                        STATUS_UNAUTHORIZED,
                        "Authentication failed.".to_owned(),
                    ))
                }
            },
            None => {
                proof {
                    lemma_hs_contains(self.handshakes@, key@);
                }
                Err(AppError::response(STATUS_UNAUTHORIZED, "Authentication failed.".to_owned()))
            },
        }
    }

    /// Conditionally creates a session record with its TTL, atomically: if
    /// a live record already holds the key, nothing is written and the
    /// unauthorized outcome is returned, so a racing duplicate cannot mint
    /// a second session or overwrite a live one.
    pub fn create_user_session(&mut self, session: UserSessionInternal, ttl: u64, now: u64) -> (r:
        Result<(), AppError>)
        requires
            old(self).wf(),
            now + ttl <= u64::MAX,
        ensures
            final(self).wf(),
            final(self).handshakes() == old(self).handshakes(),
            final(self).sessions() == spec_create_map(old(self).sessions(), session@, ttl, now),
            !sess_live(old(self).sessions(), session.session_id@, now) ==> r is Ok,
            sess_live(old(self).sessions(), session.session_id@, now) ==> result_is_response(
                r,
                STATUS_UNAUTHORIZED,
                "Failed to create user session"@,
            ),
    {
        let entry = SessionEntry { session, expires_at: now + ttl };
        match self.find_session(&entry.session.session_id) {
            Some(i) => {
                proof {
                    lemma_ss_at(self.sessions@, i as int);
                }
                if now < self.sessions[i].expires_at {
                    Err(AppError::response(
                        STATUS_UNAUTHORIZED,
                        "Failed to create user session".to_owned(),
                    ))
                } else {
                    let ghost s0 = self.sessions@;
                    let _ = self.sessions.remove(i);
                    proof {
                        lemma_ss_remove(s0, i as int);
                        lemma_ss_contains(s0, entry.session.session_id@);
                    }
                    let ghost s1 = self.sessions@;
                    proof {
                        assert(forall|j: int|
                            0 <= j < s1.len() ==> ss_key(s1[j]) != entry.session.session_id@);
                    }
                    let ghost k = entry.session.session_id@;
                    self.sessions.push(entry);
                    proof {
                        lemma_ss_push(s1, self.sessions@.last());
                        assert(ss_fold(s0).remove(k).insert(k, ss_val(self.sessions@.last()))
                            =~= ss_fold(s0).insert(k, ss_val(self.sessions@.last())));
                    }
                    Ok(())
                }
            },
            None => {
                proof {
                    lemma_ss_contains(self.sessions@, entry.session.session_id@);
                }
                let ghost s1 = self.sessions@;
                self.sessions.push(entry);
                proof {
                    lemma_ss_push(s1, self.sessions@.last());
                }
                Ok(())
            },
        }
    }

    /// Reads the session record under `session_id`. An absent or expired
    /// record yields the session-expired outcome — never stale data — and
    /// a successful read neither changes the store nor extends the TTL.
    pub fn get_user_session(&self, session_id: &str, now: u64) -> (r: Result<
        UserSessionInternal,
        AppError,
    >)
        requires
            self.wf(),
        ensures
            spec_get_session(self.sessions(), session_id@, now) matches Some(sv) ==> (
            r matches Ok(u) && u@ == sv),
            spec_get_session(self.sessions(), session_id@, now) is None ==> result_is_response(
                r,
                STATUS_FORBIDDEN,
                "Session expired."@,
            ),
    {
        let key = session_id.to_owned();
        match self.find_session(&key) {
            Some(i) => {
                proof {
                    lemma_ss_at(self.sessions@, i as int);
                }
                if now < self.sessions[i].expires_at {
                    Ok(self.sessions[i].session.clone())
                } else {
                    Err(AppError::response(STATUS_FORBIDDEN, "Session expired.".to_owned()))
                }
            },
            None => {
                proof {
                    lemma_ss_contains(self.sessions@, key@);
                }
                Err(AppError::response(STATUS_FORBIDDEN, "Session expired.".to_owned()))
            },
        }
    }
}

/// A handshake is single-use. Writing `(id, state)` into a map with no
/// live record under `id` yields a record that a take before its expiry
/// returns exactly once: the take returns the stored state and device
/// hint, and a second take of the same id, at any later or earlier
/// instant, finds nothing.
pub proof fn lemma_handshake_single_use(
    m: Map<Seq<char>, HandshakeV>,
    id: Seq<char>,
    state: Seq<char>,
    device_type: Seq<char>,
    ttl: u64,
    now: u64,
    t1: u64,
    t2: u64,
)
    requires
        !hs_live(m, id, now),
        now + ttl <= u64::MAX,
        t1 < now + ttl,
    ensures
        spec_take_result(spec_put_handshake(m, id, state, device_type, ttl, now), id, t1)
            == Some(HandshakeV { state, device_type, expires_at: (now + ttl) as u64 }),
        spec_take_result(
            spec_take_map(spec_put_handshake(m, id, state, device_type, ttl, now), id, t1),
            id,
            t2,
        ) is None,
{
    let m1 = spec_put_handshake(m, id, state, device_type, ttl, now);
    assert(m1.contains_key(id));
    assert(!spec_take_map(m1, id, t1).contains_key(id));
}

/// Session creation is create-if-absent: with no live record under the
/// key it succeeds, and while that record lives, a second create under
/// the same key fails and leaves the map exactly as it was.
pub proof fn lemma_create_if_absent(
    m: Map<Seq<char>, SessionV>,
    s: UserSessionInternalV,
    s2: UserSessionInternalV,
    ttl: u64,
    ttl2: u64,
    now: u64,
    t: u64,
)
    requires
        !sess_live(m, s.session_id, now),
        now + ttl <= u64::MAX,
        t < now + ttl,
        s2.session_id == s.session_id,
    ensures
        sess_live(spec_create_map(m, s, ttl, now), s.session_id, t),
        spec_create_map(spec_create_map(m, s, ttl, now), s2, ttl2, t) == spec_create_map(
            m,
            s,
            ttl,
            now,
        ),
{
    let m1 = spec_create_map(m, s, ttl, now);
    assert(m1.contains_key(s.session_id));
}

/// A freshly created session is what a read under its key returns, up to
/// the moment its TTL elapses.
pub proof fn lemma_create_then_get(
    m: Map<Seq<char>, SessionV>,
    s: UserSessionInternalV,
    ttl: u64,
    now: u64,
    t: u64,
)
    requires
        !sess_live(m, s.session_id, now),
        now + ttl <= u64::MAX,
        t < now + ttl,
    ensures
        spec_get_session(spec_create_map(m, s, ttl, now), s.session_id, t) == Some(s),
{
}

/// Neither write touches a record under another key: writing a handshake
/// or creating a session leaves every differently-keyed record exactly as
/// it was.
pub proof fn lemma_writes_preserve_other_keys(
    m: Map<Seq<char>, HandshakeV>,
    n: Map<Seq<char>, SessionV>,
    id: Seq<char>,
    state: Seq<char>,
    device_type: Seq<char>,
    s: UserSessionInternalV,
    ttl: u64,
    now: u64,
    k: Seq<char>,
)
    requires
        k != id,
        k != s.session_id,
    ensures
        spec_put_handshake(m, id, state, device_type, ttl, now).contains_key(k)
            == m.contains_key(k),
        m.contains_key(k) ==> spec_put_handshake(m, id, state, device_type, ttl, now)[k] == m[k],
        spec_create_map(n, s, ttl, now).contains_key(k) == n.contains_key(k),
        n.contains_key(k) ==> spec_create_map(n, s, ttl, now)[k] == n[k],
{
}

/// A session read after its TTL has elapsed returns nothing — never stale
/// data.
pub proof fn lemma_no_stale_session(m: Map<Seq<char>, SessionV>, id: Seq<char>, now: u64)
    requires
        m.contains_key(id),
        m[id].expires_at <= now,
    ensures
        spec_get_session(m, id, now) is None,
{
}

} // verus!
