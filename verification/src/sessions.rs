//! Session directory: opaque tokens mapped to identity and expiry. A
//! session is valid while `now < expires_at`; an expired session is never
//! handed to a caller and is purged by the same lookup that discovered it.

use vstd::prelude::*;

use crate::models::AuthUser;
use crate::models::CreateSession;
use crate::models::Session;
use crate::models::WorkflowError;
use crate::models::clone_opt_string;

verus! {

/// True when some row carries this token.
pub open spec fn has_token(s: Seq<Session>, token: Seq<char>) -> bool {
    exists|i: int| 0 <= i < s.len() && s[i].id@ == token
}

/// True when a lookup of `token` at `now` yields an identity: a row carries
/// the token and has not expired.
pub open spec fn resolves(s: Seq<Session>, token: Seq<char>, now: i64) -> bool {
    exists|i: int| 0 <= i < s.len() && s[i].id@ == token && now < s[i].expires_at
}

/// The session directory; tokens are unique.
pub struct SessionStore {
    pub sessions: Vec<Session>,
}

impl SessionStore {
    /// Invariant of the directory.
    pub open spec fn wf(&self) -> bool {
        forall|i: int, j: int|
            0 <= i < j < self.sessions@.len() ==> self.sessions@[i].id@ != self.sessions@[j].id@
    }

    /// An empty directory.
    pub fn new() -> (s: SessionStore)
        ensures
            s.wf(),
            s.sessions@.len() == 0,
    {
        SessionStore { sessions: Vec::new() }
    }

    /// Store a session under the token in `data`. A token already present
    /// is refused and nothing changes; tokens stay unique.
    #[verifier::loop_isolation(false)]
    pub fn create(&mut self, data: CreateSession, now: i64) -> (r: Result<Session, WorkflowError>)
        requires
            old(self).wf(),
        ensures
            final(self).wf(),
            has_token(old(self).sessions@, data.id@) ==> r == Err::<Session, WorkflowError>(
                WorkflowError::Validation,
            ) && *final(self) == *old(self),
            !has_token(old(self).sessions@, data.id@) ==> {
                &&& r is Ok
                &&& final(self).sessions@.len() == old(self).sessions@.len() + 1
                &&& forall|j: int|
                    0 <= j < old(self).sessions@.len() ==> final(self).sessions@[j] == old(
                        self,
                    ).sessions@[j]
                &&& {
                    let s = final(self).sessions@[old(self).sessions@.len() as int];
                    &&& r->Ok_0 == s
                    &&& s.id == data.id
                    &&& s.user_id == data.user_id
                    &&& s.access_token == data.access_token
                    &&& s.username == data.username
                    &&& s.avatar == data.avatar
                    &&& s.expires_at == data.expires_at
                    &&& s.created_at == now
                }
            },
    {
        let n = self.sessions.len();
        let mut i: usize = 0;
        while i < n
            invariant
                i <= n,
                forall|k: int| 0 <= k < i as int ==> (#[trigger] self.sessions@[k]).id@
                    != data.id@,
            decreases n - i,
        {
            if self.sessions[i].id == data.id {
                return Err(WorkflowError::Validation);
            }
            i = i + 1;
        }
        let s = Session {
            id: data.id,
            user_id: data.user_id,
            access_token: data.access_token,
            username: data.username,
            avatar: data.avatar,
            expires_at: data.expires_at,
            created_at: now,
        };
        let out = s.duplicate();
        self.sessions.push(s);
        Ok(out)
    }

    /// Mint a session for an authenticated identity: draw a fresh opaque
    /// token and store the identity under it until `now + ttl`. Whatever
    /// token the generator returned, either the session is stored under it
    /// and handed back, or the token collided and nothing changed.
    pub fn mint_session(
        &mut self,
        user_id: String,
        username: String,
        avatar: Option<String>,
        access_token: String,
        now: i64,
        ttl: i64,
    ) -> (r: Result<Session, WorkflowError>)
        requires
            old(self).wf(),
            0 <= ttl,
            now + ttl <= i64::MAX,
        ensures
            final(self).wf(),
            r is Err ==> *final(self) == *old(self),
            r is Ok ==> {
                &&& final(self).sessions@.len() == old(self).sessions@.len() + 1
                &&& forall|j: int|
                    0 <= j < old(self).sessions@.len() ==> final(self).sessions@[j] == old(
                        self,
                    ).sessions@[j]
                &&& {
                    let s = final(self).sessions@[old(self).sessions@.len() as int];
                    &&& r->Ok_0 == s
                    &&& s.user_id == user_id
                    &&& s.username == username
                    &&& s.avatar == avatar
                    &&& s.access_token == access_token
                    &&& s.expires_at == now + ttl
                    &&& s.created_at == now
                }
            },
    {
        let token = mint_token();
        let data = CreateSession {
            id: token,
            user_id,
            access_token,
            username,
            avatar,
            expires_at: now + ttl,
        };
        self.create(data, now)
    }

    /// Resolve a token at time `now`. A hit that has expired is deleted in
    /// this same lookup and reported exactly as a token that never existed;
    /// a valid hit hands back the stored identity and changes nothing.
    #[verifier::loop_isolation(false)]
    pub fn resolve(&mut self, token: &String, now: i64) -> (r: Option<AuthUser>)
        requires
            old(self).wf(),
        ensures
            final(self).wf(),
            r is Some <==> resolves(old(self).sessions@, token@, now),
            !has_token(old(self).sessions@, token@) ==> *final(self) == *old(self),
            !has_token(final(self).sessions@, token@) || resolves(
                final(self).sessions@,
                token@,
                now,
            ),
            forall|i: int|
                0 <= i < old(self).sessions@.len() && (#[trigger] old(self).sessions@[i]).id@
                    == token@ ==> {
                    let s = old(self).sessions@[i];
                    &&& now < s.expires_at ==> *final(self) == *old(self) && r is Some && {
                        let u = r->0;
                        &&& u.id == s.user_id
                        &&& u.username == s.username
                        &&& u.avatar == s.avatar
                        &&& u.access_token == s.access_token
                    }
                    &&& s.expires_at <= now ==> r is None && final(self).sessions@ == old(
                        self,
                    ).sessions@.remove(i)
                },
    {
        let n = self.sessions.len();
        let mut i: usize = 0;
        while i < n
            invariant
                i <= n,
                *self == *old(self),
                forall|k: int| 0 <= k < i as int ==> (#[trigger] self.sessions@[k]).id@ != token@,
            decreases n - i,
        {
            if self.sessions[i].id == *token {
                if now < self.sessions[i].expires_at {
                    return Some(self.sessions[i].identity());
                }
                self.sessions.remove(i);
                proof {
                    assert forall|k: int|
                        0 <= k < self.sessions@.len() implies (#[trigger] self.sessions@[k]).id@
                        != token@ by {
                        if k < i as int {
                        } else {
                            assert(self.sessions@[k] == old(self).sessions@[k + 1]);
                        }
                    }
                }
                return None;
            }
            i = i + 1;
        }
        None
    }

    /// Drop the session of this token; a no-op when it is absent. No row
    /// with the token remains afterwards.
    #[verifier::loop_isolation(false)]
    pub fn revoke(&mut self, token: &String)
        requires
            old(self).wf(),
        ensures
            final(self).wf(),
            !has_token(final(self).sessions@, token@),
            !has_token(old(self).sessions@, token@) ==> *final(self) == *old(self),
            forall|i: int|
                0 <= i < old(self).sessions@.len() && (#[trigger] old(self).sessions@[i]).id@
                    == token@ ==> final(self).sessions@ == old(self).sessions@.remove(i),
    {
        let n = self.sessions.len();
        let mut i: usize = 0;
        while i < n
            invariant
                i <= n,
                *self == *old(self),
                forall|k: int| 0 <= k < i as int ==> (#[trigger] self.sessions@[k]).id@ != token@,
            decreases n - i,
        {
            if self.sessions[i].id == *token {
                self.sessions.remove(i);
                proof {
                    assert forall|k: int|
                        0 <= k < self.sessions@.len() implies (#[trigger] self.sessions@[k]).id@
                        != token@ by {
                        if k < i as int {
                        } else {
                            assert(self.sessions@[k] == old(self).sessions@[k + 1]);
                        }
                    }
                }
                return ;
            }
            i = i + 1;
        }
    }
}

/// A token that has expired resolves exactly as a token that never
/// existed: neither yields an identity, whatever else the directory holds.
pub proof fn lemma_expired_resolves_like_missing(s: Seq<Session>, token: Seq<char>, now: i64)
    requires
        forall|i: int|
            0 <= i < s.len() && (#[trigger] s[i]).id@ == token ==> s[i].expires_at <= now,
    ensures
        !resolves(s, token, now),
{
}

/// Relies on uuid::Uuid::new_v4, rendered in its hyphenated form: an
/// unpredictable opaque token. Nothing is assumed of its value.
#[verifier::external_body]
fn mint_token() -> (t: String) {
    uuid::Uuid::new_v4().to_string()
}

} // verus!
