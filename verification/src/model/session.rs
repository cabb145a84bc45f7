//! First-party login sessions: a cookie-borne id mapping to a user until
//! an expiration instant.

use vstd::prelude::*;

use crate::id::{SessionId, UserId};
use crate::model::{WartIDError, WartIDResult};

verus! {

/// How long a login session lives, in seconds (fourteen days).
pub open spec fn spec_session_seconds() -> int {
    1209600
}

/// A stored login session.
#[derive(Clone, Copy, Debug, PartialEq, Eq, Structural)]
pub struct Session {
    pub id: SessionId,
    pub users_id: UserId,
    pub expiration: i64,
}

/// A session about to be stored; the store picks its id.
#[derive(Clone, Copy, Debug, PartialEq, Eq, Structural)]
pub struct NewSession {
    pub users_id: UserId,
    pub expiration: i64,
}

impl NewSession {
    /// A session for this user, expiring fourteen days from `now`.
    pub fn new(user_id: UserId, now: i64) -> (r: NewSession)
        requires
            now + spec_session_seconds() <= i64::MAX,
        ensures
            r.users_id == user_id,
            r.expiration == now + spec_session_seconds(),
    {
        NewSession { users_id: user_id, expiration: now + 1209600 }
    }
}

/// The user of the first live session with this id.
pub open spec fn find_session_valid(s: Seq<Session>, id: u128, now: int) -> Option<UserId>
    decreases s.len(),
{
    if s.len() == 0 {
        None
    } else if s[0].id.value == id && now <= s[0].expiration {
        Some(s[0].users_id)
    } else {
        find_session_valid(s.drop_first(), id, now)
    }
}

/// Session ids are unique.
pub open spec fn sessions_wf(s: Seq<Session>) -> bool {
    forall|i: int, j: int|
        0 <= i < j < s.len() ==> (#[trigger] s[i]).id.value != (#[trigger] s[j]).id.value
}

/// The store of login sessions.
pub struct SessionStore {
    sessions: Vec<Session>,
}

impl View for SessionStore {
    type V = Seq<Session>;

    closed spec fn view(&self) -> Seq<Session> {
        self.sessions@
    }
}

impl SessionStore {
    pub open spec fn wf(&self) -> bool {
        sessions_wf(self@)
    }

    pub fn new() -> (r: SessionStore)
        ensures
            r@ =~= Seq::<Session>::empty(),
            r.wf(),
    {
        SessionStore { sessions: Vec::new() }
    }

    /// Stores the session under a fresh random id and hands the id back.
    pub fn insert(&mut self, new: NewSession) -> (r: WartIDResult<SessionId>)
        requires
            old(self).wf(),
        ensures
            final(self).wf(),
            match r {
                Ok(id) => final(self)@ == old(self)@.push(
                    Session { id: id, users_id: new.users_id, expiration: new.expiration },
                ),
                Err(e) => *final(self) == *old(self) && e matches WartIDError::Database(_),
            },
    {
        let id = SessionId { value: crate::utils::random_u128() };
        let mut i: usize = 0;
        while i < self.sessions.len()
            invariant
                *self == *old(self),
                old(self).wf(),
                i <= self.sessions.len(),
                forall|k: int| 0 <= k < i ==> (#[trigger] self@[k]).id.value != id.value,
            decreases self.sessions.len() - i,
        {
            if self.sessions[i].id.value == id.value {
                let mut m = String::new();
                m.append("id collision");
                return Err(WartIDError::Database(m));
            }
            i = i + 1;
        }
        let session = Session { id, users_id: new.users_id, expiration: new.expiration };
        self.sessions.push(session);
        proof {
            assert(self.wf()) by {
                assert(forall|k: int|
                    0 <= k < old(self)@.len() ==> #[trigger] self@[k] == old(self)@[k]);
            }
        }
        Ok(id)
    }

    /// The user of the session with this id, if it is still live.
    pub fn find_by_id(&self, l_id: SessionId, now: i64) -> (r: WartIDResult<Option<UserId>>)
        ensures
            match r {
                Ok(u) => u == find_session_valid(self@, l_id.value, now as int),
                Err(_) => false,
            },
    {
        let ghost s = self@;
        proof {
            assert(s.skip(0) =~= s);
        }
        let mut i: usize = 0;
        while i < self.sessions.len()
            invariant
                i <= self.sessions.len(),
                s == self@,
                s.len() == self.sessions@.len(),
                find_session_valid(s, l_id.value, now as int) == find_session_valid(
                    s.skip(i as int),
                    l_id.value,
                    now as int,
                ),
            decreases self.sessions.len() - i,
        {
            proof {
                assert(s.skip(i as int)[0] == s[i as int]);
                assert(s.skip(i as int).drop_first() =~= s.skip(i + 1));
            }
            if self.sessions[i].id.value == l_id.value && now <= self.sessions[i].expiration {
                return Ok(Some(self.sessions[i].users_id));
            }
            i = i + 1;
        }
        proof {
            assert(s.skip(s.len() as int) =~= Seq::<Session>::empty());
        }
        Ok(None)
    }
}

} // verus!
