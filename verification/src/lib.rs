//! An identity provider's authorization and token engine: the OAuth2
//! authorize/code/token state machine, the signed-token primitive it is
//! built on, the scope model, the refresh-session store, and the federated
//! identity bridge.

pub mod config;
pub mod discord;
pub mod hex;
pub mod id;
pub mod model;
pub mod routes;
pub mod utils;

use vstd::prelude::*;

use crate::discord::DiscordAgent;
use crate::id::{external_id_signed, parse_uuid, SessionId};
use crate::model::session::{
    find_session_valid, spec_session_seconds, NewSession, Session, SessionStore,
};
use crate::model::user::{
    bcrypt_hash_parses, bcrypt_matches, find_user_by_discord, find_user_by_id,
    find_user_by_username, User, UserStore, UserView,
};
use crate::model::WartIDError;
use crate::utils::jwt::{decode_spec, JWTView, TokenClaimsView};

verus! {

/// A rendered page body.
pub struct Ructe(pub Vec<u8>);

/// The current login session: an authenticated user.
pub struct LoginSession {
    pub user: User,
}

/// Why a request carries no usable login session.
#[derive(Clone, Copy, Debug, PartialEq, Eq, Structural)]
pub enum LoginSessionError {
    /// No session cookie.
    NoCookie,
    /// Invalid session cookie value.
    InvalidCookie,
    /// Invalid session.
    InvalidSession,
    /// Database error while loading session.
    DatabaseError,
}

impl LoginSessionError {
    /// A short description, safe to show to the caller.
    pub fn message(&self) -> (r: String)
        ensures
            r@ == self.message_spec(),
    {
        let mut s = String::new();
        match self {
            LoginSessionError::NoCookie => s.append("no session cookie"),
            LoginSessionError::InvalidCookie => s.append("invalid session cookie value"),
            LoginSessionError::InvalidSession => s.append("invalid session"),
            LoginSessionError::DatabaseError => s.append("database error while loading session"),
        }
        s
    }

    pub open spec fn message_spec(&self) -> Seq<char> {
        match self {
            LoginSessionError::NoCookie => "no session cookie"@,
            LoginSessionError::InvalidCookie => "invalid session cookie value"@,
            LoginSessionError::InvalidSession => "invalid session"@,
            LoginSessionError::DatabaseError => "database error while loading session"@,
        }
    }
}

impl LoginSession {
    /// Resolves a request's session cookie to the logged-in user: the
    /// cookie names a session, the session must still be live, and the
    /// session's user must still exist.
    pub fn resolve(
        cookie: Option<&str>,
        sessions: &SessionStore,
        users: &UserStore,
        now: i64,
    ) -> (r: Result<LoginSession, LoginSessionError>)
        ensures
            match cookie {
                None => r matches Err(LoginSessionError::NoCookie),
                Some(c) => match parse_uuid(c@) {
                    None => r matches Err(LoginSessionError::InvalidCookie),
                    Some(sid) => match find_session_valid(sessions@, sid as u128, now as int) {
                        None => r matches Err(LoginSessionError::InvalidSession),
                        Some(uid) => match find_user_by_id(users@, uid.value) {
                            None => r matches Err(LoginSessionError::DatabaseError),
                            Some(u) => r matches Ok(ls) && ls.user@ == u,
                        },
                    },
                },
            },
    {
        let cookie_value = match cookie {
            None => {
                return Err(LoginSessionError::NoCookie);
            },
            Some(c) => c,
        };
        let session_id = match SessionId::from_text(cookie_value) {
            None => {
                return Err(LoginSessionError::InvalidCookie);
            },
            Some(sid) => sid,
        };
        let user_id = match sessions.find_by_id(session_id, now) {
            Ok(Some(uid)) => uid,
            Ok(None) => {
                return Err(LoginSessionError::InvalidSession);
            },
            Err(_) => {
                return Err(LoginSessionError::DatabaseError);
            },
        };
        match users.find_by_id(user_id) {
            Some(user) => Ok(LoginSession { user }),
            None => Err(LoginSessionError::DatabaseError),
        }
    }
}

/// Exactly one session was opened, and it belongs to this user.
pub open spec fn session_opened_for(
    old_sessions: Seq<Session>,
    new_sessions: Seq<Session>,
    sid: SessionId,
    uid: u128,
    now: int,
) -> bool {
    &&& new_sessions.len() == old_sessions.len() + 1
    &&& new_sessions.drop_last() == old_sessions
    &&& new_sessions.last().id == sid
    &&& new_sessions.last().users_id.value == uid
    &&& new_sessions.last().expiration as int == now + spec_session_seconds()
}

/// What a successful bridge login leaves behind: the token carries a
/// genuine identity, the identity's local record is found (store
/// untouched) or newly created (one record appended), and the new session
/// belongs to exactly that record.
pub open spec fn bridge_login_ok(
    old_users: Seq<UserView>,
    new_users: Seq<UserView>,
    old_sessions: Seq<Session>,
    new_sessions: Seq<Session>,
    agent: JWTView,
    token: Seq<char>,
    sid: SessionId,
    now: int,
) -> bool {
    match decode_spec(agent, token, now) {
        Ok(TokenClaimsView::Identity(c)) => {
            let signed = external_id_signed(c.sub);
            match find_user_by_discord(old_users, signed) {
                Some(u) => new_users == old_users && session_opened_for(
                    old_sessions,
                    new_sessions,
                    sid,
                    u.id,
                    now,
                ),
                None => {
                    &&& new_users.len() == old_users.len() + 1
                    &&& new_users.drop_last() == old_users
                    &&& new_users.last().discord_id == Some(signed)
                    &&& new_users.last().username == c.name
                    &&& session_opened_for(
                        old_sessions,
                        new_sessions,
                        sid,
                        new_users.last().id,
                        now,
                    )
                },
            }
        },
        _ => false,
    }
}

/// Exchanges a bridge-issued login token for a first-party session: the
/// token is verified, the external identity's local record is found or
/// created, and a session is opened for exactly that record. A token that
/// does not carry a live identity assertion changes nothing and is turned
/// away as bad credentials; with a genuine token, only the datastore can
/// refuse.
pub fn login_with_discord(
    users: &mut UserStore,
    sessions: &mut SessionStore,
    agent: &DiscordAgent,
    token: &str,
    now: i64,
) -> (r: Result<SessionId, WartIDError>)
    requires
        old(users).wf(),
        old(sessions).wf(),
        now + spec_session_seconds() <= i64::MAX,
    ensures
        final(users).wf(),
        final(sessions).wf(),
        match r {
            Ok(sid) => bridge_login_ok(
                old(users)@,
                final(users)@,
                old(sessions)@,
                final(sessions)@,
                agent@,
                token@,
                sid,
                now as int,
            ),
            Err(e) => {
                &&& *final(sessions) == *old(sessions)
                &&& match decode_spec(agent@, token@, now as int) {
                    Ok(TokenClaimsView::Identity(_)) => e matches WartIDError::Database(_),
                    _ => *final(users) == *old(users) && e matches WartIDError::InvalidCredentials(
                        _,
                    ),
                }
            },
        },
{
    proof {
        reveal_strlit("");
    }
    let user = match users.attempt_login(Some(agent), "", token, now) {
        Ok(Some(user)) => user,
        Ok(None) => {
            let mut m = String::new();
            m.append("could not create a user account");
            return Err(WartIDError::InvalidCredentials(m));
        },
        Err(e) => {
            return Err(e);
        },
    };
    let ghost users_mid = users@;
    let session_id = match sessions.insert(NewSession::new(user.id, now)) {
        Ok(sid) => sid,
        Err(e) => {
            return Err(e);
        },
    };
    proof {
        assert(sessions@.drop_last() =~= old(sessions)@);
        match decode_spec(agent@, token@, now as int) {
            Ok(TokenClaimsView::Identity(c)) => {
                if find_user_by_discord(old(users)@, external_id_signed(c.sub)) is None {
                    assert(users_mid.drop_last() =~= old(users)@);
                }
            },
            _ => {},
        }
    }
    Ok(session_id)
}

/// The main login route's work: attempts the login (by password, or by a
/// bridge token in the password field when the username is empty), opens a
/// session for exactly the authenticated user, and names where to go next.
/// Bad credentials change nothing; with good ones, only the datastore can
/// refuse.
pub fn login_post(
    users: &mut UserStore,
    sessions: &mut SessionStore,
    discord_agent: Option<&DiscordAgent>,
    username: &str,
    password: &str,
    redirect_to: Option<String>,
    now: i64,
) -> (r: Result<(SessionId, String), WartIDError>)
    requires
        old(users).wf(),
        old(sessions).wf(),
        now + spec_session_seconds() <= i64::MAX,
    ensures
        final(users).wf(),
        final(sessions).wf(),
        r matches Ok(p) ==> p.1@ == (match redirect_to {
            Some(ref t) => t@,
            None => "/@me"@,
        }),
        (username@.len() == 0 && discord_agent is Some) ==> match r {
            Ok(p) => bridge_login_ok(
                old(users)@,
                final(users)@,
                old(sessions)@,
                final(sessions)@,
                discord_agent->0@,
                password@,
                p.0,
                now as int,
            ),
            Err(e) => {
                &&& *final(sessions) == *old(sessions)
                &&& match decode_spec(discord_agent->0@, password@, now as int) {
                    Ok(TokenClaimsView::Identity(_)) => e matches WartIDError::Database(_),
                    _ => *final(users) == *old(users) && e matches WartIDError::InvalidCredentials(
                        _,
                    ),
                }
            },
        },
        !(username@.len() == 0 && discord_agent is Some) ==> *final(users) == *old(users)
            && match find_user_by_username(old(users)@, username@) {
            None => *final(sessions) == *old(sessions) && r matches Err(
                WartIDError::InvalidCredentials(_),
            ),
            Some(u) => {
                &&& (r matches Ok(p) ==> (u.password matches Some(h) && bcrypt_matches(
                    password@,
                    h,
                )) && session_opened_for(
                    old(sessions)@,
                    final(sessions)@,
                    p.0,
                    u.id,
                    now as int,
                ))
                &&& (r is Err ==> *final(sessions) == *old(sessions))
                &&& (r matches Err(e) ==> (e matches WartIDError::InvalidCredentials(_) || e
                    matches WartIDError::Database(_)))
                &&& ((u.password matches Some(h) && bcrypt_hash_parses(h) && bcrypt_matches(
                    password@,
                    h,
                )) ==> !(r matches Err(WartIDError::InvalidCredentials(_))))
            },
        },
{
    let user = match users.attempt_login(discord_agent, username, password, now) {
        Ok(Some(user)) => user,
        Ok(None) => {
            let mut m = String::new();
            m.append("unknown account");
            return Err(WartIDError::InvalidCredentials(m));
        },
        Err(e) => {
            return Err(e);
        },
    };
    let ghost users_mid = users@;
    let session_id = match sessions.insert(NewSession::new(user.id, now)) {
        Ok(sid) => sid,
        Err(e) => {
            return Err(e);
        },
    };
    proof {
        assert(sessions@ == old(sessions)@.push(
            Session { id: session_id, users_id: user.id, expiration: (now + 1209600) as i64 },
        ));
        assert(sessions@.drop_last() =~= old(sessions)@);
        if username@.len() == 0 && discord_agent is Some {
            match decode_spec(discord_agent->0@, password@, now as int) {
                Ok(TokenClaimsView::Identity(c)) => {
                    if find_user_by_discord(old(users)@, external_id_signed(c.sub)) is None {
                        assert(users_mid.drop_last() =~= old(users)@);
                    }
                },
                _ => {},
            }
        }
    }
    let target = match redirect_to {
        Some(t) => t,
        None => {
            let mut t = String::new();
            t.append("/@me");
            t
        },
    };
    Ok((session_id, target))
}

} // verus!
