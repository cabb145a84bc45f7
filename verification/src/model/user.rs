//! User identity records and the store that owns them. At most one user
//! carries a given external id, and ids are unique; the store's methods
//! keep both.

use vstd::prelude::*;

use crate::discord::{DiscordAgent, UnauthorizedError};
use crate::id::{external_id_signed, external_id_store, UserId};
use crate::model::{WartIDError, WartIDResult};
use crate::utils::jwt::{decode_spec, ClaimsView, TokenClaimsView};
use crate::utils::{clone_opt_string, str_eq};

verus! {

/// An identity record.
pub struct User {
    pub id: UserId,
    pub username: String,
    /// Password hash; present only for locally-authenticated users.
    pub password: Option<String>,
    pub email: Option<String>,
    /// Linked external account id, in its stored signed form.
    pub discord_id: Option<i64>,
}

pub ghost struct UserView {
    pub id: u128,
    pub username: Seq<char>,
    pub password: Option<Seq<char>>,
    pub email: Option<Seq<char>>,
    pub discord_id: Option<int>,
}

impl View for User {
    type V = UserView;

    open spec fn view(&self) -> UserView {
        UserView {
            id: self.id.value,
            username: self.username@,
            password: match self.password {
                Some(p) => Some(p@),
                None => None,
            },
            email: match self.email {
                Some(e) => Some(e@),
                None => None,
            },
            discord_id: match self.discord_id {
                Some(d) => Some(d as int),
                None => None,
            },
        }
    }
}

impl User {
    /// A copy of the record, field for field.
    pub fn duplicate(&self) -> (r: User)
        ensures
            r@ == self@,
    {
        User {
            id: self.id,
            username: self.username.clone(),
            password: clone_opt_string(&self.password),
            email: clone_opt_string(&self.email),
            discord_id: self.discord_id,
        }
    }
}

/// Whether `password` matches the bcrypt `hash`: a function of the two
/// alone, recomputed on every call.
pub uninterp spec fn bcrypt_matches(password: Seq<char>, hash: Seq<char>) -> bool;

/// Whether `bcrypt::verify` can run on this hash at all: it parses the
/// version tag, cost and salt out of the hash before it recomputes, so
/// success or failure of the parse is a function of the hash alone.
pub uninterp spec fn bcrypt_hash_parses(hash: Seq<char>) -> bool;

/// Relies on `bcrypt::verify`: the hash alone decides whether it can run
/// (its tag, cost and salt are parsed out of it), and the boolean outcome
/// then depends on password and hash alone; a malformed hash is `None`.
#[verifier::external_body]
fn bcrypt_verify(password: &str, hash: &str) -> (r: Option<bool>)
    ensures
        r is Some <==> bcrypt_hash_parses(hash@),
        r matches Some(b) ==> b == bcrypt_matches(password@, hash@),
{
    match bcrypt::verify(password, hash) {
        Ok(b) => Some(b),
        Err(_) => None,
    }
}

/// Relies on `bcrypt::hash` with the default cost: the salt is random, so
/// nothing is a function of the inputs; what holds of every outcome is
/// that the produced hash parses back (it is the crate's own canonical
/// form) and verifies against the password.
#[verifier::external_body]
fn bcrypt_hash(password: &str) -> (r: Option<String>)
    ensures
        r matches Some(h) ==> bcrypt_matches(password@, h@) && bcrypt_hash_parses(h@),
{
    bcrypt::hash(password, bcrypt::DEFAULT_COST).ok()
}

/// The first record with this id, scanning from the front.
pub open spec fn find_user_by_id(s: Seq<UserView>, id: u128) -> Option<UserView>
    decreases s.len(),
{
    if s.len() == 0 {
        None
    } else if s[0].id == id {
        Some(s[0])
    } else {
        find_user_by_id(s.drop_first(), id)
    }
}

/// The first record with this stored external id.
pub open spec fn find_user_by_discord(s: Seq<UserView>, d: int) -> Option<UserView>
    decreases s.len(),
{
    if s.len() == 0 {
        None
    } else if s[0].discord_id == Some(d) {
        Some(s[0])
    } else {
        find_user_by_discord(s.drop_first(), d)
    }
}

/// The first record with this username.
pub open spec fn find_user_by_username(s: Seq<UserView>, name: Seq<char>) -> Option<UserView>
    decreases s.len(),
{
    if s.len() == 0 {
        None
    } else if s[0].username == name {
        Some(s[0])
    } else {
        find_user_by_username(s.drop_first(), name)
    }
}

/// Ids are unique, and at most one user carries a given external id.
pub open spec fn users_wf(s: Seq<UserView>) -> bool {
    forall|i: int, j: int|
        0 <= i < j < s.len() ==> (#[trigger] s[i]).id != (#[trigger] s[j]).id && !(s[i].discord_id
            is Some && s[i].discord_id == s[j].discord_id)
}

/// The store of user records.
pub struct UserStore {
    users: Vec<User>,
}

impl View for UserStore {
    type V = Seq<UserView>;

    closed spec fn view(&self) -> Seq<UserView> {
        self.users@.map_values(|u: User| u@)
    }
}

impl UserStore {
    pub open spec fn wf(&self) -> bool {
        users_wf(self@)
    }

    pub fn new() -> (r: UserStore)
        ensures
            r@ =~= Seq::<UserView>::empty(),
            r.wf(),
    {
        let r = UserStore { users: Vec::new() };
        proof {
            assert(r@ =~= Seq::<UserView>::empty());
        }
        r
    }

    /// How many records the store holds.
    pub fn len(&self) -> (r: usize)
        ensures
            r == self@.len(),
    {
        self.users.len()
    }

    /// The record with this id, if any.
    pub fn find_by_id(&self, id: UserId) -> (r: Option<User>)
        ensures
            match r {
                Some(u) => find_user_by_id(self@, id.value) == Some(u@),
                None => find_user_by_id(self@, id.value) is None,
            },
    {
        let ghost s = self@;
        proof {
            assert(s.skip(0) =~= s);
        }
        let mut i: usize = 0;
        while i < self.users.len()
            invariant
                i <= self.users.len(),
                s == self@,
                s.len() == self.users@.len(),
                find_user_by_id(s, id.value) == find_user_by_id(s.skip(i as int), id.value),
            decreases self.users.len() - i,
        {
            proof {
                assert(s.skip(i as int)[0] == s[i as int]);
                assert(s.skip(i as int).drop_first() =~= s.skip(i + 1));
            }
            if self.users[i].id.value == id.value {
                return Some(self.users[i].duplicate());
            }
            i = i + 1;
        }
        proof {
            assert(s.skip(s.len() as int) =~= Seq::<UserView>::empty());
        }
        None
    }

    /// The record with this stored external id, if any.
    fn find_by_discord(&self, d: i64) -> (r: Option<User>)
        ensures
            match r {
                Some(u) => find_user_by_discord(self@, d as int) == Some(u@),
                None => find_user_by_discord(self@, d as int) is None,
            },
    {
        let ghost s = self@;
        proof {
            assert(s.skip(0) =~= s);
        }
        let mut i: usize = 0;
        while i < self.users.len()
            invariant
                i <= self.users.len(),
                s == self@,
                s.len() == self.users@.len(),
                find_user_by_discord(s, d as int) == find_user_by_discord(
                    s.skip(i as int),
                    d as int,
                ),
            decreases self.users.len() - i,
        {
            proof {
                assert(s.skip(i as int)[0] == s[i as int]);
                assert(s.skip(i as int).drop_first() =~= s.skip(i + 1));
            }
            let hit = match self.users[i].discord_id {
                Some(x) => x == d,
                None => false,
            };
            if hit {
                return Some(self.users[i].duplicate());
            }
            i = i + 1;
        }
        proof {
            assert(s.skip(s.len() as int) =~= Seq::<UserView>::empty());
        }
        None
    }

    /// The record with this username, if any.
    fn find_by_username(&self, name: &str) -> (r: Option<User>)
        ensures
            match r {
                Some(u) => find_user_by_username(self@, name@) == Some(u@),
                None => find_user_by_username(self@, name@) is None,
            },
    {
        let ghost s = self@;
        proof {
            assert(s.skip(0) =~= s);
        }
        let mut i: usize = 0;
        while i < self.users.len()
            invariant
                i <= self.users.len(),
                s == self@,
                s.len() == self.users@.len(),
                find_user_by_username(s, name@) == find_user_by_username(s.skip(i as int), name@),
            decreases self.users.len() - i,
        {
            proof {
                assert(s.skip(i as int)[0] == s[i as int]);
                assert(s.skip(i as int).drop_first() =~= s.skip(i + 1));
            }
            if str_eq(self.users[i].username.as_str(), name) {
                return Some(self.users[i].duplicate());
            }
            i = i + 1;
        }
        proof {
            assert(s.skip(s.len() as int) =~= Seq::<UserView>::empty());
        }
        None
    }

    /// Every record; with `include_guests` false, only those with a linked
    /// external id.
    pub fn find_all(&self, include_guests: bool) -> (r: WartIDResult<Vec<User>>)
        ensures
            match r {
                Ok(v) => v@.map_values(|u: User| u@) == filter_users(self@, include_guests),
                Err(_) => false,
            },
    {
        let ghost s = self@;
        let mut out: Vec<User> = Vec::new();
        let mut i: usize = 0;
        while i < self.users.len()
            invariant
                i <= self.users.len(),
                s == self@,
                s.len() == self.users@.len(),
                out@.map_values(|u: User| u@) == filter_users(s.take(i as int), include_guests),
            decreases self.users.len() - i,
        {
            proof {
                assert(s.take(i + 1).drop_last() =~= s.take(i as int));
                assert(s.take(i + 1).last() == s[i as int]);
            }
            if include_guests || self.users[i].discord_id.is_some() {
                out.push(self.users[i].duplicate());
                proof {
                    assert(out@.map_values(|u: User| u@) =~= filter_users(
                        s.take(i + 1),
                        include_guests,
                    ));
                }
            }
            i = i + 1;
        }
        proof {
            assert(s.take(s.len() as int) =~= s);
        }
        Ok(out)
    }

    /// Adds a record under a fresh random id; fails only if the store
    /// cannot accept it without breaking its invariants.
    fn insert(
        &mut self,
        username: String,
        password: Option<String>,
        email: Option<String>,
        discord_id: Option<i64>,
    ) -> (r: WartIDResult<User>)
        requires
            old(self).wf(),
        ensures
            final(self).wf(),
            match r {
                Ok(u) => final(self)@ == old(self)@.push(u@) && u@.username == username@
                    && u@.discord_id == (match discord_id {
                    Some(d) => Some(d as int),
                    None => None::<int>,
                }) && u@.email == (match email {
                    Some(ref e) => Some(e@),
                    None => None::<Seq<char>>,
                }) && u@.password == (match password {
                    Some(ref p) => Some(p@),
                    None => None::<Seq<char>>,
                }),
                Err(e) => *final(self) == *old(self) && e matches WartIDError::Database(_),
            },
    {
        let id = UserId { value: crate::utils::random_u128() };
        if self.find_by_id(id).is_some() {
            let mut m = String::new();
            m.append("id collision");
            return Err(WartIDError::Database(m));
        }
        if let Some(d) = discord_id {
            if self.find_by_discord(d).is_some() {
                let mut m = String::new();
                m.append("external id already linked");
                return Err(WartIDError::Database(m));
            }
        }
        let user = User { id, username, password, email, discord_id };
        let result = user.duplicate();
        proof {
            lemma_find_id_none_means_absent(self@, id.value);
            if user.discord_id is Some {
                lemma_find_discord_none_means_absent(self@, user.discord_id->0 as int);
            }
        }
        self.users.push(user);
        proof {
            assert(self@ =~= old(self)@.push(result@));
            assert(self.wf()) by {
                assert(forall|i: int|
                    0 <= i < old(self)@.len() ==> #[trigger] self@[i] == old(self)@[i]);
            }
        }
        Ok(result)
    }

    /// Looks the external identity up, or creates its local record: the
    /// one place bridge output touches the store, and replaying the same
    /// external id never creates a duplicate user.
    pub fn find_or_create_by_discord_id(&mut self, l_discord_id: u64, l_discord_name: String) -> (r:
        WartIDResult<User>)
        requires
            old(self).wf(),
        ensures
            final(self).wf(),
            match find_user_by_discord(old(self)@, external_id_signed(l_discord_id)) {
                Some(u) => *final(self) == *old(self) && (r matches Ok(ru) && ru@ == u),
                None => match r {
                    Ok(ru) => final(self)@ == old(self)@.push(ru@) && ru@.discord_id == Some(
                        external_id_signed(l_discord_id),
                    ) && ru@.username == l_discord_name@ && ru@.password is None
                        && ru@.email is None,
                    Err(e) => *final(self) == *old(self) && e matches WartIDError::Database(_),
                },
            },
    {
        let stored = external_id_store(l_discord_id);
        match self.find_by_discord(stored) {
            Some(u) => Ok(u),
            None => self.insert(l_discord_name, None, None, Some(stored)),
        }
    }

    /// Attempts a login: with an agent and an empty username, the password
    /// field carries a bridge token; otherwise the password is checked
    /// against the stored hash.
    pub fn attempt_login(
        &mut self,
        discord_agent: Option<&DiscordAgent>,
        l_username: &str,
        l_password: &str,
        now: i64,
    ) -> (r: WartIDResult<Option<User>>)
        requires
            old(self).wf(),
        ensures
            final(self).wf(),
            !(l_username@.len() == 0 && discord_agent is Some) ==> *final(self) == *old(self)
                && match find_user_by_username(old(self)@, l_username@) {
                None => r matches Ok(None),
                Some(u) => {
                    &&& match r {
                        Ok(Some(ru)) => ru@ == u && (u.password matches Some(h) && bcrypt_matches(
                            l_password@,
                            h,
                        )),
                        Ok(None) => false,
                        Err(e) => e matches WartIDError::InvalidCredentials(_),
                    }
                    &&& ((u.password matches Some(h) && bcrypt_hash_parses(h) && bcrypt_matches(
                        l_password@,
                        h,
                    )) ==> r is Ok)
                },
            },
            (l_username@.len() == 0 && discord_agent is Some) ==> match decode_spec(
                discord_agent->0@,
                l_password@,
                now as int,
            ) {
                Ok(TokenClaimsView::Identity(c)) => match find_user_by_discord(
                    old(self)@,
                    external_id_signed(c.sub),
                ) {
                    Some(u) => *final(self) == *old(self) && (r matches Ok(Some(ru)) && ru@ == u),
                    None => match r {
                        Ok(Some(ru)) => final(self)@ == old(self)@.push(ru@) && ru@.discord_id
                            == Some(external_id_signed(c.sub)) && ru@.username == c.name
                            && ru@.password is None && ru@.email is None,
                        Ok(None) => false,
                        Err(e) => *final(self) == *old(self) && e matches WartIDError::Database(_),
                    },
                },
                _ => *final(self) == *old(self) && r matches Err(
                    WartIDError::InvalidCredentials(_),
                ),
            },
    {
        if l_username.unicode_len() == 0 {
            if let Some(agent) = discord_agent {
                let claims = match agent.try_authorize(l_password, now) {
                    Ok(c) => c,
                    Err(err) => {
                        return Err(WartIDError::InvalidCredentials(err.message()));
                    },
                };
                let sub = claims.sub;
                proof {
                    if find_user_by_discord(self@, external_id_signed(sub)) is Some {
                        lemma_find_discord_found(self@, external_id_signed(sub));
                    }
                }
                let ghost cv = claims@;
                return match self.find_or_create_by_discord_id(sub, claims.name) {
                    Ok(u) => Ok(Some(u)),
                    Err(e) => Err(e),
                };
            }
        }
        match self.find_by_username(l_username) {
            Some(user) => {
                let ok = match &user.password {
                    Some(db_password) => match bcrypt_verify(l_password, db_password.as_str()) {
                        Some(b) => b,
                        None => false,
                    },
                    None => false,
                };
                if ok {
                    Ok(Some(user))
                } else {
                    let mut m = String::new();
                    m.append("invalid password");
                    Err(WartIDError::InvalidCredentials(m))
                }
            },
            None => Ok(None),
        }
    }

    /// Replaces the username of the record with this id.
    pub fn update_username(&mut self, user_id: UserId, new_username: &str) -> (r: WartIDResult<
        User,
    >)
        requires
            old(self).wf(),
        ensures
            final(self).wf(),
            match r {
                Ok(u) => exists|i: int|
                    0 <= i < old(self)@.len() && old(self)@[i].id == user_id.value && u@ == (
                    UserView { username: new_username@, ..old(self)@[i] }) && final(self)@ == old(
                        self,
                    )@.update(i, u@),
                Err(_) => *final(self) == *old(self) && find_user_by_id(old(self)@, user_id.value)
                    is None,
            },
    {
        let ghost s = self@;
        proof {
            assert(s.skip(0) =~= s);
        }
        let mut i: usize = 0;
        while i < self.users.len()
            invariant
                *old(self) == *self,
                s == self@,
                s.len() == self.users@.len(),
                i <= self.users.len(),
                old(self).wf(),
                find_user_by_id(s, user_id.value) == find_user_by_id(
                    s.skip(i as int),
                    user_id.value,
                ),
                forall|k: int| 0 <= k < i ==> (#[trigger] s[k]).id != user_id.value,
            decreases self.users.len() - i,
        {
            proof {
                assert(s.skip(i as int)[0] == s[i as int]);
                assert(s.skip(i as int).drop_first() =~= s.skip(i + 1));
            }
            if self.users[i].id.value == user_id.value {
                let old_user = self.users[i].duplicate();
                let updated = User {
                    id: old_user.id,
                    username: new_username.to_owned(),
                    password: old_user.password,
                    email: old_user.email,
                    discord_id: old_user.discord_id,
                };
                let result = updated.duplicate();
                self.users.set(i, updated);
                proof {
                    assert(self@ =~= s.update(i as int, result@));
                    assert(self.wf()) by {
                        assert(forall|k: int|
                            0 <= k < s.len() && k != i ==> #[trigger] self@[k] == s[k]);
                        assert(self@[i as int].id == s[i as int].id);
                        assert(self@[i as int].discord_id == s[i as int].discord_id);
                    }
                }
                return Ok(result);
            }
            i = i + 1;
        }
        proof {
            assert(s.skip(s.len() as int) =~= Seq::<UserView>::empty());
        }
        let mut m = String::new();
        m.append("user not found");
        Err(WartIDError::Database(m))
    }

    /// Replaces the email of the record with this id.
    pub fn update_email(&mut self, user_id: UserId, new_email: &str) -> (r: WartIDResult<User>)
        requires
            old(self).wf(),
        ensures
            final(self).wf(),
            match r {
                Ok(u) => exists|i: int|
                    0 <= i < old(self)@.len() && old(self)@[i].id == user_id.value && u@ == (
                    UserView { email: Some(new_email@), ..old(self)@[i] }) && final(self)@ == old(
                        self,
                    )@.update(i, u@),
                Err(_) => *final(self) == *old(self) && find_user_by_id(old(self)@, user_id.value)
                    is None,
            },
    {
        let ghost s = self@;
        proof {
            assert(s.skip(0) =~= s);
        }
        let mut i: usize = 0;
        while i < self.users.len()
            invariant
                *old(self) == *self,
                s == self@,
                s.len() == self.users@.len(),
                i <= self.users.len(),
                old(self).wf(),
                find_user_by_id(s, user_id.value) == find_user_by_id(
                    s.skip(i as int),
                    user_id.value,
                ),
            decreases self.users.len() - i,
        {
            proof {
                assert(s.skip(i as int)[0] == s[i as int]);
                assert(s.skip(i as int).drop_first() =~= s.skip(i + 1));
            }
            if self.users[i].id.value == user_id.value {
                let old_user = self.users[i].duplicate();
                let updated = User {
                    id: old_user.id,
                    username: old_user.username,
                    password: old_user.password,
                    email: Some(new_email.to_owned()),
                    discord_id: old_user.discord_id,
                };
                let result = updated.duplicate();
                self.users.set(i, updated);
                proof {
                    assert(self@ =~= s.update(i as int, result@));
                    assert(self.wf()) by {
                        assert(forall|k: int|
                            0 <= k < s.len() && k != i ==> #[trigger] self@[k] == s[k]);
                        assert(self@[i as int].id == s[i as int].id);
                        assert(self@[i as int].discord_id == s[i as int].discord_id);
                    }
                }
                return Ok(result);
            }
            i = i + 1;
        }
        proof {
            assert(s.skip(s.len() as int) =~= Seq::<UserView>::empty());
        }
        let mut m = String::new();
        m.append("user not found");
        Err(WartIDError::Database(m))
    }

    /// Replaces the password of the record with this id: empty clears it,
    /// anything else is stored as a hash that verifies against it.
    pub fn update_password(&mut self, user_id: UserId, new_password: &str) -> (r: WartIDResult<
        User,
    >)
        requires
            old(self).wf(),
        ensures
            final(self).wf(),
            match r {
                Ok(u) => exists|i: int|
                    0 <= i < old(self)@.len() && old(self)@[i].id == user_id.value && final(self)@
                        == old(self)@.update(i, u@) && u@ == (UserView {
                        password: u@.password,
                        ..old(self)@[i]
                    }) && (new_password@.len() == 0 ==> u@.password is None) && (new_password@.len()
                        != 0 ==> (u@.password matches Some(h) && bcrypt_matches(new_password@, h)
                        && bcrypt_hash_parses(h))),
                Err(_) => *final(self) == *old(self) && (find_user_by_id(old(self)@, user_id.value)
                    is None || new_password@.len() != 0),
            },
            new_password@.len() == 0 && find_user_by_id(old(self)@, user_id.value) is Some ==> r
                is Ok,
    {
        let hashed: Option<String> = if new_password.unicode_len() == 0 {
            None
        } else {
            match bcrypt_hash(new_password) {
                Some(h) => Some(h),
                None => {
                    let mut m = String::new();
                    m.append("password hashing failed");
                    return Err(WartIDError::Database(m));
                },
            }
        };
        let ghost s = self@;
        proof {
            assert(s.skip(0) =~= s);
        }
        let mut i: usize = 0;
        while i < self.users.len()
            invariant
                *old(self) == *self,
                s == self@,
                s.len() == self.users@.len(),
                i <= self.users.len(),
                old(self).wf(),
                match hashed {
                    Some(ref h) => new_password@.len() != 0 && bcrypt_matches(new_password@, h@)
                        && bcrypt_hash_parses(h@),
                    None => new_password@.len() == 0,
                },
                find_user_by_id(s, user_id.value) == find_user_by_id(s.skip(i as int), user_id.value),
            decreases self.users.len() - i,
        {
            proof {
                assert(s.skip(i as int)[0] == s[i as int]);
                assert(s.skip(i as int).drop_first() =~= s.skip(i + 1));
            }
            if self.users[i].id.value == user_id.value {
                let old_user = self.users[i].duplicate();
                let updated = User {
                    id: old_user.id,
                    username: old_user.username,
                    password: hashed,
                    email: old_user.email,
                    discord_id: old_user.discord_id,
                };
                let result = updated.duplicate();
                self.users.set(i, updated);
                proof {
                    assert(self@ =~= s.update(i as int, result@));
                    assert(self.wf()) by {
                        assert(forall|k: int|
                            0 <= k < s.len() && k != i ==> #[trigger] self@[k] == s[k]);
                        assert(self@[i as int].id == s[i as int].id);
                        assert(self@[i as int].discord_id == s[i as int].discord_id);
                    }
                }
                return Ok(result);
            }
            i = i + 1;
        }
        proof {
            assert(s.skip(s.len() as int) =~= Seq::<UserView>::empty());
        }
        let mut m = String::new();
        m.append("user not found");
        Err(WartIDError::Database(m))
    }
}

/// The records kept by `find_all`.
pub open spec fn filter_users(s: Seq<UserView>, include_guests: bool) -> Seq<UserView>
    decreases s.len(),
{
    if s.len() == 0 {
        Seq::empty()
    } else {
        let rest = filter_users(s.drop_last(), include_guests);
        if include_guests || s.last().discord_id is Some {
            rest.push(s.last())
        } else {
            rest
        }
    }
}

/// A front-scan returning `None` means no record has the id.
proof fn lemma_find_id_none_means_absent(s: Seq<UserView>, id: u128)
    requires
        find_user_by_id(s, id) is None,
    ensures
        forall|i: int| 0 <= i < s.len() ==> (#[trigger] s[i]).id != id,
    decreases s.len(),
{
    if s.len() > 0 {
        lemma_find_id_none_means_absent(s.drop_first(), id);
        assert(forall|i: int|
            1 <= i < s.len() ==> (#[trigger] s[i]) == s.drop_first()[i - 1]);
    }
}

/// A found record carries the external id it was found by.
proof fn lemma_find_discord_found(s: Seq<UserView>, d: int)
    requires
        find_user_by_discord(s, d) is Some,
    ensures
        find_user_by_discord(s, d)->0.discord_id == Some(d),
    decreases s.len(),
{
    if s.len() > 0 && s[0].discord_id != Some(d) {
        lemma_find_discord_found(s.drop_first(), d);
    }
}

/// A front-scan returning `None` means no record has the external id.
proof fn lemma_find_discord_none_means_absent(s: Seq<UserView>, d: int)
    requires
        find_user_by_discord(s, d) is None,
    ensures
        forall|i: int| 0 <= i < s.len() ==> (#[trigger] s[i]).discord_id != Some(d),
    decreases s.len(),
{
    if s.len() > 0 {
        lemma_find_discord_none_means_absent(s.drop_first(), d);
        assert(forall|i: int|
            1 <= i < s.len() ==> (#[trigger] s[i]) == s.drop_first()[i - 1]);
    }
}

} // verus!
