//! Persistent refresh sessions: an opaque bearer string maps to a scoped,
//! expiring grant, with at most one row per (user, app) pair. A new grant
//! replaces the pair's row, so the previous bearer string stops working.

use vstd::prelude::*;

use crate::id::{UserAppId, UserId};
use crate::model::scopes::{scopes_text, OAuth2Scopes};
use crate::model::{WartIDError, WartIDResult};
use crate::utils::{clone_opt_string, str_eq};

verus! {

/// How long a refresh session lives, in seconds (about six months).
pub open spec fn spec_refresh_seconds() -> int {
    15552000
}

/// One stored refresh session.
pub struct OAuth2Session {
    /// The opaque bearer string; unique across the store.
    pub token: String,
    pub users_id: UserId,
    pub user_apps_id: UserAppId,
    /// The scopes granted when the session was made, in textual form.
    pub initial_scopes: String,
    pub expiration: i64,
}

pub ghost struct OAuth2SessionView {
    pub token: Seq<char>,
    pub users_id: u128,
    pub user_apps_id: u128,
    pub initial_scopes: Seq<char>,
    pub expiration: int,
}

impl View for OAuth2Session {
    type V = OAuth2SessionView;

    open spec fn view(&self) -> OAuth2SessionView {
        OAuth2SessionView {
            token: self.token@,
            users_id: self.users_id.value,
            user_apps_id: self.user_apps_id.value,
            initial_scopes: self.initial_scopes@,
            expiration: self.expiration as int,
        }
    }
}

impl OAuth2Session {
    /// A copy of the row, field for field.
    pub fn duplicate(&self) -> (r: OAuth2Session)
        ensures
            r@ == self@,
    {
        OAuth2Session {
            token: self.token.clone(),
            users_id: self.users_id,
            user_apps_id: self.user_apps_id,
            initial_scopes: self.initial_scopes.clone(),
            expiration: self.expiration,
        }
    }
}

/// The index of the row for this (user, app) pair, or -1.
pub open spec fn pair_index(s: Seq<OAuth2SessionView>, user: u128, app: u128) -> int
    decreases s.len(),
{
    if s.len() == 0 {
        -1
    } else if s[0].users_id == user && s[0].user_apps_id == app {
        0
    } else {
        let r = pair_index(s.drop_first(), user, app);
        if r < 0 {
            -1
        } else {
            r + 1
        }
    }
}

/// What an atomic conflict-resolving write leaves behind: the pair's row
/// replaced if one exists, the row appended otherwise.
pub open spec fn upsert(s: Seq<OAuth2SessionView>, row: OAuth2SessionView) -> Seq<
    OAuth2SessionView,
> {
    let i = pair_index(s, row.users_id, row.user_apps_id);
    if i < 0 {
        s.push(row)
    } else {
        s.update(i, row)
    }
}

/// Whether any row carries this bearer string.
pub open spec fn has_token(s: Seq<OAuth2SessionView>, tok: Seq<char>) -> bool {
    exists|i: int| 0 <= i < s.len() && (#[trigger] s[i]).token == tok
}

/// The first live row with this bearer string; an expired row is absent.
pub open spec fn find_token_valid(s: Seq<OAuth2SessionView>, tok: Seq<char>, now: int) -> Option<
    OAuth2SessionView,
>
    decreases s.len(),
{
    if s.len() == 0 {
        None
    } else if s[0].token == tok && now <= s[0].expiration {
        Some(s[0])
    } else {
        find_token_valid(s.drop_first(), tok, now)
    }
}

/// Bearer strings are unique, and so are (user, app) pairs.
pub open spec fn rows_wf(s: Seq<OAuth2SessionView>) -> bool {
    forall|i: int, j: int|
        0 <= i < j < s.len() ==> (#[trigger] s[i]).token != (#[trigger] s[j]).token && !(
        s[i].users_id == s[j].users_id && s[i].user_apps_id == s[j].user_apps_id)
}

/// The store of refresh sessions.
pub struct RefreshSessionStore {
    rows: Vec<OAuth2Session>,
}

impl View for RefreshSessionStore {
    type V = Seq<OAuth2SessionView>;

    closed spec fn view(&self) -> Seq<OAuth2SessionView> {
        self.rows@.map_values(|r: OAuth2Session| r@)
    }
}

/// Where the pair's row ends up: a real index holding exactly `row`.
pub proof fn lemma_pair_index_bounds(s: Seq<OAuth2SessionView>, user: u128, app: u128)
    ensures
        -1 <= pair_index(s, user, app) < s.len(),
        pair_index(s, user, app) >= 0 ==> (s[pair_index(s, user, app)].users_id == user && s[
            pair_index(s, user, app)
        ].user_apps_id == app),
        pair_index(s, user, app) < 0 ==> forall|k: int|
            0 <= k < s.len() ==> !((#[trigger] s[k]).users_id == user && s[k].user_apps_id == app),
    decreases s.len(),
{
    if s.len() > 0 && !(s[0].users_id == user && s[0].user_apps_id == app) {
        lemma_pair_index_bounds(s.drop_first(), user, app);
        assert(forall|k: int| 1 <= k < s.len() ==> (#[trigger] s[k]) == s.drop_first()[k - 1]);
    }
}

/// The scan finds the first pair row.
pub proof fn lemma_pair_index_first(s: Seq<OAuth2SessionView>, user: u128, app: u128, i: int)
    requires
        0 <= i < s.len(),
        s[i].users_id == user && s[i].user_apps_id == app,
        forall|k: int|
            0 <= k < i ==> !((#[trigger] s[k]).users_id == user && s[k].user_apps_id == app),
    ensures
        pair_index(s, user, app) == i,
    decreases s.len(),
{
    if i > 0 {
        assert(forall|k: int| 1 <= k < s.len() ==> (#[trigger] s[k]) == s.drop_first()[k - 1]);
        assert(forall|k: int|
            0 <= k < i - 1 ==> !((#[trigger] s.drop_first()[k]).users_id == user
                && s.drop_first()[k].user_apps_id == app)) by {
            assert(forall|k: int|
                0 <= k < i - 1 ==> (#[trigger] s.drop_first()[k]) == s[k + 1]);
        }
        lemma_pair_index_first(s.drop_first(), user, app, i - 1);
    }
}

/// No live row carries an absent bearer string.
pub proof fn lemma_find_token_absent(s: Seq<OAuth2SessionView>, tok: Seq<char>, now: int)
    requires
        !has_token(s, tok),
    ensures
        find_token_valid(s, tok, now) is None,
    decreases s.len(),
{
    if s.len() > 0 {
        assert(!has_token(s.drop_first(), tok)) by {
            assert(forall|k: int|
                0 <= k < s.len() - 1 ==> (#[trigger] s.drop_first()[k]) == s[k + 1]);
        }
        lemma_find_token_absent(s.drop_first(), tok, now);
    }
}

/// Upserting twice for one (user, app) pair leaves exactly one row for the
/// pair, holding the second grant, and the first bearer string no longer
/// resolves: the second call supersedes the first.
pub proof fn lemma_upsert_idempotence(
    s: Seq<OAuth2SessionView>,
    r1: OAuth2SessionView,
    r2: OAuth2SessionView,
)
    requires
        rows_wf(s),
        r1.users_id == r2.users_id,
        r1.user_apps_id == r2.user_apps_id,
        !has_token(s, r1.token),
        !has_token(upsert(s, r1), r2.token),
    ensures
        rows_wf(upsert(upsert(s, r1), r2)),
        ({
            let t = upsert(upsert(s, r1), r2);
            let pi = pair_index(t, r2.users_id, r2.user_apps_id);
            &&& 0 <= pi < t.len()
            &&& t[pi] == r2
            &&& forall|k: int|
                0 <= k < t.len() && k != pi ==> !((#[trigger] t[k]).users_id == r2.users_id
                    && t[k].user_apps_id == r2.user_apps_id)
            &&& !has_token(t, r1.token)
            &&& forall|now: int| find_token_valid(t, r1.token, now) is None
        }),
{
    lemma_upsert_wf(s, r1);
    let s1 = upsert(s, r1);
    lemma_upsert_wf(s1, r2);
    let t = upsert(s1, r2);
    let i1 = pair_index(s, r1.users_id, r1.user_apps_id);
    lemma_pair_index_bounds(s, r1.users_id, r1.user_apps_id);
    let j = if i1 < 0 {
        s.len() as int
    } else {
        i1
    };
    assert(s1[j] == r1);
    assert(forall|k: int| 0 <= k < s1.len() && k != j ==> (#[trigger] s1[k]) == s[k]);
    assert(forall|k: int|
        0 <= k < s1.len() && k != j ==> !((#[trigger] s1[k]).users_id == r1.users_id
            && s1[k].user_apps_id == r1.user_apps_id)) by {
        if i1 >= 0 {
            assert(forall|k: int|
                0 <= k < s.len() && k != i1 ==> !((#[trigger] s[k]).users_id == r1.users_id
                    && s[k].user_apps_id == r1.user_apps_id)) by {
                lemma_pair_uniqueness(s, i1);
            }
        }
    }
    lemma_pair_index_first(s1, r2.users_id, r2.user_apps_id, j);
    assert(t == s1.update(j, r2));
    assert(t[j] == r2);
    lemma_pair_index_first(t, r2.users_id, r2.user_apps_id, j);
    assert(!has_token(t, r1.token)) by {
        assert forall|k: int| 0 <= k < t.len() implies (#[trigger] t[k]).token != r1.token by {
            if k != j {
                assert(t[k] == s[k]);
            } else {
                assert(!has_token(s1, r2.token));
                assert(s1[j].token == r1.token);
                assert(r2.token != r1.token);
            }
        }
    }
    assert forall|now: int| find_token_valid(t, r1.token, now) is None by {
        lemma_find_token_absent(t, r1.token, now);
    }
    assert forall|k: int|
        0 <= k < t.len() && k != j implies !((#[trigger] t[k]).users_id == r2.users_id
        && t[k].user_apps_id == r2.user_apps_id) by {
        assert(t[k] == s1[k]);
    }
}

/// In a well-formed store, only the indexed row carries its pair.
proof fn lemma_pair_uniqueness(s: Seq<OAuth2SessionView>, i: int)
    requires
        rows_wf(s),
        0 <= i < s.len(),
    ensures
        forall|k: int|
            0 <= k < s.len() && k != i ==> !((#[trigger] s[k]).users_id == s[i].users_id && s[k].user_apps_id
                == s[i].user_apps_id),
{
}

/// An upsert with a fresh bearer string keeps the store well formed.
pub proof fn lemma_upsert_wf(s: Seq<OAuth2SessionView>, row: OAuth2SessionView)
    requires
        rows_wf(s),
        !has_token(s, row.token),
    ensures
        rows_wf(upsert(s, row)),
        upsert(s, row).len() == if pair_index(s, row.users_id, row.user_apps_id) < 0 {
            s.len() as int + 1
        } else {
            s.len() as int
        },
{
    let i = pair_index(s, row.users_id, row.user_apps_id);
    lemma_pair_index_bounds(s, row.users_id, row.user_apps_id);
    let t = upsert(s, row);
    if i < 0 {
        assert forall|a: int, b: int| 0 <= a < b < t.len() implies (#[trigger] t[a]).token != (
        #[trigger] t[b]).token && !(t[a].users_id == t[b].users_id && t[a].user_apps_id
            == t[b].user_apps_id) by {
            if b == t.len() - 1 {
                assert(t[a] == s[a]);
                assert(t[b] == row);
            } else {
                assert(t[a] == s[a]);
                assert(t[b] == s[b]);
            }
        }
    } else {
        lemma_pair_uniqueness(s, i);
        assert forall|a: int, b: int| 0 <= a < b < t.len() implies (#[trigger] t[a]).token != (
        #[trigger] t[b]).token && !(t[a].users_id == t[b].users_id && t[a].user_apps_id
            == t[b].user_apps_id) by {
            if a != i && b != i {
                assert(t[a] == s[a]);
                assert(t[b] == s[b]);
            } else if a == i {
                assert(t[a] == row);
                assert(t[b] == s[b]);
            } else {
                assert(t[a] == s[a]);
                assert(t[b] == row);
            }
        }
    }
}

impl RefreshSessionStore {
    pub open spec fn wf(&self) -> bool {
        rows_wf(self@)
    }

    pub fn new() -> (r: RefreshSessionStore)
        ensures
            r@ =~= Seq::<OAuth2SessionView>::empty(),
            r.wf(),
    {
        let r = RefreshSessionStore { rows: Vec::new() };
        proof {
            assert(r@ =~= Seq::<OAuth2SessionView>::empty());
        }
        r
    }

    /// How many rows the store holds.
    pub fn len(&self) -> (r: usize)
        ensures
            r == self@.len(),
    {
        self.rows.len()
    }

    /// Whether any row carries this bearer string.
    fn has_token_exec(&self, tok: &str) -> (r: bool)
        ensures
            r == has_token(self@, tok@),
    {
        let mut i: usize = 0;
        while i < self.rows.len()
            invariant
                i <= self.rows.len(),
                self@.len() == self.rows@.len(),
                forall|k: int| 0 <= k < i ==> (#[trigger] self@[k]).token != tok@,
            decreases self.rows.len() - i,
        {
            proof {
                assert(self@[i as int] == self.rows@[i as int]@);
            }
            if str_eq(self.rows[i].token.as_str(), tok) {
                return true;
            }
            i = i + 1;
        }
        proof {
            assert(!has_token(self@, tok@)) by {
                if has_token(self@, tok@) {
                    let w = choose|k: int|
                        0 <= k < self@.len() && (#[trigger] self@[k]).token == tok@;
                    assert(self@[w].token != tok@);
                }
            }
        }
        false
    }

    /// Rotates the pair's grant: a fresh high-entropy bearer string, the
    /// scope snapshot and a new expiration replace whatever row the pair
    /// had, atomically; the returned string is the only way back in.
    pub fn insert_or_refresh(
        &mut self,
        user: UserId,
        app: UserAppId,
        scopes: &OAuth2Scopes,
        now: i64,
    ) -> (r: WartIDResult<String>)
        requires
            old(self).wf(),
            now + spec_refresh_seconds() <= i64::MAX,
        ensures
            final(self).wf(),
            match r {
                Ok(tok) => tok@.len() == 32 && !has_token(old(self)@, tok@) && final(self)@
                    == upsert(
                    old(self)@,
                    OAuth2SessionView {
                        token: tok@,
                        users_id: user.value,
                        user_apps_id: app.value,
                        initial_scopes: scopes_text(scopes@),
                        expiration: now + spec_refresh_seconds(),
                    },
                ),
                Err(e) => *final(self) == *old(self) && e matches WartIDError::Database(_),
            },
    {
        let l_token = crate::utils::gen_alphanumeric(32);
        if self.has_token_exec(l_token.as_str()) {
            let mut m = String::new();
            m.append("bearer string collision");
            return Err(WartIDError::Database(m));
        }
        let row = OAuth2Session {
            token: l_token.clone(),
            users_id: user,
            user_apps_id: app,
            initial_scopes: scopes.to_text(),
            expiration: now + 15552000,
        };
        let ghost rv = row@;
        let ghost s = self@;
        proof {
            lemma_upsert_wf(s, rv);
        }
        let mut i: usize = 0;
        while i < self.rows.len()
            invariant
                *self == *old(self),
                s == self@,
                s.len() == self.rows@.len(),
                i <= self.rows.len(),
                old(self).wf(),
                row@ == rv,
                rv == (OAuth2SessionView {
                    token: l_token@,
                    users_id: user.value,
                    user_apps_id: app.value,
                    initial_scopes: scopes_text(scopes@),
                    expiration: now + spec_refresh_seconds(),
                }),
                l_token@.len() == 32,
                !has_token(s, l_token@),
                forall|k: int|
                    0 <= k < i ==> !((#[trigger] s[k]).users_id == user.value && s[k].user_apps_id
                        == app.value),
            decreases self.rows.len() - i,
        {
            proof {
                assert(s[i as int] == self.rows@[i as int]@);
            }
            if self.rows[i].users_id.value == user.value && self.rows[i].user_apps_id.value
                == app.value {
                proof {
                    lemma_pair_index_first(s, user.value, app.value, i as int);
                    lemma_upsert_wf(s, rv);
                }
                let ghost prev = self.rows@;
                let ghost rowg = row;
                self.rows.set(i, row);
                proof {
                    assert(self.rows@ == prev.update(i as int, rowg));
                    assert forall|k: int| 0 <= k < self@.len() implies self@[k] == s.update(
                        i as int,
                        rv,
                    )[k] by {
                        assert(self@[k] == self.rows@.map_values(|r: OAuth2Session| r@)[k]);
                        assert(self@[k] == self.rows@[k]@);
                        if k != i as int {
                            assert(self.rows@[k] == prev[k]);
                            assert(s[k] == prev.map_values(|r: OAuth2Session| r@)[k]);
                            assert(s[k] == prev[k]@);
                        }
                    }
                    assert(self@ =~= s.update(i as int, rv));
                    assert(self@ == upsert(s, rv));
                }
                return Ok(l_token);
            }
            i = i + 1;
        }
        proof {
            lemma_pair_index_bounds(s, user.value, app.value);
            if pair_index(s, user.value, app.value) >= 0 {
                assert(false);
            }
        }
        let ghost prev = self.rows@;
        let ghost rowg = row;
        self.rows.push(row);
        proof {
            assert(self.rows@ == prev.push(rowg));
            assert forall|k: int| 0 <= k < self@.len() implies self@[k] == s.push(rv)[k] by {
                assert(self@[k] == self.rows@.map_values(|r: OAuth2Session| r@)[k]);
                assert(self@[k] == self.rows@[k]@);
                if k < prev.len() {
                    assert(self.rows@[k] == prev[k]);
                    assert(s[k] == prev.map_values(|r: OAuth2Session| r@)[k]);
                    assert(s[k] == prev[k]@);
                }
            }
            assert(self@ =~= s.push(rv));
            assert(self@ == upsert(s, rv));
        }
        Ok(l_token)
    }

    /// The live row with this bearer string; an expired row is treated as
    /// absent.
    pub fn find_by_token(&self, l_token: &str, now: i64) -> (r: WartIDResult<Option<OAuth2Session>>)
        ensures
            match r {
                Ok(Some(row)) => find_token_valid(self@, l_token@, now as int) == Some(row@),
                Ok(None) => find_token_valid(self@, l_token@, now as int) is None,
                Err(_) => false,
            },
    {
        let ghost s = self@;
        proof {
            assert(s.skip(0) =~= s);
        }
        let mut i: usize = 0;
        while i < self.rows.len()
            invariant
                i <= self.rows.len(),
                s == self@,
                s.len() == self.rows@.len(),
                find_token_valid(s, l_token@, now as int) == find_token_valid(
                    s.skip(i as int),
                    l_token@,
                    now as int,
                ),
            decreases self.rows.len() - i,
        {
            proof {
                assert(s.skip(i as int)[0] == s[i as int]);
                assert(s.skip(i as int).drop_first() =~= s.skip(i + 1));
            }
            if str_eq(self.rows[i].token.as_str(), l_token) && now <= self.rows[i].expiration {
                return Ok(Some(self.rows[i].duplicate()));
            }
            i = i + 1;
        }
        proof {
            assert(s.skip(s.len() as int) =~= Seq::<OAuth2SessionView>::empty());
        }
        Ok(None)
    }
}

} // verus!
