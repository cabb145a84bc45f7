//! Registered client applications and their managers. The token engine
//! reads an app's id, OAuth2 secret and redirect-URI prefix; the rest
//! serves the management panel.

use vstd::prelude::*;

use crate::id::{UserAppId, UserId};
use crate::model::{WartIDError, WartIDResult};
use crate::utils::clone_opt_string;

verus! {

/// A registered client application.
pub struct UserApp {
    pub id: UserAppId,
    pub name: String,
    /// OAuth2 is enabled for the app exactly when a secret is set; read
    /// it through `oauth2`.
    pub oauth_secret: Option<String>,
    pub oauth_redirect: String,
    pub description: Option<String>,
    pub hidden: bool,
}

pub ghost struct UserAppView {
    pub id: u128,
    pub name: Seq<char>,
    pub oauth_secret: Option<Seq<char>>,
    pub oauth_redirect: Seq<char>,
    pub description: Option<Seq<char>>,
    pub hidden: bool,
}

impl View for UserApp {
    type V = UserAppView;

    open spec fn view(&self) -> UserAppView {
        UserAppView {
            id: self.id.value,
            name: self.name@,
            oauth_secret: match self.oauth_secret {
                Some(ref s) => Some(s@),
                None => None,
            },
            oauth_redirect: self.oauth_redirect@,
            description: match self.description {
                Some(ref d) => Some(d@),
                None => None,
            },
            hidden: self.hidden,
        }
    }
}

/// Whether a requested redirect URI is covered by the app's configured
/// prefix: the prefix is long enough to name a scheme and host, and the
/// URI starts with it, case-sensitive.
pub open spec fn redirect_allowed(app: UserAppView, uri: Seq<char>) -> bool {
    app.oauth_redirect.len() > 12 && uri.len() >= app.oauth_redirect.len() && uri.subrange(
        0,
        app.oauth_redirect.len() as int,
    ) == app.oauth_redirect
}

impl UserApp {
    /// A copy of the record, field for field.
    pub fn duplicate(&self) -> (r: UserApp)
        ensures
            r@ == self@,
    {
        UserApp {
            id: self.id,
            name: self.name.clone(),
            oauth_secret: clone_opt_string(&self.oauth_secret),
            oauth_redirect: self.oauth_redirect.clone(),
            description: clone_opt_string(&self.description),
            hidden: self.hidden,
        }
    }

    /// The OAuth2 secret and redirect prefix, if OAuth2 is enabled.
    pub fn oauth2(&self) -> (r: Option<(String, String)>)
        ensures
            match r {
                Some((secret, redirect)) => self@.oauth_secret == Some(secret@) && redirect@
                    == self@.oauth_redirect,
                None => self@.oauth_secret is None,
            },
    {
        match &self.oauth_secret {
            Some(secret) => Some((secret.clone(), self.oauth_redirect.clone())),
            None => None,
        }
    }

    /// Whether the requested redirect URI starts with the configured
    /// prefix; a prefix too short to name a scheme and host allows nothing.
    pub fn is_oauth2_redirect_allowed(&self, uri: &str) -> (r: bool)
        ensures
            r == redirect_allowed(self@, uri@),
    {
        let plen = self.oauth_redirect.as_str().unicode_len();
        if plen <= 12 {
            return false;
        }
        let ulen = uri.unicode_len();
        if ulen < plen {
            return false;
        }
        let mut i: usize = 0;
        while i < plen
            invariant
                i <= plen,
                plen == self@.oauth_redirect.len(),
                ulen == uri@.len(),
                plen <= ulen,
                forall|k: int| 0 <= k < i ==> uri@[k] == self@.oauth_redirect[k],
            decreases plen - i,
        {
            if uri.get_char(i) != self.oauth_redirect.as_str().get_char(i) {
                proof {
                    assert(uri@.subrange(0, plen as int)[i as int] != self@.oauth_redirect[i as int]);
                }
                return false;
            }
            i = i + 1;
        }
        proof {
            assert(uri@.subrange(0, plen as int) =~= self@.oauth_redirect);
        }
        true
    }
}

/// One management link: the user may edit the app.
#[derive(Clone, Copy, Debug, PartialEq, Eq, Structural)]
pub struct AppManager {
    pub user_apps_id: UserAppId,
    pub users_id: UserId,
}

pub ghost struct AppStoreView {
    pub apps: Seq<UserAppView>,
    pub managers: Seq<AppManager>,
}

/// The first app with this id.
pub open spec fn find_app_by_id(s: Seq<UserAppView>, id: u128) -> Option<UserAppView>
    decreases s.len(),
{
    if s.len() == 0 {
        None
    } else if s[0].id == id {
        Some(s[0])
    } else {
        find_app_by_id(s.drop_first(), id)
    }
}

/// Whether this user manages this app.
pub open spec fn is_manager(managers: Seq<AppManager>, app: u128, user: u128) -> bool {
    exists|k: int|
        0 <= k < managers.len() && (#[trigger] managers[k]).user_apps_id.value == app
            && managers[k].users_id.value == user
}

/// The apps `find_all` shows this user: public ones and managed ones.
pub open spec fn filter_apps(apps: Seq<UserAppView>, managers: Seq<AppManager>, user: u128) -> Seq<
    UserAppView,
>
    decreases apps.len(),
{
    if apps.len() == 0 {
        Seq::empty()
    } else {
        let rest = filter_apps(apps.drop_last(), managers, user);
        if !apps.last().hidden || is_manager(managers, apps.last().id, user) {
            rest.push(apps.last())
        } else {
            rest
        }
    }
}

/// A found app carries the id it was found by.
pub proof fn lemma_find_app_found(s: Seq<UserAppView>, id: u128)
    requires
        find_app_by_id(s, id) is Some,
    ensures
        find_app_by_id(s, id)->0.id == id,
    decreases s.len(),
{
    if s.len() > 0 && s[0].id != id {
        lemma_find_app_found(s.drop_first(), id);
    }
}

/// App ids are unique.
pub open spec fn apps_wf(s: Seq<UserAppView>) -> bool {
    forall|i: int, j: int|
        0 <= i < j < s.len() ==> (#[trigger] s[i]).id != (#[trigger] s[j]).id
}

/// The directory of registered apps and their managers.
pub struct AppStore {
    apps: Vec<UserApp>,
    managers: Vec<AppManager>,
}

impl View for AppStore {
    type V = AppStoreView;

    closed spec fn view(&self) -> AppStoreView {
        AppStoreView {
            apps: self.apps@.map_values(|a: UserApp| a@),
            managers: self.managers@,
        }
    }
}

impl AppStore {
    pub open spec fn wf(&self) -> bool {
        apps_wf(self@.apps)
    }

    pub fn new() -> (r: AppStore)
        ensures
            r@.apps =~= Seq::<UserAppView>::empty(),
            r@.managers =~= Seq::<AppManager>::empty(),
            r.wf(),
    {
        let r = AppStore { apps: Vec::new(), managers: Vec::new() };
        proof {
            assert(r@.apps =~= Seq::<UserAppView>::empty());
        }
        r
    }

    /// The app with this id, if any.
    pub fn find_by_id(&self, l_app_id: UserAppId) -> (r: WartIDResult<Option<UserApp>>)
        ensures
            match r {
                Ok(Some(a)) => find_app_by_id(self@.apps, l_app_id.value) == Some(a@),
                Ok(None) => find_app_by_id(self@.apps, l_app_id.value) is None,
                Err(_) => false,
            },
    {
        let ghost s = self@.apps;
        proof {
            assert(s.skip(0) =~= s);
        }
        let mut i: usize = 0;
        while i < self.apps.len()
            invariant
                i <= self.apps.len(),
                s == self@.apps,
                s.len() == self.apps@.len(),
                find_app_by_id(s, l_app_id.value) == find_app_by_id(
                    s.skip(i as int),
                    l_app_id.value,
                ),
            decreases self.apps.len() - i,
        {
            proof {
                assert(s.skip(i as int)[0] == s[i as int]);
                assert(s.skip(i as int).drop_first() =~= s.skip(i + 1));
            }
            if self.apps[i].id.value == l_app_id.value {
                return Ok(Some(self.apps[i].duplicate()));
            }
            i = i + 1;
        }
        proof {
            assert(s.skip(s.len() as int) =~= Seq::<UserAppView>::empty());
        }
        Ok(None)
    }

    /// Whether this user manages this app.
    pub fn manages(&self, app: UserAppId, user: UserId) -> (r: bool)
        ensures
            r == is_manager(self@.managers, app.value, user.value),
    {
        let mut i: usize = 0;
        while i < self.managers.len()
            invariant
                i <= self.managers.len(),
                forall|k: int|
                    0 <= k < i ==> !((#[trigger] self@.managers[k]).user_apps_id.value == app.value
                        && self@.managers[k].users_id.value == user.value),
            decreases self.managers.len() - i,
        {
            if self.managers[i].user_apps_id.value == app.value && self.managers[i].users_id.value
                == user.value {
                return true;
            }
            i = i + 1;
        }
        false
    }

    /// Registers an app under a fresh random id, managed by its creator;
    /// the two writes land together or not at all.
    pub fn insert(&mut self, l_name: String, l_hidden: bool, creator: UserId) -> (r: WartIDResult<
        UserAppId,
    >)
        requires
            old(self).wf(),
        ensures
            final(self).wf(),
            match r {
                Ok(id) => final(self)@.apps == old(self)@.apps.push(
                    UserAppView {
                        id: id.value,
                        name: l_name@,
                        oauth_secret: None,
                        oauth_redirect: Seq::empty(),
                        description: None,
                        hidden: l_hidden,
                    },
                ) && final(self)@.managers == old(self)@.managers.push(
                    AppManager { user_apps_id: id, users_id: creator },
                ),
                Err(e) => *final(self) == *old(self) && e matches WartIDError::Database(_),
            },
    {
        let id = UserAppId { value: crate::utils::random_u128() };
        let mut i: usize = 0;
        while i < self.apps.len()
            invariant
                *self == *old(self),
                old(self).wf(),
                i <= self.apps.len(),
                forall|k: int| 0 <= k < i ==> (#[trigger] self@.apps[k]).id != id.value,
            decreases self.apps.len() - i,
        {
            if self.apps[i].id.value == id.value {
                let mut m = String::new();
                m.append("id collision");
                return Err(WartIDError::Database(m));
            }
            i = i + 1;
        }
        let app = UserApp {
            id,
            name: l_name,
            oauth_secret: None,
            oauth_redirect: String::new(),
            description: None,
            hidden: l_hidden,
        };
        self.apps.push(app);
        self.managers.push(AppManager { user_apps_id: id, users_id: creator });
        proof {
            assert(self@.apps =~= old(self)@.apps.push(
                UserAppView {
                    id: id.value,
                    name: l_name@,
                    oauth_secret: None,
                    oauth_redirect: Seq::empty(),
                    description: None,
                    hidden: l_hidden,
                },
            ));
            assert(self.wf()) by {
                assert(forall|k: int|
                    0 <= k < old(self)@.apps.len() ==> #[trigger] self@.apps[k] == old(
                        self,
                    )@.apps[k]);
            }
        }
        Ok(id)
    }

    /// The apps this user may see: every public one, and the hidden ones
    /// they manage.
    pub fn find_all(&self, view_as: UserId) -> (r: WartIDResult<Vec<UserApp>>)
        ensures
            match r {
                Ok(v) => v@.map_values(|a: UserApp| a@) == filter_apps(
                    self@.apps,
                    self@.managers,
                    view_as.value,
                ),
                Err(_) => false,
            },
    {
        let ghost s = self@.apps;
        let mut out: Vec<UserApp> = Vec::new();
        let mut i: usize = 0;
        while i < self.apps.len()
            invariant
                i <= self.apps.len(),
                s == self@.apps,
                s.len() == self.apps@.len(),
                out@.map_values(|a: UserApp| a@) == filter_apps(
                    s.take(i as int),
                    self@.managers,
                    view_as.value,
                ),
            decreases self.apps.len() - i,
        {
            proof {
                assert(s.take(i + 1).drop_last() =~= s.take(i as int));
                assert(s.take(i + 1).last() == s[i as int]);
            }
            if !self.apps[i].hidden || self.manages(self.apps[i].id, view_as) {
                out.push(self.apps[i].duplicate());
                proof {
                    assert(out@.map_values(|a: UserApp| a@) =~= filter_apps(
                        s.take(i + 1),
                        self@.managers,
                        view_as.value,
                    ));
                }
            }
            i = i + 1;
        }
        proof {
            assert(s.take(s.len() as int) =~= s);
        }
        Ok(out)
    }

    /// Turns OAuth2 on with a fresh 64-character secret, or off.
    pub fn set_oauth(&mut self, app: UserAppId, enable: bool) -> (r: WartIDResult<UserApp>)
        requires
            old(self).wf(),
        ensures
            final(self).wf(),
            final(self)@.managers == old(self)@.managers,
            match r {
                Ok(u) => exists|i: int|
                    0 <= i < old(self)@.apps.len() && (#[trigger] old(self)@.apps[i]).id
                        == app.value && final(self)@.apps == old(self)@.apps.update(i, u@) && u@
                        == (UserAppView { oauth_secret: u@.oauth_secret, ..old(self)@.apps[i] }) && (
                    enable ==> (u@.oauth_secret matches Some(sec) && sec.len() == 64)) && (!enable
                        ==> u@.oauth_secret is None),
                Err(_) => *final(self) == *old(self) && find_app_by_id(old(self)@.apps, app.value)
                    is None,
            },
    {
        let secret: Option<String> = if enable {
            Some(crate::utils::gen_alphanumeric(64))
        } else {
            None
        };
        let ghost s = self@.apps;
        proof {
            assert(s.skip(0) =~= s);
        }
        let mut i: usize = 0;
        while i < self.apps.len()
            invariant
                *old(self) == *self,
                s == self@.apps,
                s.len() == self.apps@.len(),
                i <= self.apps.len(),
                old(self).wf(),
                match secret {
                    Some(ref sec) => enable && sec@.len() == 64,
                    None => !enable,
                },
                find_app_by_id(s, app.value) == find_app_by_id(s.skip(i as int), app.value),
            decreases self.apps.len() - i,
        {
            proof {
                assert(s.skip(i as int)[0] == s[i as int]);
                assert(s.skip(i as int).drop_first() =~= s.skip(i + 1));
            }
            if self.apps[i].id.value == app.value {
                let old_app = self.apps[i].duplicate();
                let updated = UserApp {
                    id: old_app.id,
                    name: old_app.name,
                    oauth_secret: secret,
                    oauth_redirect: old_app.oauth_redirect,
                    description: old_app.description,
                    hidden: old_app.hidden,
                };
                let result = updated.duplicate();
                self.apps.set(i, updated);
                proof {
                    assert(self@.apps =~= s.update(i as int, result@));
                    assert(self.wf()) by {
                        assert(forall|k: int|
                            0 <= k < s.len() && k != i ==> #[trigger] self@.apps[k] == s[k]);
                        assert(self@.apps[i as int].id == s[i as int].id);
                    }
                }
                return Ok(result);
            }
            i = i + 1;
        }
        proof {
            assert(s.skip(s.len() as int) =~= Seq::<UserAppView>::empty());
        }
        let mut m = String::new();
        m.append("app not found");
        Err(WartIDError::Database(m))
    }

    /// Replaces the allowed redirect-URI prefix.
    pub fn set_oauth_redirect_uri(&mut self, app: UserAppId, uri: String) -> (r: WartIDResult<
        UserApp,
    >)
        requires
            old(self).wf(),
        ensures
            final(self).wf(),
            final(self)@.managers == old(self)@.managers,
            match r {
                Ok(u) => exists|i: int|
                    0 <= i < old(self)@.apps.len() && (#[trigger] old(self)@.apps[i]).id
                        == app.value && final(self)@.apps == old(self)@.apps.update(i, u@) && u@
                        == (UserAppView { oauth_redirect: uri@, ..old(self)@.apps[i] }),
                Err(_) => *final(self) == *old(self) && find_app_by_id(old(self)@.apps, app.value)
                    is None,
            },
    {
        let ghost s = self@.apps;
        proof {
            assert(s.skip(0) =~= s);
        }
        let mut i: usize = 0;
        while i < self.apps.len()
            invariant
                *old(self) == *self,
                s == self@.apps,
                s.len() == self.apps@.len(),
                i <= self.apps.len(),
                old(self).wf(),
                find_app_by_id(s, app.value) == find_app_by_id(s.skip(i as int), app.value),
            decreases self.apps.len() - i,
        {
            proof {
                assert(s.skip(i as int)[0] == s[i as int]);
                assert(s.skip(i as int).drop_first() =~= s.skip(i + 1));
            }
            if self.apps[i].id.value == app.value {
                let old_app = self.apps[i].duplicate();
                let updated = UserApp {
                    id: old_app.id,
                    name: old_app.name,
                    oauth_secret: old_app.oauth_secret,
                    oauth_redirect: uri,
                    description: old_app.description,
                    hidden: old_app.hidden,
                };
                let result = updated.duplicate();
                self.apps.set(i, updated);
                proof {
                    assert(self@.apps =~= s.update(i as int, result@));
                    assert(self.wf()) by {
                        assert(forall|k: int|
                            0 <= k < s.len() && k != i ==> #[trigger] self@.apps[k] == s[k]);
                        assert(self@.apps[i as int].id == s[i as int].id);
                    }
                }
                return Ok(result);
            }
            i = i + 1;
        }
        proof {
            assert(s.skip(s.len() as int) =~= Seq::<UserAppView>::empty());
        }
        let mut m = String::new();
        m.append("app not found");
        Err(WartIDError::Database(m))
    }

    /// Replaces the name and the description.
    pub fn set_name_description(&mut self, app: UserAppId, l_name: &str, l_description: &str) -> (r:
        WartIDResult<UserApp>)
        requires
            old(self).wf(),
        ensures
            final(self).wf(),
            final(self)@.managers == old(self)@.managers,
            match r {
                Ok(u) => exists|i: int|
                    0 <= i < old(self)@.apps.len() && (#[trigger] old(self)@.apps[i]).id
                        == app.value && final(self)@.apps == old(self)@.apps.update(i, u@) && u@
                        == (UserAppView {
                        name: l_name@,
                        description: Some(l_description@),
                        ..old(self)@.apps[i]
                    }),
                Err(_) => *final(self) == *old(self) && find_app_by_id(old(self)@.apps, app.value)
                    is None,
            },
    {
        let ghost s = self@.apps;
        proof {
            assert(s.skip(0) =~= s);
        }
        let mut i: usize = 0;
        while i < self.apps.len()
            invariant
                *old(self) == *self,
                s == self@.apps,
                s.len() == self.apps@.len(),
                i <= self.apps.len(),
                old(self).wf(),
                find_app_by_id(s, app.value) == find_app_by_id(s.skip(i as int), app.value),
            decreases self.apps.len() - i,
        {
            proof {
                assert(s.skip(i as int)[0] == s[i as int]);
                assert(s.skip(i as int).drop_first() =~= s.skip(i + 1));
            }
            if self.apps[i].id.value == app.value {
                let old_app = self.apps[i].duplicate();
                let updated = UserApp {
                    id: old_app.id,
                    name: l_name.to_owned(),
                    oauth_secret: old_app.oauth_secret,
                    oauth_redirect: old_app.oauth_redirect,
                    description: Some(l_description.to_owned()),
                    hidden: old_app.hidden,
                };
                let result = updated.duplicate();
                self.apps.set(i, updated);
                proof {
                    assert(self@.apps =~= s.update(i as int, result@));
                    assert(self.wf()) by {
                        assert(forall|k: int|
                            0 <= k < s.len() && k != i ==> #[trigger] self@.apps[k] == s[k]);
                        assert(self@.apps[i as int].id == s[i as int].id);
                    }
                }
                return Ok(result);
            }
            i = i + 1;
        }
        proof {
            assert(s.skip(s.len() as int) =~= Seq::<UserAppView>::empty());
        }
        let mut m = String::new();
        m.append("app not found");
        Err(WartIDError::Database(m))
    }
}

} // verus!
