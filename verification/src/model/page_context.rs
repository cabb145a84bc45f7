//! What every panel page shows beside its own content: the directory
//! lists and the flash messages gathered while handling a request.

use vstd::prelude::*;

use crate::id::{UserAppId, UserId};
use crate::model::app::{filter_apps, AppStore, UserApp};
use crate::model::user::{filter_users, User, UserStore};
use crate::model::WartIDResult;

verus! {

/// The context a panel page renders in.
pub struct PageContext {
    pub users: Vec<(UserId, String)>,
    pub apps: Vec<(UserAppId, String)>,
    pub flash_bad_request: bool,
    pub flash_messages: Vec<(String, bool)>,
}

impl PageContext {
    /// Gathers the directory lists the pages link to: non-guest users,
    /// and the apps this user may see.
    pub fn new(users: &UserStore, apps: &AppStore, user_id: UserId) -> (r: WartIDResult<
        PageContext,
    >)
        ensures
            match r {
                Ok(ctx) => {
                    let us = filter_users(users@, false);
                    let ap = filter_apps(apps@.apps, apps@.managers, user_id.value);
                    &&& ctx.users@.len() == us.len()
                    &&& forall|i: int|
                        0 <= i < us.len() ==> (#[trigger] ctx.users@[i]).0.value == us[i].id
                            && ctx.users@[i].1@ == us[i].username
                    &&& ctx.apps@.len() == ap.len()
                    &&& forall|i: int|
                        0 <= i < ap.len() ==> (#[trigger] ctx.apps@[i]).0.value == ap[i].id
                            && ctx.apps@[i].1@ == ap[i].name
                    &&& ctx.flash_bad_request == false
                    &&& ctx.flash_messages@ =~= Seq::<(String, bool)>::empty()
                },
                Err(_) => false,
            },
    {
        let user_rows = match users.find_all(false) {
            Ok(v) => v,
            Err(e) => {
                return Err(e);
            },
        };
        let app_rows = match apps.find_all(user_id) {
            Ok(v) => v,
            Err(e) => {
                return Err(e);
            },
        };
        let ghost us = filter_users(users@, false);
        let ghost ap = filter_apps(apps@.apps, apps@.managers, user_id.value);
        let mut user_list: Vec<(UserId, String)> = Vec::new();
        let mut i: usize = 0;
        while i < user_rows.len()
            invariant
                i <= user_rows.len(),
                user_rows@.map_values(|u: User| u@) == us,
                user_list@.len() == i,
                forall|k: int|
                    0 <= k < i ==> (#[trigger] user_list@[k]).0.value == us[k].id
                        && user_list@[k].1@ == us[k].username,
            decreases user_rows.len() - i,
        {
            proof {
                assert(user_rows@.map_values(|u: User| u@)[i as int] == user_rows@[i as int]@);
            }
            user_list.push((user_rows[i].id, user_rows[i].username.clone()));
            i = i + 1;
        }
        let mut app_list: Vec<(UserAppId, String)> = Vec::new();
        let mut j: usize = 0;
        while j < app_rows.len()
            invariant
                j <= app_rows.len(),
                app_rows@.map_values(|a: UserApp| a@) == ap,
                app_list@.len() == j,
                forall|k: int|
                    0 <= k < j ==> (#[trigger] app_list@[k]).0.value == ap[k].id
                        && app_list@[k].1@ == ap[k].name,
            decreases app_rows.len() - j,
        {
            proof {
                assert(app_rows@.map_values(|a: UserApp| a@)[j as int] == app_rows@[j as int]@);
            }
            app_list.push((app_rows[j].id, app_rows[j].name.clone()));
            j = j + 1;
        }
        proof {
            assert(user_rows@.map_values(|u: User| u@).len() == user_rows@.len());
            assert(app_rows@.map_values(|a: UserApp| a@).len() == app_rows@.len());
        }
        Ok(
            PageContext {
                users: user_list,
                apps: app_list,
                flash_bad_request: false,
                flash_messages: Vec::new(),
            },
        )
    }

    /// Records a message to show once; an error message also marks the
    /// whole request as bad.
    pub fn add_flash_message(&mut self, message: String, is_error: bool)
        ensures
            final(self).flash_messages@ == old(self).flash_messages@.push((message, is_error)),
            final(self).flash_bad_request == (old(self).flash_bad_request || is_error),
            final(self).users == old(self).users,
            final(self).apps == old(self).apps,
    {
        self.flash_messages.push((message, is_error));
        self.flash_bad_request = self.flash_bad_request || is_error;
    }
}

} // verus!
