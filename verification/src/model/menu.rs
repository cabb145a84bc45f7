//! The navigation lists shared by panel pages.

use vstd::prelude::*;

use crate::id::{UserAppId, UserId};
use crate::model::app::{filter_apps, AppStore};
use crate::model::page_context::PageContext;
use crate::model::user::{filter_users, UserStore};
use crate::model::WartIDResult;

verus! {

/// The users and apps the side menu links to.
pub struct Menu {
    pub users: Vec<(UserId, String)>,
    pub apps: Vec<(UserAppId, String)>,
}

impl Menu {
    /// Gathers the same lists a page context holds.
    pub fn build(users: &UserStore, apps: &AppStore, user_id: UserId) -> (r: WartIDResult<Menu>)
        ensures
            match r {
                Ok(m) => {
                    let us = filter_users(users@, false);
                    let ap = filter_apps(apps@.apps, apps@.managers, user_id.value);
                    &&& m.users@.len() == us.len()
                    &&& forall|i: int|
                        0 <= i < us.len() ==> (#[trigger] m.users@[i]).0.value == us[i].id
                            && m.users@[i].1@ == us[i].username
                    &&& m.apps@.len() == ap.len()
                    &&& forall|i: int|
                        0 <= i < ap.len() ==> (#[trigger] m.apps@[i]).0.value == ap[i].id
                            && m.apps@[i].1@ == ap[i].name
                },
                Err(_) => false,
            },
    {
        match PageContext::new(users, apps, user_id) {
            Ok(ctx) => Ok(Menu { users: ctx.users, apps: ctx.apps }),
            Err(e) => Err(e),
        }
    }
}

} // verus!
