//! The app management pages: registration and the update form with its
//! mutually exclusive intents.

use vstd::prelude::*;

use crate::id::{uuid_text, UserAppId};
use crate::model::app::{find_app_by_id, AppStore, UserApp};
use crate::model::page_context::PageContext;
use crate::model::{WartIDError, WartIDResult};
use crate::LoginSession;

verus! {

/// The registration form.
pub struct FormNewApp {
    pub name: String,
    pub hidden: bool,
}

/// Registers the app with its creator as manager and names the page to
/// show next.
pub fn new(apps: &mut AppStore, session: &LoginSession, data: FormNewApp) -> (r: WartIDResult<
    String,
>)
    requires
        old(apps).wf(),
    ensures
        final(apps).wf(),
        match r {
            Ok(target) => exists|id: UserAppId|
                final(apps)@.apps == old(apps)@.apps.push(
                    crate::model::app::UserAppView {
                        id: id.value,
                        name: data.name@,
                        oauth_secret: None,
                        oauth_redirect: Seq::empty(),
                        description: None,
                        hidden: data.hidden,
                    },
                ) && target@ == "/apps/"@ + uuid_text(id.value as nat),
            Err(e) => *final(apps) == *old(apps) && e matches WartIDError::Database(_),
        },
{
    let id = match apps.insert(data.name, data.hidden, session.user.id) {
        Ok(id) => id,
        Err(e) => {
            return Err(e);
        },
    };
    let mut target = String::new();
    target.append("/apps/");
    let id_text = id.to_text();
    target.append(id_text.as_str());
    Ok(target)
}

/// One intended change to an app.
pub enum FormUpdateIntent {
    UpdateGeneral { name: String, description: String },
    OAuthSetRedirectUri(String),
    OAuthEnable,
    OAuthDisable,
}

/// The raw form fields: the buttons are mutually exclusive.
pub struct FormUpdateIntentRaw {
    pub name: Option<String>,
    pub description: Option<String>,
    pub oauth_redirect_uri: Option<String>,
    pub update_general: bool,
    pub oauth_enable: bool,
    pub oauth_disable: bool,
    pub oauth_update_redirect: bool,
}

impl FormUpdateIntent {
    /// Accepts exactly the fields one button needs; any other combination
    /// is rejected.
    pub fn finalize(raw: FormUpdateIntentRaw) -> (r: Result<FormUpdateIntent, ()>)
        ensures
            match r {
                Ok(FormUpdateIntent::UpdateGeneral { ref name, ref description }) => raw.name
                    == Some(*name) && raw.description == Some(*description)
                    && raw.oauth_redirect_uri is None && raw.update_general && !raw.oauth_enable
                    && !raw.oauth_disable && !raw.oauth_update_redirect,
                Ok(FormUpdateIntent::OAuthEnable) => raw.name is None && raw.description is None
                    && raw.oauth_redirect_uri is None && !raw.update_general && raw.oauth_enable
                    && !raw.oauth_disable && !raw.oauth_update_redirect,
                Ok(FormUpdateIntent::OAuthDisable) => raw.name is None && raw.description is None
                    && raw.oauth_redirect_uri is None && !raw.update_general && !raw.oauth_enable
                    && raw.oauth_disable && !raw.oauth_update_redirect,
                Ok(FormUpdateIntent::OAuthSetRedirectUri(ref uri)) => raw.name is None
                    && raw.description is None && raw.oauth_redirect_uri == Some(*uri)
                    && !raw.update_general && !raw.oauth_enable && !raw.oauth_disable
                    && raw.oauth_update_redirect,
                Err(_) => true,
            },
    {
        match raw {
            FormUpdateIntentRaw {
                name: Some(name),
                description: Some(description),
                oauth_redirect_uri: None,
                update_general: true,
                oauth_enable: false,
                oauth_disable: false,
                oauth_update_redirect: false,
            } => Ok(FormUpdateIntent::UpdateGeneral { name, description }),
            FormUpdateIntentRaw {
                name: None,
                description: None,
                oauth_redirect_uri: None,
                update_general: false,
                oauth_enable: true,
                oauth_disable: false,
                oauth_update_redirect: false,
            } => Ok(FormUpdateIntent::OAuthEnable),
            FormUpdateIntentRaw {
                name: None,
                description: None,
                oauth_redirect_uri: None,
                update_general: false,
                oauth_enable: false,
                oauth_disable: true,
                oauth_update_redirect: false,
            } => Ok(FormUpdateIntent::OAuthDisable),
            FormUpdateIntentRaw {
                name: None,
                description: None,
                oauth_redirect_uri: Some(uri),
                update_general: false,
                oauth_enable: false,
                oauth_disable: false,
                oauth_update_redirect: true,
            } => Ok(FormUpdateIntent::OAuthSetRedirectUri(uri)),
            _ => Err(()),
        }
    }
}

/// Applies one change to the app: a too-short name only flashes a
/// complaint, and a successful change flashes its confirmation. The
/// returned record, when the app exists, is the one the page shows.
pub fn view_update(
    ctx: &mut PageContext,
    apps: &mut AppStore,
    app_id: UserAppId,
    data: FormUpdateIntent,
) -> (r: WartIDResult<Option<UserApp>>)
    requires
        old(apps).wf(),
    ensures
        final(apps).wf(),
        match data {
            FormUpdateIntent::UpdateGeneral { ref name, ref description } => {
                if name@.len() < 3 {
                    *final(apps) == *old(apps) && (r matches Ok(a) ==> match a {
                        Some(page_app) => find_app_by_id(old(apps)@.apps, app_id.value) == Some(
                            page_app@,
                        ),
                        None => find_app_by_id(old(apps)@.apps, app_id.value) is None,
                    })
                } else {
                    (r matches Ok(Some(a)) ==> a@.name == name@ && a@.description == Some(
                        description@,
                    ) && a@.id == app_id.value)
                }
            },
            FormUpdateIntent::OAuthEnable => (r matches Ok(Some(a)) ==> a@.id == app_id.value && (
            a@.oauth_secret matches Some(sec) && sec.len() == 64)),
            FormUpdateIntent::OAuthDisable => (r matches Ok(Some(a)) ==> a@.id == app_id.value
                && a@.oauth_secret is None),
            FormUpdateIntent::OAuthSetRedirectUri(ref uri) => (r matches Ok(Some(a)) ==> a@.id
                == app_id.value && a@.oauth_redirect == uri@),
        },
{
    match data {
        FormUpdateIntent::UpdateGeneral { name, description } => {
            if name.as_str().unicode_len() < 3 {
                let mut msg = String::new();
                msg.append(
                    "Le nom de la WartApp doit faire minimum 3 caract\u{e8}res de long.",
                );
                ctx.add_flash_message(msg, true);
                return apps.find_by_id(app_id);
            }
            let app = match apps.set_name_description(app_id, name.as_str(), description.as_str()) {
                Ok(a) => a,
                Err(e) => {
                    return Err(e);
                },
            };
            let mut msg = String::new();
            msg.append("Nom et/ou description de l'app mis\u{b7}es \u{e0} jour avec succ\u{e8}s.");
            ctx.add_flash_message(msg, false);
            Ok(Some(app))
        },
        FormUpdateIntent::OAuthEnable => {
            let app = match apps.set_oauth(app_id, true) {
                Ok(a) => a,
                Err(e) => {
                    return Err(e);
                },
            };
            let mut msg = String::new();
            msg.append("Secret OAuth2 g\u{e9}n\u{e9}r\u{e9}.");
            ctx.add_flash_message(msg, false);
            Ok(Some(app))
        },
        FormUpdateIntent::OAuthDisable => {
            let app = match apps.set_oauth(app_id, false) {
                Ok(a) => a,
                Err(e) => {
                    return Err(e);
                },
            };
            let mut msg = String::new();
            msg.append("OAuth2 d\u{e9}sactiv\u{e9}.");
            ctx.add_flash_message(msg, false);
            Ok(Some(app))
        },
        FormUpdateIntent::OAuthSetRedirectUri(uri) => {
            let app = match apps.set_oauth_redirect_uri(app_id, uri) {
                Ok(a) => a,
                Err(e) => {
                    return Err(e);
                },
            };
            let mut msg = String::new();
            msg.append("URI de redirection OAuth2 autoris\u{e9} mis \u{e0} jour.");
            ctx.add_flash_message(msg, false);
            Ok(Some(app))
        },
    }
}

} // verus!
