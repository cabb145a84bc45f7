//! The profile pages: the `@`-prefixed id parameter, the self redirect,
//! and the profile update form with its validation rules.

use vstd::prelude::*;

use crate::id::{parse_uuid, uuid_text, UserId};
use crate::model::page_context::PageContext;
use crate::model::user::{User, UserStore};
use crate::model::{WartIDError, WartIDResult};
use crate::routes::oauth2::first_char_from;
use crate::LoginSession;

verus! {

/// A user id given as a path parameter, prefixed with '@'.
pub struct UuidParamWithAt(pub UserId);

/// Why an `@`-parameter failed to parse.
#[derive(Clone, Copy, Debug, PartialEq, Eq, Structural)]
pub enum UuidParamWithAtError {
    /// Missing '@' prefix.
    NoAtSymbol,
    /// The rest is not an id.
    Uuid,
}

impl UuidParamWithAt {
    /// Reads `@<id>`.
    pub fn from_param(param: &str) -> (r: Result<UuidParamWithAt, UuidParamWithAtError>)
        ensures
            match r {
                Ok(p) => param@.len() >= 1 && param@[0] == '@' && parse_uuid(param@.skip(1))
                    == Some(p.0.value as nat),
                Err(UuidParamWithAtError::NoAtSymbol) => param@.len() == 0 || param@[0] != '@',
                Err(UuidParamWithAtError::Uuid) => param@.len() >= 1 && param@[0] == '@'
                    && parse_uuid(param@.skip(1)) is None,
            },
    {
        let len = param.unicode_len();
        if len == 0 || param.get_char(0) != '@' {
            return Err(UuidParamWithAtError::NoAtSymbol);
        }
        let rest = param.substring_char(1, len);
        proof {
            assert(rest@ =~= param@.skip(1));
        }
        match UserId::from_text(rest) {
            Some(id) => Ok(UuidParamWithAt(id)),
            None => Err(UuidParamWithAtError::Uuid),
        }
    }
}

/// Where the logged-in user's own profile lives.
pub fn view_me(session: &LoginSession) -> (r: String)
    ensures
        r@ == "/@"@ + uuid_text(session.user.id.value as nat),
{
    let mut s = String::new();
    s.append("/@");
    let id_text = session.user.id.to_text();
    s.append(id_text.as_str());
    s
}

/// One intended profile change.
pub enum FormUpdateIntent {
    UpdateName(String),
    UpdateEmail(String),
    UpdatePassword(String),
}

/// The raw form fields: one value and exactly its own button.
pub struct FormUpdateIntentRaw {
    pub name: Option<String>,
    pub email: Option<String>,
    pub password: Option<String>,
    pub update_name: bool,
    pub update_email: bool,
    pub oauth_password: bool,
}

impl FormUpdateIntent {
    /// Accepts exactly one value together with its own button; any other
    /// combination is rejected.
    pub fn finalize(raw: FormUpdateIntentRaw) -> (r: Result<FormUpdateIntent, ()>)
        ensures
            match r {
                Ok(FormUpdateIntent::UpdateName(n)) => raw.name == Some(n) && raw.email is None
                    && raw.password is None && raw.update_name && !raw.update_email
                    && !raw.oauth_password,
                Ok(FormUpdateIntent::UpdateEmail(e)) => raw.name is None && raw.email == Some(e)
                    && raw.password is None && !raw.update_name && raw.update_email
                    && !raw.oauth_password,
                Ok(FormUpdateIntent::UpdatePassword(p)) => raw.name is None && raw.email is None
                    && raw.password == Some(p) && !raw.update_name && !raw.update_email
                    && raw.oauth_password,
                Err(_) => true,
            },
    {
        match raw {
            FormUpdateIntentRaw {
                name: Some(name),
                email: None,
                password: None,
                update_name: true,
                update_email: false,
                oauth_password: false,
            } => Ok(FormUpdateIntent::UpdateName(name)),
            FormUpdateIntentRaw {
                name: None,
                email: Some(email),
                password: None,
                update_name: false,
                update_email: true,
                oauth_password: false,
            } => Ok(FormUpdateIntent::UpdateEmail(email)),
            FormUpdateIntentRaw {
                name: None,
                email: None,
                password: Some(password),
                update_name: false,
                update_email: false,
                oauth_password: true,
            } => Ok(FormUpdateIntent::UpdatePassword(password)),
            _ => Err(()),
        }
    }
}

/// Applies one profile change for the page's user: only one's own profile
/// may be changed, a too-short value only flashes a complaint, and a
/// successful change flashes its confirmation. The returned record is the
/// one the page shows.
pub fn view_update(
    ctx: &mut PageContext,
    users: &mut UserStore,
    session: &LoginSession,
    user_id: UserId,
    data: FormUpdateIntent,
) -> (r: WartIDResult<User>)
    requires
        old(users).wf(),
    ensures
        final(users).wf(),
        user_id.value != session.user.id.value ==> *final(users) == *old(users) && r matches Err(
            WartIDError::InvalidCredentials(_),
        ),
        user_id.value == session.user.id.value ==> match data {
            FormUpdateIntent::UpdateName(ref name) => {
                if name@.len() < 3 {
                    *final(users) == *old(users) && (r matches Ok(u) && u@ == session.user@)
                } else {
                    (r matches Ok(u) ==> u@.username == name@ && u@.id == user_id.value)
                }
            },
            FormUpdateIntent::UpdateEmail(ref email) => {
                if email@.len() < 6 && first_char_from(email@, '@', 0) < 0 {
                    *final(users) == *old(users) && (r matches Ok(u) && u@ == session.user@)
                } else {
                    (r matches Ok(u) ==> u@.email == Some(email@) && u@.id == user_id.value)
                }
            },
            FormUpdateIntent::UpdatePassword(ref password) => {
                if password@.len() < 8 {
                    *final(users) == *old(users) && (r matches Ok(u) && u@ == session.user@)
                } else {
                    (r matches Ok(u) ==> u@.id == user_id.value && (password@.len() == 0
                        ==> u@.password is None))
                }
            },
        },
{
    if user_id.value != session.user.id.value {
        let mut m = String::new();
        m.append("invalid account");
        return Err(WartIDError::InvalidCredentials(m));
    }
    match data {
        FormUpdateIntent::UpdateName(name) => {
            if name.as_str().unicode_len() < 3 {
                let mut msg = String::new();
                msg.append("Le nom doit faire minimum 3 caract\u{e8}res.");
                ctx.add_flash_message(msg, true);
                return Ok(session.user.duplicate());
            }
            let user = match users.update_username(user_id, name.as_str()) {
                Ok(u) => u,
                Err(e) => {
                    return Err(e);
                },
            };
            let mut msg = String::new();
            msg.append("Nom mis \u{e0} jour avec succ\u{e8}s !");
            ctx.add_flash_message(msg, false);
            Ok(user)
        },
        FormUpdateIntent::UpdateEmail(email) => {
            if email.as_str().unicode_len() < 6 && !str_contains_char(email.as_str(), '@') {
                let mut msg = String::new();
                msg.append("Merci de rentrer une adresse e-mail valide.");
                ctx.add_flash_message(msg, true);
                return Ok(session.user.duplicate());
            }
            let user = match users.update_email(user_id, email.as_str()) {
                Ok(u) => u,
                Err(e) => {
                    return Err(e);
                },
            };
            let mut msg = String::new();
            msg.append("Adresse e-mail mise \u{e0} jour avec succ\u{e8}s !");
            ctx.add_flash_message(msg, false);
            Ok(user)
        },
        FormUpdateIntent::UpdatePassword(password) => {
            if password.as_str().unicode_len() < 8 {
                let mut msg = String::new();
                msg.append("Le mot de passe doit faire minimum 8 caract\u{e8}res.");
                ctx.add_flash_message(msg, true);
                return Ok(session.user.duplicate());
            }
            let user = match users.update_password(user_id, password.as_str()) {
                Ok(u) => u,
                Err(e) => {
                    return Err(e);
                },
            };
            let mut msg = String::new();
            msg.append("Mot de passe mis \u{e0} jour avec succ\u{e8}s !");
            ctx.add_flash_message(msg, false);
            Ok(user)
        },
    }
}

/// Whether `s` holds the character anywhere.
pub fn str_contains_char(s: &str, c: char) -> (r: bool)
    ensures
        r == (first_char_from(s@, c, 0) >= 0),
{
    let len = s.unicode_len();
    let mut i: usize = 0;
    while i < len
        invariant
            i <= len,
            len == s@.len(),
            first_char_from(s@, c, 0) == first_char_from(s@, c, i as int),
        decreases len - i,
    {
        if s.get_char(i) == c {
            return true;
        }
        i = i + 1;
    }
    proof {
        assert(first_char_from(s@, c, i as int) == -1);
    }
    false
}

} // verus!
