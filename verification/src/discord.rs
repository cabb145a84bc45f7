//! The federated identity bridge: an external, out-of-band-authenticated
//! agent vouches for a user's identity with a short-lived signed token,
//! without touching the password store.

use vstd::prelude::*;

pub use crate::utils::jwt::Claims;

use crate::utils::jwt::{
    decode_spec, token_of, ClaimsView, JWTValidationError, JWTView, TokenClaims, TokenClaimsView,
    JWT,
};

verus! {

/// Why a login token was rejected: an expired-but-genuine token is told
/// apart so the caller can ask for a fresh one.
#[derive(Clone, Debug)]
pub enum UnauthorizedError {
    /// Expired login code; a newer one must be generated.
    Expired,
    /// Invalid login code.
    Invalid(String),
}

impl UnauthorizedError {
    /// A short description, safe to show to the caller.
    pub fn message(&self) -> (r: String)
        ensures
            r@ == self.message_spec(),
    {
        match self {
            UnauthorizedError::Expired => {
                let mut s = String::new();
                s.append("expired login code, try regenerating a newer one");
                s
            },
            UnauthorizedError::Invalid(m) => {
                let mut s = String::new();
                s.append("invalid login code: ");
                s.append(m.as_str());
                s
            },
        }
    }

    pub open spec fn message_spec(&self) -> Seq<char> {
        match self {
            UnauthorizedError::Expired => "expired login code, try regenerating a newer one"@,
            UnauthorizedError::Invalid(m) => "invalid login code: "@ + m@,
        }
    }
}

/// How long a login token stays valid, in seconds.
pub open spec fn spec_login_token_seconds() -> int {
    600
}

/// Holds the bridge's codec: the encoding half is handed only to the
/// trusted external agent, and both halves are one shared symmetric key.
pub struct DiscordAgent {
    codec: JWT,
}

impl View for DiscordAgent {
    type V = JWTView;

    closed spec fn view(&self) -> JWTView {
        self.codec@
    }
}

impl DiscordAgent {
    /// A fresh bridge with its own key; its tokens live ten minutes.
    pub fn new() -> (r: DiscordAgent)
        ensures
            r@.issuer == "wartid-discord"@,
            r@.duration == spec_login_token_seconds(),
    {
        DiscordAgent { codec: JWT::new("wartid-discord", 600) }
    }

    /// A bridge over a pre-shared key: the same key serves the agent that
    /// mints tokens and the server that verifies them, and survives a
    /// restart when the caller persists it.
    pub fn from_key(key: Vec<u8>) -> (r: DiscordAgent)
        ensures
            r@.issuer == "wartid-discord"@,
            r@.duration == spec_login_token_seconds(),
            r@.key == key@,
    {
        DiscordAgent { codec: JWT::from_key("wartid-discord", 600, key) }
    }

    /// Mints a login token asserting the external identity: the agent's
    /// half of the bridge.
    pub fn issue(&self, discord_user: u64, name: String, now: i64) -> (r: String)
        requires
            0 <= now,
            now + spec_login_token_seconds() <= i64::MAX,
            self@.duration == spec_login_token_seconds(),
        ensures
            r@ == token_of(
                self@,
                TokenClaimsView::Identity(ClaimsView { sub: discord_user, name: name@ }),
                now as int,
            ),
            forall|t: i64|
                now <= t <= now + spec_login_token_seconds() ==> decode_spec(self@, r@, t as int)
                    == Ok::<TokenClaimsView, JWTValidationError>(
                    TokenClaimsView::Identity(ClaimsView { sub: discord_user, name: name@ }),
                ),
            forall|t: i64|
                now + spec_login_token_seconds() < t ==> decode_spec(self@, r@, t as int) == Err::<
                    TokenClaimsView,
                    JWTValidationError,
                >(JWTValidationError::Expired),
    {
        let claims = TokenClaims::Identity(Claims { sub: discord_user, name: name });
        self.codec.encode(&claims, now)
    }

    /// Validates a login token and hands back the asserted identity; an
    /// expired token gets its own error so the caller can say so.
    pub fn try_authorize(&self, login_token: &str, now: i64) -> (r: Result<
        Claims,
        UnauthorizedError,
    >)
        ensures
            match r {
                Ok(c) => decode_spec(self@, login_token@, now as int) == Ok::<
                    TokenClaimsView,
                    JWTValidationError,
                >(TokenClaimsView::Identity(c@)),
                Err(UnauthorizedError::Expired) => decode_spec(self@, login_token@, now as int)
                    == Err::<TokenClaimsView, JWTValidationError>(JWTValidationError::Expired),
                Err(UnauthorizedError::Invalid(_)) => !(decode_spec(
                    self@,
                    login_token@,
                    now as int,
                ) matches Ok(TokenClaimsView::Identity(_))) && decode_spec(
                    self@,
                    login_token@,
                    now as int,
                ) != Err::<TokenClaimsView, JWTValidationError>(JWTValidationError::Expired),
            },
    {
        match self.codec.decode(login_token, now) {
            Ok(TokenClaims::Identity(c)) => Ok(c),
            Ok(_) => {
                let mut m = String::new();
                m.append("token carries foreign claims");
                Err(UnauthorizedError::Invalid(m))
            },
            Err(JWTValidationError::Expired) => Err(UnauthorizedError::Expired),
            Err(_) => {
                let mut m = String::new();
                m.append("bad signature or shape");
                Err(UnauthorizedError::Invalid(m))
            },
        }
    }
}

} // verus!
