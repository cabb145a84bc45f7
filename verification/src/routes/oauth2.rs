//! The OAuth2 state machine: authorize-request validation and code
//! issuance, the two token-grant exchanges, and bearer-token resource
//! access.

use vstd::prelude::*;

use crate::id::{parse_uuid, UserAppId, UserId};
use crate::model::app::{find_app_by_id, redirect_allowed, AppStore, UserApp};
use crate::model::oauth2session::{
    has_token, spec_refresh_seconds, upsert, OAuth2SessionView, RefreshSessionStore,
    find_token_valid,
};
use crate::model::scopes::{parse_scopes, scopes_text, OAuth2Scope, OAuth2Scopes};
use crate::model::user::{find_user_by_id, User, UserStore};
use crate::model::{WartIDError, WartIDResult};
use crate::utils::jwt::{
    decode_spec, token_of, AccessState, AccessStateView, AuthorizeState, AuthorizeStateView,
    JWTValidationError, TokenClaims, TokenClaimsView, JWT,
};
use crate::utils::str_eq;
use crate::LoginSession;

use vstd::utf8::{decode_utf8, valid_utf8};

verus! {

/// How long an authorization code lives, in seconds.
pub open spec fn spec_authorize_code_seconds() -> int {
    600
}

/// How long an access token lives, in seconds.
pub open spec fn spec_access_token_seconds() -> int {
    3600
}

/// The two codecs the engine mints with: one purpose, issuer and key each.
pub struct OAuth2Codecs {
    pub jwt_authorize: JWT,
    pub jwt_access: JWT,
}

impl OAuth2Codecs {
    /// The codecs are configured as the engine assumes them.
    pub open spec fn wf(&self) -> bool {
        &&& self.jwt_authorize@.issuer == "wartid-authorize"@
        &&& self.jwt_authorize@.duration == spec_authorize_code_seconds()
        &&& self.jwt_access@.issuer == "wartid-access-token"@
        &&& self.jwt_access@.duration == spec_access_token_seconds()
    }

    /// Fresh keys for both purposes, generated once at startup.
    pub fn new() -> (r: OAuth2Codecs)
        ensures
            r.wf(),
    {
        OAuth2Codecs {
            jwt_authorize: JWT::new("wartid-authorize", 600),
            jwt_access: JWT::new("wartid-access-token", 3600),
        }
    }
}

/// The only supported response type; anything else is rejected before the
/// engine is reached.
#[derive(Clone, Copy, Debug, PartialEq, Eq, Structural)]
pub enum AuthorizeResponseType {
    Code,
}

/// A parsed authorize request.
pub struct AuthorizeQuery {
    pub client_id: UserAppId,
    pub redirect_uri: String,
    pub scope: Option<OAuth2Scopes>,
    pub response_type: AuthorizeResponseType,
    pub state: Option<String>,
    pub nonce: Option<String>,
}

/// What the consent view shows: the requesting app, the effective scopes,
/// the minted code, and the short host form of the redirect URI.
pub struct ConsentPage {
    pub user: User,
    pub app: UserApp,
    pub redirect_uri_short: String,
    pub redirect_uri: String,
    pub code: Option<String>,
    pub state: Option<String>,
    pub scopes: OAuth2Scopes,
}

/// Where the authorize step goes: the consent view, or to the login page
/// with the original request preserved as the return-to target.
pub enum AuthorizeOutcome {
    Consent(ConsentPage),
    RedirectToLogin(String),
}

/// The first position where two slashes stand together, from `i` on.
pub open spec fn first_dslash_from(s: Seq<char>, i: int) -> int
    decreases s.len() - i,
{
    if i < 0 || i + 1 >= s.len() {
        -1
    } else if s[i] == '/' && s[i + 1] == '/' {
        i
    } else {
        first_dslash_from(s, i + 1)
    }
}

/// The first position of `c`, from `i` on.
pub open spec fn first_char_from(s: Seq<char>, c: char, i: int) -> int
    decreases s.len() - i,
{
    if i < 0 || i >= s.len() {
        -1
    } else if s[i] == c {
        i
    } else {
        first_char_from(s, c, i + 1)
    }
}

/// The host part of a URI, for recognizability: what stands between the
/// double slash and the next slash; the whole URI when there is no such
/// window.
pub open spec fn short_of(uri: Seq<char>) -> Seq<char> {
    let d = first_dslash_from(uri, 0);
    if d < 0 {
        uri
    } else {
        let j = first_char_from(uri, '/', d + 2);
        if j < 0 {
            uri
        } else {
            uri.subrange(d + 2, j)
        }
    }
}

/// The short host form of a redirect URI.
pub fn redirect_uri_short(uri: &str) -> (r: String)
    ensures
        r@ == short_of(uri@),
{
    let len = uri.unicode_len();
    let limit: usize = if len == 0 {
        0
    } else {
        len - 1
    };
    let mut i: usize = 0;
    let mut d: Option<usize> = None;
    while d.is_none() && i < limit
        invariant
            i <= limit,
            len == uri@.len(),
            limit == if len == 0 { 0int } else { len - 1 },
            match d {
                None => first_dslash_from(uri@, 0) == first_dslash_from(uri@, i as int),
                Some(x) => first_dslash_from(uri@, 0) == x && x + 2 <= len,
            },
        decreases limit - i, (if d is None { 1int } else { 0int }),
    {
        if uri.get_char(i) == '/' && uri.get_char(i + 1) == '/' {
            d = Some(i);
        } else {
            i = i + 1;
        }
    }
    let dd = match d {
        None => {
            proof {
                assert(first_dslash_from(uri@, i as int) == -1);
            }
            return uri.to_owned();
        },
        Some(x) => x,
    };
    let mut j: usize = dd + 2;
    while j < len
        invariant
            dd + 2 <= j <= len,
            len == uri@.len(),
            first_dslash_from(uri@, 0) == dd,
            first_char_from(uri@, '/', dd + 2) == first_char_from(uri@, '/', j as int),
        decreases len - j,
    {
        if uri.get_char(j) == '/' {
            return uri.substring_char(dd + 2, j).to_owned();
        }
        j = j + 1;
    }
    proof {
        assert(first_char_from(uri@, '/', j as int) == -1);
    }
    uri.to_owned()
}

/// The authorize step: with no session, to the login page; with one, the
/// client and its redirect URI are validated, the email scope is dropped
/// when the user has no email on file, and a signed authorization code
/// binding client, user, scopes and redirect URI is minted.
pub fn authorize(
    codecs: &OAuth2Codecs,
    apps: &AppStore,
    session: Option<&LoginSession>,
    query: AuthorizeQuery,
    base_url: &str,
    current_uri: &str,
    now: i64,
) -> (r: WartIDResult<AuthorizeOutcome>)
    requires
        codecs.wf(),
        0 <= now,
        now + spec_authorize_code_seconds() <= i64::MAX,
    ensures
        match session {
            None => r matches Ok(AuthorizeOutcome::RedirectToLogin(u)) && u@ == base_url@
                + current_uri@,
            Some(ls) => {
                let app_opt = find_app_by_id(apps@.apps, query.client_id.value);
                if app_opt is None || app_opt->0.oauth_secret is None {
                    r matches Err(WartIDError::OAuth2Error(m)) && m@ == "client not found"@
                } else if !redirect_allowed(app_opt->0, query.redirect_uri@) {
                    r matches Err(WartIDError::OAuth2Error(m)) && m@
                        == "redirect uri is not configured"@
                } else {
                    r matches Ok(AuthorizeOutcome::Consent(page)) && {
                        let requested = match query.scope {
                            Some(s) => s@,
                            None => Set::<OAuth2Scope>::empty(),
                        };
                        let eff = if requested.contains(OAuth2Scope::Email) && ls.user.email
                            is None {
                            requested.remove(OAuth2Scope::Email)
                        } else {
                            requested
                        };
                        &&& page.scopes@ == eff
                        &&& page.code matches Some(code) && code@ == token_of(
                            codecs.jwt_authorize@,
                            TokenClaimsView::Authorize(
                                AuthorizeStateView {
                                    client: app_opt->0.id,
                                    user: ls.user.id.value,
                                    initial_scopes: eff,
                                    redirect_uri: query.redirect_uri@,
                                },
                            ),
                            now as int,
                        )
                        &&& page.user@ == ls.user@
                        &&& page.app@ == app_opt->0
                        &&& page.redirect_uri@ == query.redirect_uri@
                        &&& page.redirect_uri_short@ == short_of(query.redirect_uri@)
                        &&& page.state == query.state
                    }
                }
            },
        },
{
    let ls = match session {
        None => {
            let mut url = String::new();
            url.append(base_url);
            url.append(current_uri);
            return Ok(AuthorizeOutcome::RedirectToLogin(url));
        },
        Some(ls) => ls,
    };
    let app = match apps.find_by_id(query.client_id) {
        Ok(Some(app)) => app,
        Ok(None) => {
            let mut m = String::new();
            m.append("client not found");
            return Err(WartIDError::OAuth2Error(m));
        },
        Err(e) => {
            return Err(e);
        },
    };
    if app.oauth2().is_none() {
        let mut m = String::new();
        m.append("client not found");
        return Err(WartIDError::OAuth2Error(m));
    }
    if !app.is_oauth2_redirect_allowed(query.redirect_uri.as_str()) {
        let mut m = String::new();
        m.append("redirect uri is not configured");
        return Err(WartIDError::OAuth2Error(m));
    }
    let short = redirect_uri_short(query.redirect_uri.as_str());
    let requested = match query.scope {
        Some(s) => s,
        None => OAuth2Scopes::empty(),
    };
    let mut effective = requested;
    if effective.contains(OAuth2Scope::Email) && ls.user.email.is_none() {
        effective.remove(OAuth2Scope::Email);
    }
    proof {
        if !(requested@.contains(OAuth2Scope::Email) && ls.user.email is None) {
            assert(effective@ =~= requested@);
        }
    }
    let claims = TokenClaims::Authorize(
        AuthorizeState {
            client: app.id,
            user: ls.user.id,
            initial_scopes: effective,
            redirect_uri: query.redirect_uri.clone(),
        },
    );
    let code = codecs.jwt_authorize.encode(&claims, now);
    Ok(
        AuthorizeOutcome::Consent(
            ConsentPage {
                user: ls.user.duplicate(),
                app: app,
                redirect_uri_short: short,
                redirect_uri: query.redirect_uri,
                code: Some(code),
                state: query.state,
                scopes: effective,
            },
        ),
    )
}

/// The two supported grant types.
#[derive(Clone, Copy, Debug, PartialEq, Eq, Structural)]
pub enum GrantType {
    AuthorizationCode,
    RefreshToken,
}

/// A parsed token request.
pub struct TokenQuery {
    pub grant_type: GrantType,
    pub code: Option<String>,
    pub refresh_token: Option<String>,
    pub redirect_uri: String,
    pub scope: Option<String>,
    pub client_id: Option<String>,
    pub client_secret: Option<String>,
}

/// Client credentials taken from an HTTP Basic header.
#[derive(Clone, Debug, PartialEq, Eq)]
pub struct BasicAuthorization {
    pub username: String,
    pub password: String,
}

/// The value of one base64 character of the standard alphabet.
pub open spec fn b64_char_value(c: char) -> Option<nat> {
    if 'A' <= c && c <= 'Z' {
        Some((c as u32 - 65) as nat)
    } else if 'a' <= c && c <= 'z' {
        Some((c as u32 - 71) as nat)
    } else if '0' <= c && c <= '9' {
        Some((c as u32 + 4) as nat)
    } else if c == '+' {
        Some(62 as nat)
    } else if c == '/' {
        Some(63 as nat)
    } else {
        None
    }
}

/// One pass of standard base64 decoding, four characters to three bytes,
/// with '=' padding allowed only at the very end.
pub open spec fn b64_decode_groups(s: Seq<char>, i: int, acc: Seq<u8>) -> Option<Seq<u8>>
    decreases s.len() - i,
{
    if i < 0 {
        None
    } else if i >= s.len() {
        Some(acc)
    } else if i + 4 > s.len() {
        None
    } else {
        match (b64_char_value(s[i]), b64_char_value(s[i + 1])) {
            (Some(c0), Some(c1)) => {
                let b0 = (c0 * 4 + c1 / 16) as u8;
                if s[i + 2] == '=' {
                    if s[i + 3] == '=' && i + 4 == s.len() {
                        Some(acc.push(b0))
                    } else {
                        None
                    }
                } else {
                    match b64_char_value(s[i + 2]) {
                        Some(c2) => {
                            let b1 = ((c1 % 16) * 16 + c2 / 4) as u8;
                            if s[i + 3] == '=' {
                                if i + 4 == s.len() {
                                    Some(acc.push(b0).push(b1))
                                } else {
                                    None
                                }
                            } else {
                                match b64_char_value(s[i + 3]) {
                                    Some(c3) => {
                                        let b2 = ((c2 % 4) * 64 + c3) as u8;
                                        b64_decode_groups(s, i + 4, acc.push(b0).push(b1).push(b2))
                                    },
                                    None => None,
                                }
                            }
                        },
                        None => None,
                    }
                }
            },
            _ => None,
        }
    }
}

/// What decoding a standard base64 string yields.
pub open spec fn b64_decode(s: Seq<char>) -> Option<Seq<u8>> {
    b64_decode_groups(s, 0, Seq::empty())
}

/// The value of one base64 character.
fn b64_char_value_exec(c: char) -> (r: Option<u8>)
    ensures
        match r {
            Some(v) => b64_char_value(c) == Some(v as nat) && v < 64,
            None => b64_char_value(c) is None,
        },
{
    if 'A' <= c && c <= 'Z' {
        Some((c as u32 - 65) as u8)
    } else if 'a' <= c && c <= 'z' {
        Some((c as u32 - 71) as u8)
    } else if '0' <= c && c <= '9' {
        Some((c as u32 + 4) as u8)
    } else if c == '+' {
        Some(62)
    } else if c == '/' {
        Some(63)
    } else {
        None
    }
}

/// Standard base64 decoding, as `b64_decode` says.
pub fn b64_decode_str(s: &str) -> (r: Option<Vec<u8>>)
    ensures
        match r {
            Some(v) => b64_decode(s@) == Some(v@),
            None => b64_decode(s@) is None,
        },
{
    let len = s.unicode_len();
    let mut out: Vec<u8> = Vec::new();
    let mut i: usize = 0;
    while i < len
        invariant
            i <= len,
            len == s@.len(),
            b64_decode_groups(s@, i as int, out@) == b64_decode(s@),
        decreases len - i,
    {
        if len - i < 4 {
            return None;
        }
        let c0 = match b64_char_value_exec(s.get_char(i)) {
            Some(v) => v,
            None => {
                return None;
            },
        };
        let c1 = match b64_char_value_exec(s.get_char(i + 1)) {
            Some(v) => v,
            None => {
                return None;
            },
        };
        let b0: u8 = c0 * 4 + c1 / 16;
        if s.get_char(i + 2) == '=' {
            if s.get_char(i + 3) == '=' && i + 4 == len {
                out.push(b0);
                i = i + 4;
            } else {
                return None;
            }
        } else {
            let c2 = match b64_char_value_exec(s.get_char(i + 2)) {
                Some(v) => v,
                None => {
                    return None;
                },
            };
            let b1: u8 = (c1 % 16) * 16 + c2 / 4;
            if s.get_char(i + 3) == '=' {
                if i + 4 == len {
                    out.push(b0);
                    out.push(b1);
                    i = i + 4;
                } else {
                    return None;
                }
            } else {
                let c3 = match b64_char_value_exec(s.get_char(i + 3)) {
                    Some(v) => v,
                    None => {
                        return None;
                    },
                };
                let b2: u8 = (c2 % 4) * 64 + c3;
                out.push(b0);
                out.push(b1);
                out.push(b2);
                i = i + 4;
            }
        }
    }
    Some(out)
}

/// Relies on `String::from_utf8`: the bytes decode to exactly the
/// characters `vstd`'s UTF-8 model gives, and only valid UTF-8 decodes.
#[verifier::external_body]
fn bytes_to_string(v: Vec<u8>) -> (r: Option<String>)
    ensures
        match r {
            Some(s) => valid_utf8(v@) && s@ == decode_utf8(v@),
            None => !valid_utf8(v@),
        },
{
    String::from_utf8(v).ok()
}

/// What an HTTP Basic header yields: the username and password separated
/// by the first colon of the base64-decoded payload.
pub open spec fn basic_parse(h: Seq<char>) -> Option<(Seq<char>, Seq<char>)> {
    if !(h.len() >= 6 && h.subrange(0, 6) == "Basic "@) {
        None
    } else {
        match b64_decode(h.skip(6)) {
            None => None,
            Some(bytes) => if !valid_utf8(bytes) {
                None
            } else {
                let s = decode_utf8(bytes);
                let c = first_char_from(s, ':', 0);
                if c < 0 {
                    None
                } else {
                    Some((s.subrange(0, c), s.subrange(c + 1, s.len() as int)))
                }
            },
        }
    }
}

impl BasicAuthorization {
    /// Reads an `Authorization` header value: only the Basic scheme is
    /// supported, and the decoded payload must hold a colon.
    pub fn from_header(header: &str) -> (r: Result<BasicAuthorization, String>)
        ensures
            match r {
                Ok(b) => basic_parse(header@) == Some((b.username@, b.password@)),
                Err(_) => basic_parse(header@) is None,
            },
    {
        let len = header.unicode_len();
        let prefix: Vec<char> = vec!['B', 'a', 's', 'i', 'c', ' '];
        proof {
            reveal_strlit("Basic ");
            assert(prefix@ =~= "Basic "@);
        }
        if len < 6 {
            let mut m = String::new();
            m.append("Only basic auth is supported");
            return Err(m);
        }
        let mut k: usize = 0;
        while k < 6
            invariant
                k <= 6,
                6 <= len == header@.len(),
                prefix@ == "Basic "@,
                prefix@.len() == 6,
                forall|t: int| 0 <= t < k ==> header@[t] == "Basic "@[t],
            decreases 6 - k,
        {
            if header.get_char(k) != prefix[k] {
                proof {
                    assert(header@.subrange(0, 6)[k as int] != "Basic "@[k as int]);
                }
                let mut m = String::new();
                m.append("Only basic auth is supported");
                return Err(m);
            }
            k = k + 1;
        }
        proof {
            assert(header@.subrange(0, 6) =~= "Basic "@);
        }
        let body = header.substring_char(6, len);
        proof {
            assert(body@ =~= header@.skip(6));
        }
        let bytes = match b64_decode_str(body) {
            Some(b) => b,
            None => {
                let mut m = String::new();
                m.append("invalid authorization header encoding");
                return Err(m);
            },
        };
        let ghost bytesv = bytes@;
        let text = match bytes_to_string(bytes) {
            Some(t) => t,
            None => {
                let mut m = String::new();
                m.append("invalid authorization header encoding");
                return Err(m);
            },
        };
        let tlen = text.as_str().unicode_len();
        let mut c: usize = 0;
        while c < tlen
            invariant
                c <= tlen,
                tlen == text@.len(),
                header@.len() >= 6 && header@.subrange(0, 6) == "Basic "@,
                b64_decode(header@.skip(6)) == Some(bytesv),
                valid_utf8(bytesv),
                text@ == decode_utf8(bytesv),
                first_char_from(text@, ':', 0) == first_char_from(text@, ':', c as int),
            decreases tlen - c,
        {
            if text.as_str().get_char(c) == ':' {
                let username = text.as_str().substring_char(0, c).to_owned();
                let password = text.as_str().substring_char(c + 1, tlen).to_owned();
                return Ok(BasicAuthorization { username, password });
            }
            c = c + 1;
        }
        proof {
            assert(first_char_from(text@, ':', c as int) == -1);
        }
        let mut m = String::new();
        m.append("Bad format, missing colon");
        Err(m)
    }
}

/// The one token type issued.
#[derive(Clone, Copy, Debug, PartialEq, Eq, Structural)]
pub enum TokenType {
    Bearer,
}

/// A successful token response; the refresh token is omitted when none
/// could be stored.
pub struct TokenResponse {
    pub access_token: String,
    pub expires_in: u64,
    pub token_type: TokenType,
    pub refresh_token: Option<String>,
}

/// The short name of a validation error, as the token endpoint reports it.
pub open spec fn jwt_error_text(e: JWTValidationError) -> Seq<char> {
    match e {
        JWTValidationError::InvalidSignature => "InvalidSignature"@,
        JWTValidationError::InvalidIssuer => "InvalidIssuer"@,
        JWTValidationError::Expired => "Expired"@,
    }
}

fn jwt_error_name(e: JWTValidationError) -> (r: &'static str)
    ensures
        r@ == jwt_error_text(e),
{
    match e {
        JWTValidationError::InvalidSignature => "InvalidSignature",
        JWTValidationError::InvalidIssuer => "InvalidIssuer",
        JWTValidationError::Expired => "Expired",
    }
}

/// What the token endpoint decides for a request: the user, scopes and
/// client of a granted exchange, or the exact error text. Client
/// credentials come from the Basic header or the form fields, never both;
/// each grant type must carry its own field and not the other's.
pub open spec fn token_decision(
    jwt_authorize: crate::utils::jwt::JWTView,
    apps: Seq<crate::model::app::UserAppView>,
    rows: Seq<OAuth2SessionView>,
    auth: Option<BasicAuthorization>,
    data: TokenQuery,
    now: int,
) -> Result<(u128, Set<OAuth2Scope>, u128), Seq<char>> {
    let cred = match (auth, data.client_id, data.client_secret) {
        (Some(a), None, None) => Some((a.username@, a.password@)),
        (None, Some(id), Some(sec)) => Some((id@, sec@)),
        _ => None,
    };
    match cred {
        None => Err("multiple auth methods used simultaneously"@),
        Some((idt, sec)) => match parse_uuid(idt) {
            None => Err("cannot parse client uuid"@),
            Some(cid) => match find_app_by_id(apps, cid as u128) {
                None => Err("unknown client id"@),
                Some(app) => if app.oauth_secret != Some(sec) {
                    Err("invalid client secret"@)
                } else {
                    match (data.grant_type, data.code, data.refresh_token) {
                        (GrantType::AuthorizationCode, Some(code), None) => match decode_spec(
                            jwt_authorize,
                            code@,
                            now,
                        ) {
                            Err(e) => Err("invalid code, might have expired: "@ + jwt_error_text(e)),
                            Ok(TokenClaimsView::Authorize(a)) => if a.client != app.id {
                                Err("invalid client"@)
                            } else {
                                Ok((a.user, a.initial_scopes, app.id))
                            },
                            Ok(_) => Err(
                                "invalid code, might have expired: "@ + jwt_error_text(
                                    JWTValidationError::InvalidSignature,
                                ),
                            ),
                        },
                        (GrantType::RefreshToken, None, Some(rt)) => match find_token_valid(
                            rows,
                            rt@,
                            now,
                        ) {
                            None => Err("No session found for this refresh token"@),
                            Some(row) => if row.user_apps_id != app.id {
                                Err("Forbidden app"@)
                            } else {
                                Ok(
                                    (
                                        row.users_id,
                                        match parse_scopes(row.initial_scopes) {
                                            Some(s) => s,
                                            None => Set::empty(),
                                        },
                                        app.id,
                                    ),
                                )
                            },
                        },
                        _ => Err(
                            "authorization_code grant type can only be used with ?code, and refresh_token grant type can only be used with ?refresh_token"@,
                        ),
                    }
                },
            },
        },
    }
}

/// The token step: the client is authenticated, the code or refresh token
/// is validated, the refresh session is rotated (never fatally), and a
/// fresh access token is minted.
///
/// Two known loosenesses are preserved deliberately: the redirect URI is
/// not re-validated at the exchange step (validity rests on the signed
/// code alone), and a code is not single-use (it stays redeemable until
/// its embedded expiry).
pub fn token(
    codecs: &OAuth2Codecs,
    apps: &AppStore,
    store: &mut RefreshSessionStore,
    auth: Option<BasicAuthorization>,
    data: TokenQuery,
    now: i64,
) -> (r: Result<TokenResponse, String>)
    requires
        codecs.wf(),
        old(store).wf(),
        0 <= now,
        now + spec_refresh_seconds() <= i64::MAX,
    ensures
        final(store).wf(),
        match token_decision(codecs.jwt_authorize@, apps@.apps, old(store)@, auth, data, now as int) {
            Err(msg) => (r matches Err(m) && m@ == msg) && *final(store) == *old(store),
            Ok((user, scopes, client)) => r matches Ok(resp) && {
                &&& resp.access_token@ == token_of(
                    codecs.jwt_access@,
                    TokenClaimsView::Access(
                        AccessStateView { client: client, user: user, scopes: scopes },
                    ),
                    now as int,
                )
                &&& resp.expires_in == 3600
                &&& resp.token_type == TokenType::Bearer
                &&& match resp.refresh_token {
                    Some(t) => t@.len() == 32 && !has_token(old(store)@, t@) && final(store)@
                        == upsert(
                        old(store)@,
                        OAuth2SessionView {
                            token: t@,
                            users_id: user,
                            user_apps_id: client,
                            initial_scopes: scopes_text(scopes),
                            expiration: now + spec_refresh_seconds(),
                        },
                    ),
                    None => *final(store) == *old(store),
                }
            },
        },
{
    let (client_id_text, client_password): (String, String) = match (
        auth,
        data.client_id,
        data.client_secret,
    ) {
        (Some(a), None, None) => (a.username, a.password),
        (None, Some(id), Some(sec)) => (id, sec),
        _ => {
            let mut m = String::new();
            m.append("multiple auth methods used simultaneously");
            return Err(m);
        },
    };
    let client_id = match UserAppId::from_text(client_id_text.as_str()) {
        Some(id) => id,
        None => {
            let mut m = String::new();
            m.append("cannot parse client uuid");
            return Err(m);
        },
    };
    proof {
        crate::hex::lemma_pow16_32();
    }
    let app = match apps.find_by_id(client_id) {
        Ok(Some(app)) => app,
        Ok(None) => {
            let mut m = String::new();
            m.append("unknown client id");
            return Err(m);
        },
        Err(_) => {
            let mut m = String::new();
            m.append("unknown client id");
            return Err(m);
        },
    };
    proof {
        if find_app_by_id(apps@.apps, client_id.value) is Some {
            crate::model::app::lemma_find_app_found(apps@.apps, client_id.value);
        }
    }
    let secret_ok = match app.oauth2() {
        Some((secret, _)) => str_eq(secret.as_str(), client_password.as_str()),
        None => false,
    };
    if !secret_ok {
        let mut m = String::new();
        m.append("invalid client secret");
        return Err(m);
    }
    let (user, scopes): (UserId, OAuth2Scopes) = match (data.grant_type, data.code, data.refresh_token) {
        (GrantType::AuthorizationCode, Some(code), None) => {
            let decoded = match codecs.jwt_authorize.decode(code.as_str(), now) {
                Ok(c) => c,
                Err(e) => {
                    let mut m = String::new();
                    m.append("invalid code, might have expired: ");
                    m.append(jwt_error_name(e));
                    return Err(m);
                },
            };
            match decoded {
                TokenClaims::Authorize(a) => {
                    if a.client.value != app.id.value {
                        let mut m = String::new();
                        m.append("invalid client");
                        return Err(m);
                    }
                    (a.user, a.initial_scopes)
                },
                _ => {
                    let mut m = String::new();
                    m.append("invalid code, might have expired: ");
                    m.append(jwt_error_name(JWTValidationError::InvalidSignature));
                    return Err(m);
                },
            }
        },
        (GrantType::RefreshToken, None, Some(refresh_token)) => {
            let session = match store.find_by_token(refresh_token.as_str(), now) {
                Ok(Some(session)) => session,
                Ok(None) => {
                    let mut m = String::new();
                    m.append("No session found for this refresh token");
                    return Err(m);
                },
                Err(_) => {
                    let mut m = String::new();
                    m.append("No session found for this refresh token");
                    return Err(m);
                },
            };
            if session.user_apps_id.value != app.id.value {
                let mut m = String::new();
                m.append("Forbidden app");
                return Err(m);
            }
            let scopes = match OAuth2Scopes::from_str(session.initial_scopes.as_str()) {
                Ok(s) => s,
                Err(_) => OAuth2Scopes::empty(),
            };
            (session.users_id, scopes)
        },
        _ => {
            let mut m = String::new();
            m.append(
                "authorization_code grant type can only be used with ?code, and refresh_token grant type can only be used with ?refresh_token",
            );
            return Err(m);
        },
    };
    let refresh_token = match store.insert_or_refresh(user, app.id, &scopes, now) {
        Ok(t) => Some(t),
        Err(_) => None,
    };
    let access_token = codecs.jwt_access.encode(
        &TokenClaims::Access(AccessState { client: client_id, user: user, scopes: scopes }),
        now,
    );
    Ok(
        TokenResponse {
            access_token,
            expires_in: 3600,
            token_type: TokenType::Bearer,
            refresh_token,
        },
    )
}

/// A validated bearer request: the live user and the token's scopes.
pub struct BearerSession {
    pub user: User,
    pub scopes: OAuth2Scopes,
}

/// The token of a bearer `Authorization` header.
pub open spec fn bearer_token(h: Seq<char>) -> Option<Seq<char>> {
    if h.len() >= 7 && h.subrange(0, 7) == "Bearer "@ {
        Some(h.skip(7))
    } else {
        None
    }
}

impl BearerSession {
    /// Validates a bearer header: the access token must decode, and its
    /// user must still exist; a token for a deleted user is rejected, not
    /// treated as anonymous.
    pub fn resolve(
        codecs: &OAuth2Codecs,
        users: &UserStore,
        authorization_header: &str,
        now: i64,
    ) -> (r: Result<BearerSession, String>)
        ensures
            match bearer_token(authorization_header@) {
                None => r matches Err(m) && m@ == "missing bearer authentication header"@,
                Some(tok) => match decode_spec(codecs.jwt_access@, tok, now as int) {
                    Ok(TokenClaimsView::Access(a)) => match find_user_by_id(users@, a.user) {
                        None => r matches Err(m) && m@
                            == "authentication successful but user not in database"@,
                        Some(u) => r matches Ok(bs) && bs.user@ == u && bs.scopes@ == a.scopes,
                    },
                    _ => r matches Err(m) && m@ == "cannot validate access token"@,
                },
            },
    {
        let len = authorization_header.unicode_len();
        let prefix: Vec<char> = vec!['B', 'e', 'a', 'r', 'e', 'r', ' '];
        proof {
            reveal_strlit("Bearer ");
            assert(prefix@ =~= "Bearer "@);
        }
        if len < 7 {
            let mut m = String::new();
            m.append("missing bearer authentication header");
            return Err(m);
        }
        let mut k: usize = 0;
        while k < 7
            invariant
                k <= 7,
                7 <= len == authorization_header@.len(),
                prefix@ == "Bearer "@,
                prefix@.len() == 7,
                forall|t: int| 0 <= t < k ==> authorization_header@[t] == "Bearer "@[t],
            decreases 7 - k,
        {
            if authorization_header.get_char(k) != prefix[k] {
                proof {
                    assert(authorization_header@.subrange(0, 7)[k as int] != "Bearer "@[k as int]);
                }
                let mut m = String::new();
                m.append("missing bearer authentication header");
                return Err(m);
            }
            k = k + 1;
        }
        proof {
            assert(authorization_header@.subrange(0, 7) =~= "Bearer "@);
        }
        let bearer = authorization_header.substring_char(7, len);
        proof {
            assert(bearer@ =~= authorization_header@.skip(7));
        }
        let access = match codecs.jwt_access.decode(bearer, now) {
            Ok(TokenClaims::Access(a)) => a,
            Ok(_) => {
                let mut m = String::new();
                m.append("cannot validate access token");
                return Err(m);
            },
            Err(_) => {
                let mut m = String::new();
                m.append("cannot validate access token");
                return Err(m);
            },
        };
        match users.find_by_id(access.user) {
            Some(user) => Ok(BearerSession { user, scopes: access.scopes }),
            None => {
                let mut m = String::new();
                m.append("authentication successful but user not in database");
                Err(m)
            },
        }
    }
}

/// What the userinfo endpoint releases.
pub struct UserInfo {
    pub sub: UserId,
    pub name: String,
    pub email: Option<String>,
}

/// The profile a bearer session may read: the email is released only when
/// the token's scopes include it.
pub fn userinfo(session: BearerSession) -> (r: UserInfo)
    ensures
        r.sub == session.user.id,
        r.name@ == session.user.username@,
        match r.email {
            Some(e) => session.user.email == Some(e) && session.scopes@.contains(
                OAuth2Scope::Email,
            ),
            None => session.user.email is None || !session.scopes@.contains(OAuth2Scope::Email),
        },
{
    let BearerSession { user, scopes } = session;
    let email = if scopes.contains(OAuth2Scope::Email) {
        user.email
    } else {
        None
    };
    UserInfo { sub: user.id, name: user.username, email }
}

} // verus!
