//! Creation and validation of compact signed, expiring tokens.
//!
//! A token is `header.payload.signature`: a fixed header, a payload of
//! fixed-width hex fields and length-prefixed text fields, and an HMAC
//! signature of everything before it, base64 url-safe encoded. One codec
//! instance serves one purpose, with its own issuer, lifetime and key; the
//! signature is checked before any embedded field is trusted.

use vstd::prelude::*;

use crate::hex::{
    all_hex, hex_of, lemma_hex_of_len, lemma_hex_value_bound, lemma_parse_hex_at,
    lemma_pow16_values, parse_hex_at, pow16, push_hex, push_str_range, read_hex,
};
use crate::id::{UserAppId, UserId};
use crate::model::scopes::{parse_scopes, scopes_text, OAuth2Scope, OAuth2Scopes};

verus! {

/// Why a token failed to validate.
#[derive(Clone, Copy, Debug, PartialEq, Eq, Structural)]
pub enum JWTValidationError {
    /// The signature, or the token's whole shape, is not the codec's.
    InvalidSignature,
    /// The token is genuine but was minted for another purpose.
    InvalidIssuer,
    /// The token is genuine but its lifetime has passed.
    Expired,
}

/// The claims carried by an authorization code: who may exchange it, for
/// whom it was issued, what was granted, and where it may be redeemed.
pub struct AuthorizeState {
    pub client: UserAppId,
    pub user: UserId,
    /// Scopes granted by the user; tokens issued from this code can carry
    /// at most these.
    pub initial_scopes: OAuth2Scopes,
    pub redirect_uri: String,
}

/// The claims carried by an access token.
pub struct AccessState {
    pub client: UserAppId,
    pub user: UserId,
    pub scopes: OAuth2Scopes,
}

/// The claims carried by a federated identity assertion: the external
/// subject and its display name.
pub struct Claims {
    /// Subject (external account id).
    pub sub: u64,
    /// External user name, for the initial account name.
    pub name: String,
}

/// A claims payload, one variant per purpose.
pub enum TokenClaims {
    Authorize(AuthorizeState),
    Access(AccessState),
    Identity(Claims),
}

pub ghost struct AuthorizeStateView {
    pub client: u128,
    pub user: u128,
    pub initial_scopes: Set<OAuth2Scope>,
    pub redirect_uri: Seq<char>,
}

pub ghost struct AccessStateView {
    pub client: u128,
    pub user: u128,
    pub scopes: Set<OAuth2Scope>,
}

pub ghost struct ClaimsView {
    pub sub: u64,
    pub name: Seq<char>,
}

pub ghost enum TokenClaimsView {
    Authorize(AuthorizeStateView),
    Access(AccessStateView),
    Identity(ClaimsView),
}

impl View for AuthorizeState {
    type V = AuthorizeStateView;

    open spec fn view(&self) -> AuthorizeStateView {
        AuthorizeStateView {
            client: self.client.value,
            user: self.user.value,
            initial_scopes: self.initial_scopes@,
            redirect_uri: self.redirect_uri@,
        }
    }
}

impl View for AccessState {
    type V = AccessStateView;

    open spec fn view(&self) -> AccessStateView {
        AccessStateView {
            client: self.client.value,
            user: self.user.value,
            scopes: self.scopes@,
        }
    }
}

impl View for Claims {
    type V = ClaimsView;

    open spec fn view(&self) -> ClaimsView {
        ClaimsView { sub: self.sub, name: self.name@ }
    }
}

impl View for TokenClaims {
    type V = TokenClaimsView;

    open spec fn view(&self) -> TokenClaimsView {
        match self {
            TokenClaims::Authorize(a) => TokenClaimsView::Authorize(a@),
            TokenClaims::Access(a) => TokenClaimsView::Access(a@),
            TokenClaims::Identity(c) => TokenClaimsView::Identity(c@),
        }
    }
}

/// A text field on the wire: its length as 16 hex digits, then its characters.
pub open spec fn field_of(s: Seq<char>) -> Seq<char> {
    hex_of(s.len(), 16) + s
}

/// The wire form of a claims payload, after a two-digit purpose tag.
pub open spec fn claims_chars(c: TokenClaimsView) -> Seq<char> {
    match c {
        TokenClaimsView::Authorize(a) => hex_of(0, 2) + hex_of(a.client as nat, 32) + hex_of(
            a.user as nat,
            32,
        ) + field_of(scopes_text(a.initial_scopes)) + field_of(a.redirect_uri),
        TokenClaimsView::Access(a) => hex_of(1, 2) + hex_of(a.client as nat, 32) + hex_of(
            a.user as nat,
            32,
        ) + field_of(scopes_text(a.scopes)),
        TokenClaimsView::Identity(i) => hex_of(2, 2) + hex_of(i.sub as nat, 16) + field_of(i.name),
    }
}

/// The whole payload: issuer, issued-at, expiration, then the claims.
pub open spec fn payload_of(issuer: Seq<char>, iat: int, exp: int, c: TokenClaimsView) -> Seq<
    char,
> {
    field_of(issuer) + hex_of(iat as nat, 16) + hex_of(exp as nat, 16) + claims_chars(c)
}

/// Everything a payload carries.
pub ghost struct PayloadView {
    pub issuer: Seq<char>,
    pub iat: int,
    pub exp: int,
    pub claims: TokenClaimsView,
}

/// Reading one text field at position `i`.
pub open spec fn parse_field(s: Seq<char>, i: int) -> Option<(Seq<char>, int)> {
    match parse_hex_at(s, i, 16) {
        Some(l) => if i + 16 + l <= s.len() {
            Some((s.subrange(i + 16, i + 16 + l), i + 16 + l))
        } else {
            None
        },
        None => None,
    }
}

/// Reading the claims, tag first, at position `i`.
pub open spec fn parse_claims_at(s: Seq<char>, i: int) -> Option<(TokenClaimsView, int)> {
    match parse_hex_at(s, i, 2) {
        None => None,
        Some(tag) => if tag == 0 {
            match parse_hex_at(s, i + 2, 32) {
                None => None,
                Some(client) => match parse_hex_at(s, i + 34, 32) {
                    None => None,
                    Some(user) => match parse_field(s, i + 66) {
                        None => None,
                        Some((sc, p)) => match parse_scopes(sc) {
                            None => None,
                            Some(scopes) => match parse_field(s, p) {
                                None => None,
                                Some((uri, p2)) => Some(
                                    (
                                        TokenClaimsView::Authorize(
                                            AuthorizeStateView {
                                                client: client as u128,
                                                user: user as u128,
                                                initial_scopes: scopes,
                                                redirect_uri: uri,
                                            },
                                        ),
                                        p2,
                                    ),
                                ),
                            },
                        },
                    },
                },
            }
        } else if tag == 1 {
            match parse_hex_at(s, i + 2, 32) {
                None => None,
                Some(client) => match parse_hex_at(s, i + 34, 32) {
                    None => None,
                    Some(user) => match parse_field(s, i + 66) {
                        None => None,
                        Some((sc, p)) => match parse_scopes(sc) {
                            None => None,
                            Some(scopes) => Some(
                                (
                                    TokenClaimsView::Access(
                                        AccessStateView {
                                            client: client as u128,
                                            user: user as u128,
                                            scopes: scopes,
                                        },
                                    ),
                                    p,
                                ),
                            ),
                        },
                    },
                },
            }
        } else if tag == 2 {
            match parse_hex_at(s, i + 2, 16) {
                None => None,
                Some(sub) => match parse_field(s, i + 18) {
                    None => None,
                    Some((name, p)) => Some(
                        (TokenClaimsView::Identity(ClaimsView { sub: sub as u64, name: name }), p),
                    ),
                },
            }
        } else {
            None
        },
    }
}

/// Reading a whole payload; the text must be consumed exactly.
pub open spec fn parse_payload(s: Seq<char>) -> Option<PayloadView> {
    match parse_field(s, 0) {
        None => None,
        Some((issuer, p1)) => match parse_hex_at(s, p1, 16) {
            None => None,
            Some(iat) => if iat > i64::MAX {
                None
            } else {
                match parse_hex_at(s, p1 + 16, 16) {
                    None => None,
                    Some(exp) => if exp > i64::MAX {
                        None
                    } else {
                        match parse_claims_at(s, p1 + 32) {
                            None => None,
                            Some((claims, p2)) => if p2 == s.len() {
                                Some(
                                    PayloadView {
                                        issuer: issuer,
                                        iat: iat as int,
                                        exp: exp as int,
                                        claims: claims,
                                    },
                                )
                            } else {
                                None
                            },
                        }
                    },
                }
            },
        },
    }
}

/// Appends one text field to the wire form.
fn push_field(out: &mut Vec<char>, s: &str)
    ensures
        final(out)@ == old(out)@ + field_of(s@),
        s@.len() < pow16(16),
{
    let len = s.unicode_len();
    proof {
        lemma_pow16_values();
        assert((len as nat) < pow16(16));
    }
    push_hex(out, len as u128, 16);
    push_str_range(out, s, 0, len);
}

/// Appends the claims, tag first.
fn push_claims(out: &mut Vec<char>, c: &TokenClaims)
    ensures
        final(out)@ == old(out)@ + claims_chars(c@),
        claims_wf(c@),
{
    proof {
        lemma_pow16_values();
    }
    match c {
        TokenClaims::Authorize(a) => {
            push_hex(out, 0, 2);
            push_hex(out, a.client.value, 32);
            push_hex(out, a.user.value, 32);
            let sc = a.initial_scopes.to_text();
            push_field(out, sc.as_str());
            push_field(out, a.redirect_uri.as_str());
        },
        TokenClaims::Access(a) => {
            push_hex(out, 1, 2);
            push_hex(out, a.client.value, 32);
            push_hex(out, a.user.value, 32);
            let sc = a.scopes.to_text();
            push_field(out, sc.as_str());
        },
        TokenClaims::Identity(i) => {
            push_hex(out, 2, 2);
            push_hex(out, i.sub as u128, 16);
            push_field(out, i.name.as_str());
        },
    }
}

/// Builds the payload for the given wrapper fields and claims.
fn build_payload(issuer: &str, iat: i64, exp: i64, c: &TokenClaims) -> (r: Vec<char>)
    requires
        0 <= iat,
        0 <= exp,
    ensures
        r@ == payload_of(issuer@, iat as int, exp as int, c@),
        issuer@.len() < pow16(16),
        claims_wf(c@),
{
    proof {
        lemma_pow16_values();
    }
    let mut out: Vec<char> = Vec::new();
    push_field(&mut out, issuer);
    push_hex(&mut out, iat as u128, 16);
    push_hex(&mut out, exp as u128, 16);
    push_claims(&mut out, c);
    out
}

/// Reads one text field at position `i`, as `parse_field` does.
fn read_field(s: &str, len: usize, i: usize) -> (r: Option<(String, usize)>)
    requires
        len == s@.len(),
        i <= len,
    ensures
        match r {
            Some((f, p)) => parse_field(s@, i as int) == Some((f@, p as int)) && i < p <= len,
            None => parse_field(s@, i as int) is None,
        },
{
    if i > usize::MAX - 16 || i + 16 > len {
        return None;
    }
    match read_hex(s, i, 16) {
        None => None,
        Some(l) => {
            proof {
                lemma_pow16_values();
                assert(all_hex(s@.subrange(i as int, i + 16)));
                lemma_hex_value_bound(s@.subrange(i as int, i + 16));
            }
            if l > (len - i - 16) as u128 {
                return None;
            }
            let l_us: usize = l as usize;
            let f = s.substring_char(i + 16, i + 16 + l_us).to_owned();
            Some((f, i + 16 + l_us))
        },
    }
}

/// Reads the claims at position `i`, as `parse_claims_at` does.
fn read_claims(s: &str, len: usize, i: usize) -> (r: Option<(TokenClaims, usize)>)
    requires
        len == s@.len(),
        i <= len,
    ensures
        match r {
            Some((c, p)) => parse_claims_at(s@, i as int) == Some((c@, p as int)) && p <= len,
            None => parse_claims_at(s@, i as int) is None,
        },
{
    proof {
        lemma_pow16_values();
    }
    if i > usize::MAX - 2 || i + 2 > len {
        return None;
    }
    let tag = match read_hex(s, i, 2) {
        None => {
            return None;
        },
        Some(t) => t,
    };
    if tag == 0 {
        if i > usize::MAX - 66 || i + 66 > len {
            return None;
        }
        let client = match read_hex(s, i + 2, 32) {
            None => {
                return None;
            },
            Some(x) => x,
        };
        let user = match read_hex(s, i + 34, 32) {
            None => {
                return None;
            },
            Some(x) => x,
        };
        let (sc, p) = match read_field(s, len, i + 66) {
            None => {
                return None;
            },
            Some(x) => x,
        };
        let scopes = match OAuth2Scopes::from_str(sc.as_str()) {
            Err(_) => {
                return None;
            },
            Ok(x) => x,
        };
        let (uri, p2) = match read_field(s, len, p) {
            None => {
                return None;
            },
            Some(x) => x,
        };
        Some(
            (
                TokenClaims::Authorize(
                    AuthorizeState {
                        client: UserAppId { value: client },
                        user: UserId { value: user },
                        initial_scopes: scopes,
                        redirect_uri: uri,
                    },
                ),
                p2,
            ),
        )
    } else if tag == 1 {
        if i > usize::MAX - 66 || i + 66 > len {
            return None;
        }
        let client = match read_hex(s, i + 2, 32) {
            None => {
                return None;
            },
            Some(x) => x,
        };
        let user = match read_hex(s, i + 34, 32) {
            None => {
                return None;
            },
            Some(x) => x,
        };
        let (sc, p) = match read_field(s, len, i + 66) {
            None => {
                return None;
            },
            Some(x) => x,
        };
        let scopes = match OAuth2Scopes::from_str(sc.as_str()) {
            Err(_) => {
                return None;
            },
            Ok(x) => x,
        };
        Some(
            (
                TokenClaims::Access(
                    AccessState {
                        client: UserAppId { value: client },
                        user: UserId { value: user },
                        scopes: scopes,
                    },
                ),
                p,
            ),
        )
    } else if tag == 2 {
        if i > usize::MAX - 18 || i + 18 > len {
            return None;
        }
        let sub = match read_hex(s, i + 2, 16) {
            None => {
                return None;
            },
            Some(x) => x,
        };
        proof {
            assert(all_hex(s@.subrange(i + 2, i + 18)));
            lemma_hex_value_bound(s@.subrange(i + 2, i + 18));
        }
        let (name, p) = match read_field(s, len, i + 18) {
            None => {
                return None;
            },
            Some(x) => x,
        };
        Some((TokenClaims::Identity(Claims { sub: sub as u64, name: name }), p))
    } else {
        None
    }
}

/// Reads a whole payload, as `parse_payload` does.
fn read_payload(s: &str) -> (r: Option<(String, i64, i64, TokenClaims)>)
    ensures
        match r {
            Some((issuer, iat, exp, c)) => parse_payload(s@) == Some(
                PayloadView { issuer: issuer@, iat: iat as int, exp: exp as int, claims: c@ },
            ),
            None => parse_payload(s@) is None,
        },
{
    let len = s.unicode_len();
    let (issuer, p1) = match read_field(s, len, 0) {
        None => {
            return None;
        },
        Some(x) => x,
    };
    if p1 > usize::MAX - 32 || p1 + 32 > len {
        return None;
    }
    let iat = match read_hex(s, p1, 16) {
        None => {
            return None;
        },
        Some(x) => x,
    };
    if iat > i64::MAX as u128 {
        return None;
    }
    let exp = match read_hex(s, p1 + 16, 16) {
        None => {
            return None;
        },
        Some(x) => x,
    };
    if exp > i64::MAX as u128 {
        return None;
    }
    let (claims, p2) = match read_claims(s, len, p1 + 32) {
        None => {
            return None;
        },
        Some(x) => x,
    };
    if p2 != len {
        return None;
    }
    Some((issuer, iat as i64, exp as i64, claims))
}

/// The payload can be rebuilt exactly when its text fields fit their
/// length prefixes, which machine strings always do.
pub open spec fn claims_wf(c: TokenClaimsView) -> bool {
    match c {
        TokenClaimsView::Authorize(a) => a.redirect_uri.len() < pow16(16),
        TokenClaimsView::Access(_) => true,
        TokenClaimsView::Identity(i) => i.name.len() < pow16(16),
    }
}

/// A window of `s` known equal to `cc` has matching sub-windows.
proof fn lemma_subrange_shift(s: Seq<char>, i: int, cc: Seq<char>, a: int, b: int)
    requires
        0 <= i,
        i + cc.len() <= s.len(),
        s.subrange(i, i + cc.len() as int) == cc,
        0 <= a <= b <= cc.len(),
    ensures
        s.subrange(i + a, i + b) =~= cc.subrange(a, b),
{
    assert forall|k: int| 0 <= k < b - a implies s.subrange(i + a, i + b)[k] == cc.subrange(
        a,
        b,
    )[k] by {
        assert(s.subrange(i, i + cc.len() as int)[a + k] == cc[a + k]);
        assert(s.subrange(i + a, i + b)[k] == s[i + a + k]);
        assert(s.subrange(i, i + cc.len() as int)[a + k] == s[i + a + k]);
    }
}

/// A text field embedded in a larger string parses back to itself.
proof fn lemma_parse_field_embed(s: Seq<char>, i: int, f: Seq<char>)
    requires
        0 <= i,
        i + 16 + f.len() <= s.len(),
        s.subrange(i, i + 16) =~= hex_of(f.len(), 16),
        s.subrange(i + 16, i + 16 + f.len()) =~= f,
        f.len() < pow16(16),
    ensures
        parse_field(s, i) == Some((f, i + 16 + f.len() as int)),
{
    lemma_parse_hex_at(s, i, f.len(), 16);
}

/// The canonical text of a scope set is short.
proof fn lemma_scopes_text_len(set: Set<OAuth2Scope>)
    ensures
        scopes_text(set).len() <= 15,
{
}

/// Claims embedded in a larger string parse back to themselves.
proof fn lemma_parse_claims_embed(s: Seq<char>, i: int, c: TokenClaimsView)
    requires
        0 <= i,
        claims_wf(c),
        i + claims_chars(c).len() <= s.len(),
        s.subrange(i, i + claims_chars(c).len()) =~= claims_chars(c),
    ensures
        parse_claims_at(s, i) == Some((c, i + claims_chars(c).len() as int)),
{
    lemma_pow16_values();
    let cc = claims_chars(c);
    match c {
        TokenClaimsView::Authorize(a) => {
            let sct = scopes_text(a.initial_scopes);
            lemma_scopes_text_len(a.initial_scopes);
            lemma_hex_of_len(0, 2);
            lemma_hex_of_len(a.client as nat, 32);
            lemma_hex_of_len(a.user as nat, 32);
            lemma_hex_of_len(sct.len(), 16);
            lemma_hex_of_len(a.redirect_uri.len(), 16);
            assert(cc.len() == 66 + 16 + sct.len() + 16 + a.redirect_uri.len());
            let sl = sct.len() as int;
            let ul = a.redirect_uri.len() as int;
            assert(cc.subrange(0, 2) =~= hex_of(0, 2));
            lemma_subrange_shift(s, i, cc, 0, 2);
            lemma_parse_hex_at(s, i, 0, 2);
            assert(cc.subrange(2, 34) =~= hex_of(a.client as nat, 32));
            lemma_subrange_shift(s, i, cc, 2, 34);
            lemma_parse_hex_at(s, i + 2, a.client as nat, 32);
            assert(cc.subrange(34, 66) =~= hex_of(a.user as nat, 32));
            lemma_subrange_shift(s, i, cc, 34, 66);
            lemma_parse_hex_at(s, i + 34, a.user as nat, 32);
            assert(cc.subrange(66, 82) =~= hex_of(sct.len(), 16));
            lemma_subrange_shift(s, i, cc, 66, 82);
            assert(cc.subrange(82, 82 + sl) =~= sct);
            lemma_subrange_shift(s, i, cc, 82, 82 + sl);
            lemma_parse_field_embed(s, i + 66, sct);
            crate::model::scopes::lemma_scopes_round_trip(a.initial_scopes);
            let p = i + 82 + sl;
            assert(cc.subrange(82 + sl, 98 + sl) =~= hex_of(a.redirect_uri.len(), 16));
            lemma_subrange_shift(s, i, cc, 82 + sl, 98 + sl);
            assert(cc.subrange(98 + sl, 98 + sl + ul) =~= a.redirect_uri);
            lemma_subrange_shift(s, i, cc, 98 + sl, 98 + sl + ul);
            lemma_parse_field_embed(s, p, a.redirect_uri);
            assert((a.client as nat) as u128 == a.client);
            assert((a.user as nat) as u128 == a.user);
        },
        TokenClaimsView::Access(a) => {
            let sct = scopes_text(a.scopes);
            lemma_scopes_text_len(a.scopes);
            lemma_hex_of_len(1, 2);
            lemma_hex_of_len(a.client as nat, 32);
            lemma_hex_of_len(a.user as nat, 32);
            lemma_hex_of_len(sct.len(), 16);
            assert(cc.len() == 66 + 16 + sct.len());
            let sl = sct.len() as int;
            assert(cc.subrange(0, 2) =~= hex_of(1, 2));
            lemma_subrange_shift(s, i, cc, 0, 2);
            lemma_parse_hex_at(s, i, 1, 2);
            assert(cc.subrange(2, 34) =~= hex_of(a.client as nat, 32));
            lemma_subrange_shift(s, i, cc, 2, 34);
            lemma_parse_hex_at(s, i + 2, a.client as nat, 32);
            assert(cc.subrange(34, 66) =~= hex_of(a.user as nat, 32));
            lemma_subrange_shift(s, i, cc, 34, 66);
            lemma_parse_hex_at(s, i + 34, a.user as nat, 32);
            assert(cc.subrange(66, 82) =~= hex_of(sct.len(), 16));
            lemma_subrange_shift(s, i, cc, 66, 82);
            assert(cc.subrange(82, 82 + sl) =~= sct);
            lemma_subrange_shift(s, i, cc, 82, 82 + sl);
            lemma_parse_field_embed(s, i + 66, sct);
            crate::model::scopes::lemma_scopes_round_trip(a.scopes);
            assert((a.client as nat) as u128 == a.client);
            assert((a.user as nat) as u128 == a.user);
        },
        TokenClaimsView::Identity(idv) => {
            lemma_hex_of_len(2, 2);
            lemma_hex_of_len(idv.sub as nat, 16);
            lemma_hex_of_len(idv.name.len(), 16);
            assert(cc.len() == 18 + 16 + idv.name.len());
            let nl = idv.name.len() as int;
            assert(cc.subrange(0, 2) =~= hex_of(2, 2));
            lemma_subrange_shift(s, i, cc, 0, 2);
            lemma_parse_hex_at(s, i, 2, 2);
            assert(cc.subrange(2, 18) =~= hex_of(idv.sub as nat, 16));
            lemma_subrange_shift(s, i, cc, 2, 18);
            lemma_parse_hex_at(s, i + 2, idv.sub as nat, 16);
            assert(cc.subrange(18, 34) =~= hex_of(idv.name.len(), 16));
            lemma_subrange_shift(s, i, cc, 18, 34);
            assert(cc.subrange(34, 34 + nl) =~= idv.name);
            lemma_subrange_shift(s, i, cc, 34, 34 + nl);
            lemma_parse_field_embed(s, i + 18, idv.name);
            assert((idv.sub as nat) as u64 == idv.sub);
        },
    }
}

/// A payload built by the codec parses back to exactly its parts.
pub proof fn lemma_payload_round_trip(issuer: Seq<char>, iat: int, exp: int, c: TokenClaimsView)
    requires
        0 <= iat <= i64::MAX,
        0 <= exp <= i64::MAX,
        issuer.len() < pow16(16),
        claims_wf(c),
    ensures
        parse_payload(payload_of(issuer, iat, exp, c)) == Some(
            PayloadView { issuer: issuer, iat: iat, exp: exp, claims: c },
        ),
{
    lemma_pow16_values();
    let s = payload_of(issuer, iat, exp, c);
    lemma_hex_of_len(issuer.len(), 16);
    lemma_hex_of_len(iat as nat, 16);
    lemma_hex_of_len(exp as nat, 16);
    assert(s.len() == 16 + issuer.len() + 32 + claims_chars(c).len());
    assert(s.subrange(0, 16) =~= hex_of(issuer.len(), 16));
    assert(s.subrange(16, 16 + issuer.len() as int) =~= issuer);
    lemma_parse_field_embed(s, 0, issuer);
    let p1 = 16 + issuer.len() as int;
    assert(s.subrange(p1, p1 + 16) =~= hex_of(iat as nat, 16));
    lemma_parse_hex_at(s, p1, iat as nat, 16);
    assert(s.subrange(p1 + 16, p1 + 32) =~= hex_of(exp as nat, 16));
    lemma_parse_hex_at(s, p1 + 16, exp as nat, 16);
    assert(s.subrange(p1 + 32, p1 + 32 + claims_chars(c).len()) =~= claims_chars(c));
    lemma_parse_claims_embed(s, p1 + 32, c);
}

/// The fixed token header; the dot after it separates it from the payload.
pub open spec fn prefix_text() -> Seq<char> {
    seq!['w', 'a', 'r', 't', 'i', 'd', '1', '.']
}

/// What is signed: the header and the payload.
pub open spec fn msg_of(payload: Seq<char>) -> Seq<char> {
    prefix_text() + payload
}

/// The base64 url-safe HMAC-SHA256 signature jsonwebtoken computes for a
/// key and message: a function of the two alone.
pub uninterp spec fn hmac_b64_of(key: Seq<u8>, msg: Seq<char>) -> Seq<char>;

/// Relies on jsonwebtoken's `crypto::sign` with HS256: the signature is a
/// deterministic function of key bytes and message bytes, returned base64
/// url-safe encoded, so it never holds a '.'. HMAC signing cannot fail for
/// a key made by `EncodingKey::from_secret`.
#[verifier::external_body]
fn hmac_sign(key: &Vec<u8>, msg: &str) -> (r: String)
    ensures
        r@ == hmac_b64_of(key@, msg@),
        forall|i: int| 0 <= i < r@.len() ==> r@[i] != '.',
{
    let k = jsonwebtoken::EncodingKey::from_secret(key.as_slice());
    jsonwebtoken::crypto::sign(msg.as_bytes(), &k, jsonwebtoken::Algorithm::HS256).expect(
        "HMAC signing cannot fail",
    )
}

/// Relies on jsonwebtoken's `crypto::verify` with HS256: it recomputes the
/// signature of the message and compares in constant time. A signature
/// that cannot be base64-decoded makes it return an error, and such a
/// string is never the encoder's output, so mapping the error to `false`
/// keeps the stated equivalence.
#[verifier::external_body]
fn hmac_verify(key: &Vec<u8>, msg: &str, sig: &str) -> (r: bool)
    ensures
        r == (sig@ == hmac_b64_of(key@, msg@)),
{
    let k = jsonwebtoken::DecodingKey::from_secret(key.as_slice());
    jsonwebtoken::crypto::verify(sig, msg.as_bytes(), &k, jsonwebtoken::Algorithm::HS256)
        .unwrap_or(false)
}

/// Everything a codec instance is configured with.
pub ghost struct JWTView {
    pub issuer: Seq<char>,
    pub duration: int,
    pub key: Seq<u8>,
}

/// Utility structure to create and validate/decode signed tokens.
///
/// It wraps a random key initialized upon creation; one instance serves
/// one purpose, named by its issuer.
pub struct JWT {
    issuer: String,
    duration_seconds: i64,
    key: Vec<u8>,
}

impl View for JWT {
    type V = JWTView;

    closed spec fn view(&self) -> JWTView {
        JWTView {
            issuer: self.issuer@,
            duration: self.duration_seconds as int,
            key: self.key@,
        }
    }
}

/// The token a codec mints for given claims at a given time.
pub open spec fn token_of(cv: JWTView, claims: TokenClaimsView, now: int) -> Seq<char> {
    let msg = msg_of(payload_of(cv.issuer, now, now + cv.duration, claims));
    msg + seq!['.'] + hmac_b64_of(cv.key, msg)
}

/// The position of the last '.' of `s`, or -1 if there is none.
pub open spec fn last_dot(s: Seq<char>) -> int
    decreases s.len(),
{
    if s.len() == 0 {
        -1
    } else if s.last() == '.' {
        s.len() - 1
    } else {
        last_dot(s.drop_last())
    }
}

proof fn lemma_last_dot_none(s: Seq<char>)
    requires
        forall|k: int| 0 <= k < s.len() ==> s[k] != '.',
    ensures
        last_dot(s) == -1,
    decreases s.len(),
{
    if s.len() > 0 {
        assert(forall|k: int| 0 <= k < s.len() - 1 ==> #[trigger] s.drop_last()[k] == s[k]);
        lemma_last_dot_none(s.drop_last());
    }
}

proof fn lemma_last_dot_at(s: Seq<char>, i: int)
    requires
        0 <= i < s.len(),
        s[i] == '.',
        forall|k: int| i < k < s.len() ==> s[k] != '.',
    ensures
        last_dot(s) == i,
    decreases s.len(),
{
    if i == s.len() - 1 {
    } else {
        assert(s.last() != '.');
        assert(forall|k: int| 0 <= k < s.len() - 1 ==> #[trigger] s.drop_last()[k] == s[k]);
        lemma_last_dot_at(s.drop_last(), i);
    }
}

/// What decoding yields: the claims, if the token is the codec's own and
/// not expired; the exact error otherwise. The signature is checked
/// before any embedded field is read.
pub open spec fn decode_spec(cv: JWTView, token: Seq<char>, now: int) -> Result<
    TokenClaimsView,
    JWTValidationError,
> {
    let ld = last_dot(token);
    if ld < 8 || token.subrange(0, 8) != prefix_text() {
        Err(JWTValidationError::InvalidSignature)
    } else {
        let msg = token.subrange(0, ld);
        let sig = token.subrange(ld + 1, token.len() as int);
        if sig != hmac_b64_of(cv.key, msg) {
            Err(JWTValidationError::InvalidSignature)
        } else {
            match parse_payload(token.subrange(8, ld)) {
                None => Err(JWTValidationError::InvalidSignature),
                Some(p) => if p.issuer != cv.issuer {
                    Err(JWTValidationError::InvalidIssuer)
                } else if now > p.exp {
                    Err(JWTValidationError::Expired)
                } else {
                    Ok(p.claims)
                },
            }
        }
    }
}

impl JWT {
    /// A fresh codec for one purpose: its own random key, issuer and
    /// validity duration.
    pub fn new(issuer: &str, duration_seconds: i64) -> (r: JWT)
        requires
            0 <= duration_seconds,
        ensures
            r@.issuer == issuer@,
            r@.duration == duration_seconds as int,
    {
        JWT {
            issuer: issuer.to_owned(),
            duration_seconds: duration_seconds,
            key: crate::utils::random_key_bytes(),
        }
    }

    /// A codec over a key provided by the caller, for a purpose whose key
    /// outlives the process: two instances built over the same key accept
    /// each other's tokens.
    pub fn from_key(issuer: &str, duration_seconds: i64, key: Vec<u8>) -> (r: JWT)
        requires
            0 <= duration_seconds,
        ensures
            r@.issuer == issuer@,
            r@.duration == duration_seconds as int,
            r@.key == key@,
    {
        JWT { issuer: issuer.to_owned(), duration_seconds: duration_seconds, key: key }
    }

    /// The number of seconds a minted token stays valid.
    pub fn duration_seconds(&self) -> (r: i64)
        ensures
            r as int == self@.duration,
    {
        self.duration_seconds
    }

    /// Wraps the claims with this codec's issuer, the time of issue and
    /// the expiration, and signs them.
    ///
    /// The contract carries the laws of the codec, stated against
    /// [`decode_spec`], which is exactly what [`JWT::decode`] returns:
    /// decoding a minted token with the same codec within its lifetime
    /// gives back the claims; after the lifetime it fails with `Expired`
    /// and nothing else; and a codec with any other issuer never decodes
    /// it successfully, whatever its key.
    pub fn encode(&self, claims: &TokenClaims, now: i64) -> (r: String)
        requires
            0 <= now,
            0 <= self@.duration,
            now + self@.duration <= i64::MAX,
        ensures
            r@ == token_of(self@, claims@, now as int),
            forall|t: i64|
                now <= t <= now + self@.duration ==> decode_spec(self@, r@, t as int) == Ok::<
                    TokenClaimsView,
                    JWTValidationError,
                >(claims@),
            forall|t: i64|
                now + self@.duration < t ==> decode_spec(self@, r@, t as int) == Err::<
                    TokenClaimsView,
                    JWTValidationError,
                >(JWTValidationError::Expired),
            forall|other: JWTView, t: int|
                other.issuer != self@.issuer ==> (#[trigger] decode_spec(other, r@, t)) is Err,
    {
        let exp = now + self.duration_seconds;
        let payload = build_payload(self.issuer.as_str(), now, exp, claims);
        let payload_s = crate::utils::chars_to_string(&payload);
        let mut msg = String::new();
        msg.append("wartid1.");
        msg.append(payload_s.as_str());
        proof {
            reveal_strlit("wartid1.");
            assert("wartid1."@ =~= prefix_text());
            assert(msg@ =~= msg_of(payload@));
        }
        let sig = hmac_sign(&self.key, msg.as_str());
        let mut token = msg;
        token.append(".");
        token.append(sig.as_str());
        proof {
            reveal_strlit(".");
            assert("."@ =~= seq!['.']);
            let pv = payload_of(self@.issuer, now as int, exp as int, claims@);
            let m = msg_of(pv);
            assert(token@ =~= token_of(self@, claims@, now as int));
            let tk = token@;
            let ld = m.len() as int;
            assert(tk[ld] == '.');
            assert(forall|k: int| ld < k < tk.len() ==> #[trigger] tk[k] != '.');
            lemma_last_dot_at(tk, ld);
            assert(tk.subrange(0, 8) =~= prefix_text());
            assert(tk.subrange(0, ld) =~= m);
            assert(tk.subrange(ld + 1, tk.len() as int) =~= hmac_b64_of(self@.key, m));
            assert(tk.subrange(8, ld) =~= pv);
            lemma_payload_round_trip(self@.issuer, now as int, exp as int, claims@);
            assert forall|t: i64| now <= t <= now + self@.duration implies decode_spec(
                self@,
                tk,
                t as int,
            ) == Ok::<TokenClaimsView, JWTValidationError>(claims@) by {}
            assert forall|t: i64| now + self@.duration < t implies decode_spec(self@, tk, t as int)
                == Err::<TokenClaimsView, JWTValidationError>(JWTValidationError::Expired) by {}
            assert forall|other: JWTView, t: int| other.issuer != self@.issuer implies (
            #[trigger] decode_spec(other, tk, t)) is Err by {
                if hmac_b64_of(other.key, m) == tk.subrange(ld + 1, tk.len() as int) {
                    assert(decode_spec(other, tk, t) == Err::<TokenClaimsView, JWTValidationError>(
                        JWTValidationError::InvalidIssuer,
                    ));
                }
            }
        }
        token
    }

    /// Checks the signature, then the issuer, then the expiry, and hands
    /// back the embedded claims; returns exactly what [`decode_spec`]
    /// says for every input.
    pub fn decode(&self, token: &str, now: i64) -> (r: Result<TokenClaims, JWTValidationError>)
        ensures
            match r {
                Ok(c) => decode_spec(self@, token@, now as int) == Ok::<
                    TokenClaimsView,
                    JWTValidationError,
                >(c@),
                Err(e) => decode_spec(self@, token@, now as int) == Err::<
                    TokenClaimsView,
                    JWTValidationError,
                >(e),
            },
    {
        let len = token.unicode_len();
        let mut ld: usize = 0;
        let mut found = false;
        let mut j: usize = 0;
        while j < len
            invariant
                j <= len,
                len == token@.len(),
                found ==> ld < j && token@[ld as int] == '.' && forall|k: int|
                    ld < k < j ==> token@[k] != '.',
                !found ==> forall|k: int| 0 <= k < j ==> token@[k] != '.',
            decreases len - j,
        {
            if token.get_char(j) == '.' {
                ld = j;
                found = true;
            }
            j = j + 1;
        }
        proof {
            if found {
                lemma_last_dot_at(token@, ld as int);
            } else {
                lemma_last_dot_none(token@);
            }
        }
        if !found || ld < 8 {
            return Err(JWTValidationError::InvalidSignature);
        }
        let hdr: Vec<char> = vec!['w', 'a', 'r', 't', 'i', 'd', '1', '.'];
        proof {
            assert(hdr@ =~= prefix_text());
        }
        let mut k: usize = 0;
        while k < 8
            invariant
                k <= 8,
                8 <= ld < len,
                len == token@.len(),
                hdr@ == prefix_text(),
                forall|t: int| 0 <= t < k ==> token@[t] == prefix_text()[t],
            decreases 8 - k,
        {
            if token.get_char(k) != hdr[k] {
                proof {
                    assert(token@.subrange(0, 8)[k as int] != prefix_text()[k as int]);
                }
                return Err(JWTValidationError::InvalidSignature);
            }
            k = k + 1;
        }
        proof {
            assert(token@.subrange(0, 8) =~= prefix_text());
        }
        let msg = token.substring_char(0, ld);
        let sig = token.substring_char(ld + 1, len);
        if !hmac_verify(&self.key, msg, sig) {
            return Err(JWTValidationError::InvalidSignature);
        }
        let payload = token.substring_char(8, ld);
        match read_payload(payload) {
            None => Err(JWTValidationError::InvalidSignature),
            Some((issuer, _iat, exp, claims)) => {
                if !(issuer == self.issuer) {
                    Err(JWTValidationError::InvalidIssuer)
                } else if now > exp {
                    Err(JWTValidationError::Expired)
                } else {
                    Ok(claims)
                }
            },
        }
    }
}

} // verus!
