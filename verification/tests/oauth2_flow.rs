use wartid::model::app::AppStore;
use wartid::model::oauth2session::RefreshSessionStore;
use wartid::model::scopes::{OAuth2Scope, OAuth2Scopes};
use wartid::model::user::{User, UserStore};
use wartid::model::WartIDError;
use wartid::routes::oauth2::{
    authorize, token, userinfo, AuthorizeOutcome, AuthorizeQuery, AuthorizeResponseType,
    BasicAuthorization, BearerSession, GrantType, OAuth2Codecs, TokenQuery, TokenType,
};
use wartid::id::UserAppId;
use wartid::LoginSession;

/// A user, an OAuth2-enabled app with its secret, and the codecs.
fn setup() -> (OAuth2Codecs, AppStore, UserStore, User, UserAppId, String) {
    let codecs = OAuth2Codecs::new();
    let mut users = UserStore::new();
    let user = users.find_or_create_by_discord_id(77, String::from("U")).unwrap();
    let mut apps = AppStore::new();
    let app_id = apps.insert(String::from("A"), false, user.id).unwrap();
    let app = apps.set_oauth(app_id, true).unwrap();
    let (secret, _) = app.oauth2().unwrap();
    apps.set_oauth_redirect_uri(app_id, String::from("https://a.example/cb")).unwrap();
    (codecs, apps, users, user, app_id, secret)
}

fn authorize_query(app_id: UserAppId, scope: &str) -> AuthorizeQuery {
    AuthorizeQuery {
        client_id: app_id,
        redirect_uri: String::from("https://a.example/cb"),
        scope: Some(OAuth2Scopes::from_str(scope).unwrap()),
        response_type: AuthorizeResponseType::Code,
        state: None,
        nonce: None,
    }
}

fn token_query(grant_type: GrantType, code: Option<String>, refresh: Option<String>) -> TokenQuery {
    TokenQuery {
        grant_type,
        code,
        refresh_token: refresh,
        redirect_uri: String::from("https://a.example/cb"),
        scope: None,
        client_id: None,
        client_secret: None,
    }
}

#[test]
fn full_code_exchange() {
    let (codecs, apps, users, user, app_id, secret) = setup();
    let mut store = RefreshSessionStore::new();
    let now = 1_700_000_000;

    let outcome = authorize(
        &codecs,
        &apps,
        Some(&LoginSession { user: user.duplicate() }),
        authorize_query(app_id, "basic"),
        "https://id.example/",
        "/oauth2/authorize",
        now,
    )
    .unwrap();
    let code = match outcome {
        AuthorizeOutcome::Consent(page) => page.code.unwrap(),
        _ => panic!("expected consent"),
    };

    let resp = token(
        &codecs,
        &apps,
        &mut store,
        Some(BasicAuthorization { username: app_id.to_text(), password: secret }),
        token_query(GrantType::AuthorizationCode, Some(code), None),
        now + 5,
    )
    .unwrap();

    assert!(matches!(resp.token_type, TokenType::Bearer));
    assert_eq!(resp.expires_in, 3600);
    assert!(resp.refresh_token.is_some());

    let header = {
        let mut h = String::from("Bearer ");
        h.push_str(&resp.access_token);
        h
    };
    let session = BearerSession::resolve(&codecs, &users, &header, now + 10).unwrap();
    assert!(session.scopes.contains(OAuth2Scope::Basic));
    assert!(!session.scopes.contains(OAuth2Scope::Email));
    let info = userinfo(session);
    assert_eq!(info.sub.value, user.id.value);
    assert_eq!(info.name, "U");
    assert!(info.email.is_none());
}

#[test]
fn email_scope_is_dropped_without_email_on_file() {
    let (codecs, apps, _users, user, app_id, _secret) = setup();
    let now = 1_700_000_000;

    let outcome = authorize(
        &codecs,
        &apps,
        Some(&LoginSession { user }),
        authorize_query(app_id, "email"),
        "https://id.example/",
        "/oauth2/authorize",
        now,
    )
    .unwrap();
    match outcome {
        AuthorizeOutcome::Consent(page) => {
            assert!(page.code.is_some());
            assert!(!page.scopes.contains(OAuth2Scope::Email));
        },
        _ => panic!("expected consent, not an error"),
    }
}

#[test]
fn email_scope_is_kept_with_email_on_file() {
    let (codecs, apps, mut users, user, app_id, secret) = setup();
    let user = users.update_email(user.id, "u@example.org").unwrap();
    let mut store = RefreshSessionStore::new();
    let now = 1_700_000_000;

    let outcome = authorize(
        &codecs,
        &apps,
        Some(&LoginSession { user: user.duplicate() }),
        authorize_query(app_id, "email basic"),
        "https://id.example/",
        "/oauth2/authorize",
        now,
    )
    .unwrap();
    let (code, scopes) = match outcome {
        AuthorizeOutcome::Consent(page) => (page.code.unwrap(), page.scopes),
        _ => panic!("expected consent"),
    };
    assert!(scopes.contains(OAuth2Scope::Email));

    let resp = token(
        &codecs,
        &apps,
        &mut store,
        Some(BasicAuthorization { username: app_id.to_text(), password: secret }),
        token_query(GrantType::AuthorizationCode, Some(code), None),
        now + 1,
    )
    .unwrap();
    let header = {
        let mut h = String::from("Bearer ");
        h.push_str(&resp.access_token);
        h
    };
    let session = BearerSession::resolve(&codecs, &users, &header, now + 2).unwrap();
    let info = userinfo(session);
    assert_eq!(info.email.as_deref(), Some("u@example.org"));
}

#[test]
fn refresh_grant_rejects_foreign_app() {
    let (codecs, mut apps, _users, user, app_a, _secret_a) = setup();
    let mut store = RefreshSessionStore::new();
    let now = 1_700_000_000;

    // A refresh token issued for app A.
    let scopes = OAuth2Scopes::from_str("basic").unwrap();
    let refresh = store.insert_or_refresh(user.id, app_a, &scopes, now).unwrap();

    // App B authenticates and tries to use it.
    let app_b = apps.insert(String::from("B"), false, user.id).unwrap();
    let b = apps.set_oauth(app_b, true).unwrap();
    let (secret_b, _) = b.oauth2().unwrap();

    let err = token(
        &codecs,
        &apps,
        &mut store,
        Some(BasicAuthorization { username: app_b.to_text(), password: secret_b }),
        token_query(GrantType::RefreshToken, None, Some(refresh)),
        now + 5,
    )
    .err()
    .unwrap();
    assert_eq!(err, "Forbidden app");
}

#[test]
fn refresh_grant_returns_original_scopes() {
    let (codecs, apps, _users, user, app_id, secret) = setup();
    let mut store = RefreshSessionStore::new();
    let now = 1_700_000_000;

    let scopes = OAuth2Scopes::from_str("basic email").unwrap();
    let refresh = store.insert_or_refresh(user.id, app_id, &scopes, now).unwrap();

    let resp = token(
        &codecs,
        &apps,
        &mut store,
        Some(BasicAuthorization { username: app_id.to_text(), password: secret }),
        token_query(GrantType::RefreshToken, None, Some(refresh.clone())),
        now + 5,
    )
    .unwrap();
    // The old refresh token was rotated away.
    let rotated = resp.refresh_token.unwrap();
    assert_ne!(rotated, refresh);
    assert!(store.find_by_token(&refresh, now + 6).unwrap().is_none());
    assert!(store.find_by_token(&rotated, now + 6).unwrap().is_some());
}

#[test]
fn token_error_variants() {
    let (codecs, apps, _users, _user, app_id, secret) = setup();
    let mut store = RefreshSessionStore::new();
    let now = 1_700_000_000;

    // Both auth methods at once.
    let mut q = token_query(GrantType::AuthorizationCode, Some(String::from("x")), None);
    q.client_id = Some(app_id.to_text());
    q.client_secret = Some(secret.clone());
    let err = token(
        &codecs,
        &apps,
        &mut store,
        Some(BasicAuthorization { username: app_id.to_text(), password: secret.clone() }),
        q,
        now,
    )
    .err()
    .unwrap();
    assert_eq!(err, "multiple auth methods used simultaneously");

    // Unparseable client id.
    let err = token(
        &codecs,
        &apps,
        &mut store,
        Some(BasicAuthorization { username: String::from("not-a-uuid"), password: secret.clone() }),
        token_query(GrantType::AuthorizationCode, Some(String::from("x")), None),
        now,
    )
    .err()
    .unwrap();
    assert_eq!(err, "cannot parse client uuid");

    // Unknown client id.
    let err = token(
        &codecs,
        &apps,
        &mut store,
        Some(BasicAuthorization {
            username: String::from("00000000-0000-0000-0000-00000000beef"),
            password: secret.clone(),
        }),
        token_query(GrantType::AuthorizationCode, Some(String::from("x")), None),
        now,
    )
    .err()
    .unwrap();
    assert_eq!(err, "unknown client id");

    // Wrong secret.
    let err = token(
        &codecs,
        &apps,
        &mut store,
        Some(BasicAuthorization { username: app_id.to_text(), password: String::from("nope") }),
        token_query(GrantType::AuthorizationCode, Some(String::from("x")), None),
        now,
    )
    .err()
    .unwrap();
    assert_eq!(err, "invalid client secret");

    // Mixed grant fields.
    let err = token(
        &codecs,
        &apps,
        &mut store,
        Some(BasicAuthorization { username: app_id.to_text(), password: secret.clone() }),
        token_query(GrantType::AuthorizationCode, None, Some(String::from("rt"))),
        now,
    )
    .err()
    .unwrap();
    assert!(err.starts_with("authorization_code grant type can only be used with ?code"));

    // A malformed code.
    let err = token(
        &codecs,
        &apps,
        &mut store,
        Some(BasicAuthorization { username: app_id.to_text(), password: secret.clone() }),
        token_query(GrantType::AuthorizationCode, Some(String::from("junk")), None),
        now,
    )
    .err()
    .unwrap();
    assert_eq!(err, "invalid code, might have expired: InvalidSignature");

    // An unknown refresh token.
    let err = token(
        &codecs,
        &apps,
        &mut store,
        Some(BasicAuthorization { username: app_id.to_text(), password: secret }),
        token_query(GrantType::RefreshToken, None, Some(String::from("never-issued"))),
        now,
    )
    .err()
    .unwrap();
    assert_eq!(err, "No session found for this refresh token");
}

#[test]
fn authorize_outcomes() {
    let (codecs, apps, _users, user, app_id, _secret) = setup();
    let now = 1_700_000_000;

    // No session: to the login page, preserving the request.
    match authorize(
        &codecs,
        &apps,
        None,
        authorize_query(app_id, "basic"),
        "https://id.example/",
        "oauth2/authorize?client_id=x",
        now,
    )
    .unwrap()
    {
        AuthorizeOutcome::RedirectToLogin(u) => {
            assert_eq!(u, "https://id.example/oauth2/authorize?client_id=x");
        },
        _ => panic!("expected login redirect"),
    }

    // Unknown client.
    let mut q = authorize_query(app_id, "basic");
    q.client_id = UserAppId { value: 0xdead };
    match authorize(
        &codecs,
        &apps,
        Some(&LoginSession { user: user.duplicate() }),
        q,
        "https://id.example/",
        "/x",
        now,
    ) {
        Err(WartIDError::OAuth2Error(m)) => assert_eq!(m, "client not found"),
        _ => panic!("expected client not found"),
    }

    // Redirect URI not covered by the configured prefix.
    let mut q = authorize_query(app_id, "basic");
    q.redirect_uri = String::from("https://evil.example/cb");
    match authorize(
        &codecs,
        &apps,
        Some(&LoginSession { user: user.duplicate() }),
        q,
        "https://id.example/",
        "/x",
        now,
    ) {
        Err(WartIDError::OAuth2Error(m)) => assert_eq!(m, "redirect uri is not configured"),
        _ => panic!("expected redirect uri error"),
    }

    // The consent view shows the short host form.
    match authorize(
        &codecs,
        &apps,
        Some(&LoginSession { user }),
        authorize_query(app_id, "basic"),
        "https://id.example/",
        "/x",
        now,
    )
    .unwrap()
    {
        AuthorizeOutcome::Consent(page) => {
            assert_eq!(page.redirect_uri_short, "a.example");
        },
        _ => panic!("expected consent"),
    }
}

/// The scope implication rule: the email scope is honored exactly when the
/// user has an email on file, and never makes authorization fail.
#[test]
fn implies_test() {
    let now = 1_700_000_000;
    for requested_email in [true, false] {
        for has_email in [true, false] {
            let (codecs, apps, mut users, mut user, app_id, _secret) = setup();
            if has_email {
                user = users.update_email(user.id, "u@example.org").unwrap();
            }
            let scope = if requested_email { "basic email" } else { "basic" };
            let outcome = authorize(
                &codecs,
                &apps,
                Some(&LoginSession { user }),
                authorize_query(app_id, scope),
                "https://id.example/",
                "/x",
                now,
            )
            .unwrap();
            match outcome {
                AuthorizeOutcome::Consent(page) => {
                    assert!(page.code.is_some());
                    assert_eq!(
                        page.scopes.contains(OAuth2Scope::Email),
                        requested_email && has_email
                    );
                    assert!(page.scopes.contains(OAuth2Scope::Basic));
                },
                _ => panic!("expected consent"),
            }
        }
    }
}

#[test]
fn basic_authorization_header_parses() {
    let auth = BasicAuthorization::from_header("Basic QWxhZGRpbjpvcGVuIHNlc2FtZQ==").unwrap();
    assert_eq!(auth.username, "Aladdin");
    assert_eq!(auth.password, "open sesame");

    assert!(BasicAuthorization::from_header("Bearer xyz").is_err());
    assert!(BasicAuthorization::from_header("Basic !!!").is_err());
    // No colon in the decoded payload.
    assert!(BasicAuthorization::from_header("Basic QWxhZGRpbg==").is_err());
}

#[test]
fn upsert_is_idempotent_per_pair() {
    let (_codecs, _apps, _users, user, app_id, _secret) = setup();
    let mut store = RefreshSessionStore::new();
    let scopes = OAuth2Scopes::from_str("basic").unwrap();
    let now = 1_700_000_000;

    let t1 = store.insert_or_refresh(user.id, app_id, &scopes, now).unwrap();
    let t2 = store.insert_or_refresh(user.id, app_id, &scopes, now + 1).unwrap();

    assert_ne!(t1, t2);
    assert_eq!(store.len(), 1);
    assert!(store.find_by_token(&t1, now + 2).unwrap().is_none());
    assert!(store.find_by_token(&t2, now + 2).unwrap().is_some());
}

#[test]
fn refresh_sessions_expire_at_lookup() {
    let (_codecs, _apps, _users, user, app_id, _secret) = setup();
    let mut store = RefreshSessionStore::new();
    let scopes = OAuth2Scopes::empty();
    let now = 1_000;

    let t = store.insert_or_refresh(user.id, app_id, &scopes, now).unwrap();
    // 180 days, in seconds.
    let lifetime = 15_552_000;
    assert!(store.find_by_token(&t, now + lifetime).unwrap().is_some());
    assert!(store.find_by_token(&t, now + lifetime + 1).unwrap().is_none());
}
