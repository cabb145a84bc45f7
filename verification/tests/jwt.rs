use wartid::discord::{Claims, DiscordAgent, UnauthorizedError};
use wartid::id::{UserAppId, UserId};
use wartid::model::scopes::{OAuth2Scope, OAuth2Scopes};
use wartid::utils::jwt::{
    AccessState, AuthorizeState, JWTValidationError, TokenClaims, JWT,
};

/// Minutes from an arbitrary reference point, as seconds.
fn minutes(m: i64) -> i64 {
    m * 60
}

#[test]
fn expiration() {
    let jwt = JWT::new("test suite", 2 * 60);

    let token = jwt.encode(
        &TokenClaims::Identity(Claims { sub: 0, name: String::from("Patrice") }),
        minutes(0),
    );

    {
        let decoded = jwt.decode(&token, minutes(1)).unwrap();
        match decoded {
            TokenClaims::Identity(claims) => assert_eq!(claims.name, String::from("Patrice")),
            _ => panic!("wrong claims shape"),
        }
    }

    {
        let decoded_err = jwt.decode(&token, minutes(5)).err().unwrap();
        assert_eq!(decoded_err, JWTValidationError::Expired);
    }
}

#[test]
fn round_trip_reproduces_claims() {
    let jwt = JWT::new("round-trip", 600);
    let mut scopes = OAuth2Scopes::empty();
    scopes.insert(OAuth2Scope::Basic);
    scopes.insert(OAuth2Scope::Email);
    let token = jwt.encode(
        &TokenClaims::Authorize(AuthorizeState {
            client: UserAppId { value: 0xfeed_beef },
            user: UserId { value: 42 },
            initial_scopes: scopes,
            redirect_uri: String::from("https://a.example/cb?x=1.2&y=%20"),
        }),
        1_000_000,
    );
    match jwt.decode(&token, 1_000_100).unwrap() {
        TokenClaims::Authorize(a) => {
            assert_eq!(a.client.value, 0xfeed_beef);
            assert_eq!(a.user.value, 42);
            assert!(a.initial_scopes.contains(OAuth2Scope::Basic));
            assert!(a.initial_scopes.contains(OAuth2Scope::Email));
            assert!(!a.initial_scopes.contains(OAuth2Scope::Dev));
            assert_eq!(a.redirect_uri, "https://a.example/cb?x=1.2&y=%20");
        },
        _ => panic!("wrong claims shape"),
    }
}

#[test]
fn expiry_boundary_is_exact() {
    let jwt = JWT::new("boundary", 100);
    let token = jwt.encode(
        &TokenClaims::Access(AccessState {
            client: UserAppId { value: 7 },
            user: UserId { value: 8 },
            scopes: OAuth2Scopes::empty(),
        }),
        1000,
    );
    assert!(jwt.decode(&token, 1099).is_ok());
    assert!(jwt.decode(&token, 1100).is_ok());
    assert_eq!(jwt.decode(&token, 1101).err().unwrap(), JWTValidationError::Expired);
}

#[test]
fn issuer_binding_rejects_foreign_codec() {
    let a = JWT::new("purpose-a", 600);
    let b = JWT::new("purpose-b", 600);
    let claims = TokenClaims::Identity(Claims { sub: 5, name: String::from("n") });
    let token = a.encode(&claims, 50);
    assert!(a.decode(&token, 60).is_ok());
    assert!(b.decode(&token, 60).is_err());
}

#[test]
fn same_issuer_different_key_is_rejected() {
    let a = JWT::new("twin", 600);
    let b = JWT::new("twin", 600);
    let claims = TokenClaims::Identity(Claims { sub: 5, name: String::from("n") });
    let token = a.encode(&claims, 50);
    assert_eq!(b.decode(&token, 60).err().unwrap(), JWTValidationError::InvalidSignature);
}

#[test]
fn garbage_tokens_are_invalid_signatures() {
    let jwt = JWT::new("garbage", 600);
    for bad in ["", "x", "wartid1.", "wartid1..", "wartid1.00.sig", "a.b.c"] {
        assert_eq!(jwt.decode(bad, 0).err().unwrap(), JWTValidationError::InvalidSignature);
    }
}

#[test]
fn tampered_payload_is_rejected() {
    let jwt = JWT::new("tamper", 600);
    let token = jwt.encode(
        &TokenClaims::Identity(Claims { sub: 1, name: String::from("ab") }),
        1000,
    );
    // Flip one payload character (after the header dot).
    let mut chars: Vec<char> = token.chars().collect();
    let pos = 9;
    chars[pos] = if chars[pos] == '0' { '1' } else { '0' };
    let tampered: String = chars.into_iter().collect();
    assert_eq!(
        jwt.decode(&tampered, 1000).err().unwrap(),
        JWTValidationError::InvalidSignature
    );
}

#[test]
fn identity_bridge_expiry_is_distinct() {
    let agent = DiscordAgent::new();
    let token = agent.issue(123456789, String::from("Wart"), minutes(100));

    let ok = agent.try_authorize(&token, minutes(109)).unwrap();
    assert_eq!(ok.sub, 123456789);
    assert_eq!(ok.name, "Wart");

    match agent.try_authorize(&token, minutes(111)) {
        Err(UnauthorizedError::Expired) => (),
        other => panic!("expected the distinct expired variant, got {:?}", other.is_ok()),
    }
}

#[test]
fn bridge_key_is_a_shared_secret() {
    // The encoding half handed to the external agent and the decoding half
    // kept by the server are one pre-shared key: separate instances over
    // the same bytes accept each other's tokens.
    let key: Vec<u8> = (0u8..32).collect();
    let agent_side = DiscordAgent::from_key(key.clone());
    let server_side = DiscordAgent::from_key(key);
    let token = agent_side.issue(5, String::from("peer"), 100);
    let claims = server_side.try_authorize(&token, 150).unwrap();
    assert_eq!(claims.sub, 5);

    let stranger = DiscordAgent::new();
    assert!(stranger.try_authorize(&token, 150).is_err());
}

#[test]
fn bridge_rejects_foreign_and_malformed_tokens() {
    let agent = DiscordAgent::new();
    let other = DiscordAgent::new();
    let token = other.issue(1, String::from("x"), 0);
    match agent.try_authorize(&token, 10) {
        Err(UnauthorizedError::Invalid(_)) => (),
        _ => panic!("expected invalid"),
    }
    match agent.try_authorize("not-a-token", 10) {
        Err(UnauthorizedError::Invalid(_)) => (),
        _ => panic!("expected invalid"),
    }
}
