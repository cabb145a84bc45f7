use wartid::model::scopes::{OAuth2Scope, OAuth2Scopes};

#[test]
fn serialize() {
    let mut scopes = OAuth2Scopes::empty();
    scopes.insert(OAuth2Scope::Basic);
    scopes.insert(OAuth2Scope::Email);

    let text = scopes.to_text();

    assert!(&text == "basic email" || &text == "email basic");
}

#[test]
fn deserialize() {
    let scopes = OAuth2Scopes::from_str("basic email").unwrap();

    assert!(scopes.contains(OAuth2Scope::Basic));
    assert!(scopes.contains(OAuth2Scope::Email));
    assert!(!scopes.contains(OAuth2Scope::Dev));
}

#[test]
fn scope_text_round_trip_ignores_order() {
    let a = OAuth2Scopes::from_str("basic email").unwrap();
    let b = OAuth2Scopes::from_str("email basic").unwrap();
    for scope in [OAuth2Scope::Basic, OAuth2Scope::Email, OAuth2Scope::Dev] {
        assert_eq!(a.contains(scope), b.contains(scope));
    }
    let again = OAuth2Scopes::from_str(&a.to_text()).unwrap();
    for scope in [OAuth2Scope::Basic, OAuth2Scope::Email, OAuth2Scope::Dev] {
        assert_eq!(a.contains(scope), again.contains(scope));
    }
}

#[test]
fn unknown_scope_fails_whole_parse() {
    assert!(OAuth2Scopes::from_str("basic unknown").is_err());
    assert!(OAuth2Scopes::from_str("profile").is_err());
}

#[test]
fn empty_and_whitespace_parse_to_empty_set() {
    for text in ["", "   ", "\t\n"] {
        let scopes = OAuth2Scopes::from_str(text).unwrap();
        assert!(!scopes.contains(OAuth2Scope::Basic));
        assert!(!scopes.contains(OAuth2Scope::Email));
        assert!(!scopes.contains(OAuth2Scope::Dev));
    }
}

#[test]
fn full_set_serializes_in_canonical_order() {
    let scopes = OAuth2Scopes::from_str("dev email basic").unwrap();
    assert_eq!(scopes.to_text(), "basic email dev");
}
