use wartid::config::Config;
use wartid::discord::DiscordAgent;
use wartid::id::{external_id_load, external_id_store, SessionId, UserAppId, UserId};
use wartid::model::app::AppStore;
use wartid::model::page_context::PageContext;
use wartid::model::session::{NewSession, SessionStore};
use wartid::model::user::UserStore;
use wartid::model::WartIDError;
use wartid::routes::users::{
    view_me, FormUpdateIntent, FormUpdateIntentRaw, UuidParamWithAt, UuidParamWithAtError,
};
use wartid::utils::gen_alphanumeric;
use wartid::{login_post, login_with_discord, LoginSession, LoginSessionError};

#[test]
fn uuid_text_round_trip() {
    let id = UserId { value: 0x0123_4567_89ab_cdef_0011_2233_4455_6677 };
    let text = id.to_text();
    assert_eq!(text, "01234567-89ab-cdef-0011-223344556677");
    assert_eq!(UserId::from_text(&text).unwrap().value, id.value);

    assert_eq!(UserAppId::from_text("01234567-89AB-CDEF-0011-223344556677").unwrap().value, id.value);
    assert!(UserId::from_text("01234567-89ab-cdef-0011-2233445566778").is_none());
    assert!(UserId::from_text("0123456789abcdef00112233445566").is_none());
    assert!(UserId::from_text("01234567-89ab-cdef-0011-22334455667g").is_none());
}

#[test]
fn external_id_mapping_round_trips() {
    for x in [0u64, 1, 42, i64::MAX as u64, i64::MAX as u64 + 1, u64::MAX] {
        let stored = external_id_store(x);
        assert_eq!(external_id_load(stored), x);
    }
    assert_eq!(external_id_store(5), 5);
    assert!(external_id_store(u64::MAX) < 0);
}

#[test]
fn gen_alphanumeric_shape() {
    let s = gen_alphanumeric(32);
    assert_eq!(s.chars().count(), 32);
    assert!(s.chars().all(|c| c.is_ascii_alphanumeric()));
}

#[test]
fn federated_login_creates_one_user_and_a_session() {
    let mut users = UserStore::new();
    let mut sessions = SessionStore::new();
    let agent = DiscordAgent::new();
    let now = 1_700_000_000;

    let token = agent.issue(4242, String::from("Wart"), now);
    let sid = login_with_discord(&mut users, &mut sessions, &agent, &token, now + 10).unwrap();
    assert_eq!(users.len(), 1);

    // Replaying the same external id never creates a duplicate user.
    let token2 = agent.issue(4242, String::from("Wart2"), now);
    login_with_discord(&mut users, &mut sessions, &agent, &token2, now + 20).unwrap();
    assert_eq!(users.len(), 1);

    // The cookie value resolves back to the user.
    let cookie = sid.to_text();
    let ls = LoginSession::resolve(Some(&cookie), &sessions, &users, now + 30).unwrap();
    assert_eq!(ls.user.username, "Wart");
    assert_eq!(ls.user.discord_id, Some(4242));

    // An expired token is turned away.
    let late = login_with_discord(&mut users, &mut sessions, &agent, &token, now + 601);
    assert!(matches!(late, Err(WartIDError::InvalidCredentials(_))));
}

#[test]
fn login_session_resolution_errors() {
    let users = UserStore::new();
    let mut sessions = SessionStore::new();
    let now = 1_000;

    assert_eq!(
        LoginSession::resolve(None, &sessions, &users, now).err().unwrap(),
        LoginSessionError::NoCookie
    );
    assert_eq!(
        LoginSession::resolve(Some("not-a-uuid"), &sessions, &users, now).err().unwrap(),
        LoginSessionError::InvalidCookie
    );
    let absent = SessionId { value: 9 }.to_text();
    assert_eq!(
        LoginSession::resolve(Some(&absent), &sessions, &users, now).err().unwrap(),
        LoginSessionError::InvalidSession
    );

    // A session for a user that is gone is an internal error, not anonymous.
    let sid = sessions.insert(NewSession::new(UserId { value: 3 }, now)).unwrap();
    let cookie = sid.to_text();
    assert_eq!(
        LoginSession::resolve(Some(&cookie), &sessions, &users, now).err().unwrap(),
        LoginSessionError::DatabaseError
    );

    // A session expires fourteen days after it was opened.
    let mut users2 = UserStore::new();
    let u = users2.find_or_create_by_discord_id(1, String::from("u")).unwrap();
    let sid = sessions.insert(NewSession::new(u.id, now)).unwrap();
    let cookie = sid.to_text();
    assert!(LoginSession::resolve(Some(&cookie), &sessions, &users2, now + 1_209_600).is_ok());
    assert_eq!(
        LoginSession::resolve(Some(&cookie), &sessions, &users2, now + 1_209_601).err().unwrap(),
        LoginSessionError::InvalidSession
    );
}

#[test]
fn password_login_round_trip() {
    let mut users = UserStore::new();
    let u = users.find_or_create_by_discord_id(9, String::from("local")).unwrap();
    users.update_password(u.id, "hunter2hunter2").unwrap();

    let ok = users.attempt_login(None, "local", "hunter2hunter2", 0).unwrap().unwrap();
    assert_eq!(ok.id.value, u.id.value);

    let bad = users.attempt_login(None, "local", "wrong-password", 0);
    assert!(matches!(bad, Err(WartIDError::InvalidCredentials(_))));

    let unknown = users.attempt_login(None, "nobody", "pw", 0).unwrap();
    assert!(unknown.is_none());

    // Clearing the password always succeeds for an existing user and
    // disables password login.
    let cleared = users.update_password(u.id, "").unwrap();
    assert!(cleared.password.is_none());
    let after = users.attempt_login(None, "local", "hunter2hunter2", 0);
    assert!(matches!(after, Err(WartIDError::InvalidCredentials(_))));
}

#[test]
fn login_post_opens_a_session_and_names_the_target() {
    let mut users = UserStore::new();
    let mut sessions = SessionStore::new();
    let u = users.find_or_create_by_discord_id(9, String::from("local")).unwrap();
    users.update_password(u.id, "hunter2hunter2").unwrap();
    let now = 1_000;

    let (sid, target) = login_post(
        &mut users,
        &mut sessions,
        None,
        "local",
        "hunter2hunter2",
        Some(String::from("/somewhere")),
        now,
    )
    .unwrap();
    assert_eq!(target, "/somewhere");
    // The opened session belongs to the authenticated user.
    let cookie = sid.to_text();
    let ls = LoginSession::resolve(Some(&cookie), &sessions, &users, now).unwrap();
    assert_eq!(ls.user.id.value, u.id.value);

    let (_, target) = login_post(
        &mut users,
        &mut sessions,
        None,
        "local",
        "hunter2hunter2",
        None,
        now,
    )
    .unwrap();
    assert_eq!(target, "/@me");

    assert!(login_post(&mut users, &mut sessions, None, "local", "nope", None, now).is_err());
}

#[test]
fn profile_form_finalize() {
    let raw = FormUpdateIntentRaw {
        name: Some(String::from("n")),
        email: None,
        password: None,
        update_name: true,
        update_email: false,
        oauth_password: false,
    };
    assert!(matches!(
        FormUpdateIntent::finalize(raw).unwrap(),
        FormUpdateIntent::UpdateName(n) if n == "n"
    ));

    // A value together with a foreign button is rejected.
    let raw = FormUpdateIntentRaw {
        name: Some(String::from("n")),
        email: None,
        password: None,
        update_name: false,
        update_email: true,
        oauth_password: false,
    };
    assert!(FormUpdateIntent::finalize(raw).is_err());
}

#[test]
fn at_parameter_and_view_me() {
    let param = "@01234567-89ab-cdef-0011-223344556677";
    let parsed = UuidParamWithAt::from_param(param).unwrap();
    assert_eq!(parsed.0.value, 0x0123_4567_89ab_cdef_0011_2233_4455_6677);
    assert_eq!(
        UuidParamWithAt::from_param("no-at").err().unwrap(),
        UuidParamWithAtError::NoAtSymbol
    );
    assert_eq!(
        UuidParamWithAt::from_param("@zzz").err().unwrap(),
        UuidParamWithAtError::Uuid
    );

    let mut users = UserStore::new();
    let u = users.find_or_create_by_discord_id(1, String::from("u")).unwrap();
    let target = view_me(&LoginSession { user: u.duplicate() });
    assert_eq!(target, {
        let mut s = String::from("/@");
        s.push_str(&u.id.to_text());
        s
    });
}

#[test]
fn config_requires_trailing_slash() {
    assert!(Config::new(String::from("https://id.example/"), None).is_ok());
    assert!(Config::new(String::from("https://id.example"), None).is_err());
    assert!(Config::new(String::new(), None).is_err());
}

#[test]
fn page_context_lists_and_flashes() {
    let mut users = UserStore::new();
    let u = users.find_or_create_by_discord_id(5, String::from("me")).unwrap();
    let mut apps = AppStore::new();
    let visible = apps.insert(String::from("pub"), false, u.id).unwrap();
    let managed = apps.insert(String::from("mine"), true, u.id).unwrap();

    let mut ctx = PageContext::new(&users, &apps, u.id).unwrap();
    assert_eq!(ctx.users.len(), 1);
    assert_eq!(ctx.users[0].1, "me");
    let app_ids: Vec<u128> = ctx.apps.iter().map(|(id, _)| id.value).collect();
    assert!(app_ids.contains(&visible.value));
    assert!(app_ids.contains(&managed.value));

    // A hidden app of someone else stays out of sight.
    let other = UserId { value: 424242 };
    let ctx_other = PageContext::new(&users, &apps, other).unwrap();
    let other_ids: Vec<u128> = ctx_other.apps.iter().map(|(id, _)| id.value).collect();
    assert!(other_ids.contains(&visible.value));
    assert!(!other_ids.contains(&managed.value));

    assert!(!ctx.flash_bad_request);
    ctx.add_flash_message(String::from("oops"), true);
    assert!(ctx.flash_bad_request);
    assert_eq!(ctx.flash_messages.len(), 1);
}
