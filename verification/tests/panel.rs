use wartid::id::UserId;
use wartid::model::app::AppStore;
use wartid::model::menu::Menu;
use wartid::model::page_context::PageContext;
use wartid::model::user::UserStore;
use wartid::model::WartIDError;
use wartid::routes::apps;
use wartid::routes::apps::FormNewApp;
use wartid::routes::users;
use wartid::LoginSession;

fn setup() -> (UserStore, AppStore, LoginSession) {
    let mut users = UserStore::new();
    let user = users.find_or_create_by_discord_id(7, String::from("me")).unwrap();
    let apps = AppStore::new();
    (users, apps, LoginSession { user })
}

#[test]
fn app_registration_names_its_page() {
    let (users, mut app_store, session) = setup();
    let target = apps::new(
        &mut app_store,
        &session,
        FormNewApp { name: String::from("demo"), hidden: false },
    )
    .unwrap();
    assert!(target.starts_with("/apps/"));
    assert_eq!(target.len(), "/apps/".len() + 36);
    let _ = users;
}

#[test]
fn app_update_flow() {
    let (users, mut app_store, session) = setup();
    let mut ctx = PageContext::new(&users, &app_store, session.user.id).unwrap();
    let target = apps::new(
        &mut app_store,
        &session,
        FormNewApp { name: String::from("demo"), hidden: false },
    )
    .unwrap();
    let id_text = &target["/apps/".len()..];
    let app_id = wartid::id::UserAppId::from_text(id_text).unwrap();

    // A too-short name only flashes a complaint.
    let same = apps::view_update(
        &mut ctx,
        &mut app_store,
        app_id,
        apps::FormUpdateIntent::UpdateGeneral {
            name: String::from("ab"),
            description: String::from("d"),
        },
    )
    .unwrap()
    .unwrap();
    assert_eq!(same.name, "demo");
    assert!(ctx.flash_bad_request);

    let renamed = apps::view_update(
        &mut ctx,
        &mut app_store,
        app_id,
        apps::FormUpdateIntent::UpdateGeneral {
            name: String::from("demo app"),
            description: String::from("a demo"),
        },
    )
    .unwrap()
    .unwrap();
    assert_eq!(renamed.name, "demo app");
    assert_eq!(renamed.description.as_deref(), Some("a demo"));

    let enabled = apps::view_update(
        &mut ctx,
        &mut app_store,
        app_id,
        apps::FormUpdateIntent::OAuthEnable,
    )
    .unwrap()
    .unwrap();
    let (secret, _) = enabled.oauth2().unwrap();
    assert_eq!(secret.chars().count(), 64);

    let redirected = apps::view_update(
        &mut ctx,
        &mut app_store,
        app_id,
        apps::FormUpdateIntent::OAuthSetRedirectUri(String::from("https://demo.example/cb")),
    )
    .unwrap()
    .unwrap();
    assert_eq!(redirected.oauth_redirect, "https://demo.example/cb");

    let disabled = apps::view_update(
        &mut ctx,
        &mut app_store,
        app_id,
        apps::FormUpdateIntent::OAuthDisable,
    )
    .unwrap()
    .unwrap();
    assert!(disabled.oauth2().is_none());
}

#[test]
fn app_form_finalize_rejects_mixed_buttons() {
    let raw = apps::FormUpdateIntentRaw {
        name: None,
        description: None,
        oauth_redirect_uri: None,
        update_general: false,
        oauth_enable: true,
        oauth_disable: true,
        oauth_update_redirect: false,
    };
    assert!(apps::FormUpdateIntent::finalize(raw).is_err());

    let raw = apps::FormUpdateIntentRaw {
        name: None,
        description: None,
        oauth_redirect_uri: None,
        update_general: false,
        oauth_enable: true,
        oauth_disable: false,
        oauth_update_redirect: false,
    };
    assert!(matches!(
        apps::FormUpdateIntent::finalize(raw).unwrap(),
        apps::FormUpdateIntent::OAuthEnable
    ));
}

#[test]
fn profile_update_flow() {
    let (mut users, app_store, session) = setup();
    let mut ctx = PageContext::new(&users, &app_store, session.user.id).unwrap();

    // Only one's own profile may be changed.
    let foreign = users::view_update(
        &mut ctx,
        &mut users,
        &session,
        UserId { value: 0xbad },
        users::FormUpdateIntent::UpdateName(String::from("attacker")),
    );
    assert!(matches!(foreign, Err(WartIDError::InvalidCredentials(_))));

    // A too-short name only flashes a complaint and shows the old record.
    let unchanged = users::view_update(
        &mut ctx,
        &mut users,
        &session,
        session.user.id,
        users::FormUpdateIntent::UpdateName(String::from("ab")),
    )
    .unwrap();
    assert_eq!(unchanged.username, "me");
    assert!(ctx.flash_bad_request);

    let renamed = users::view_update(
        &mut ctx,
        &mut users,
        &session,
        session.user.id,
        users::FormUpdateIntent::UpdateName(String::from("someone")),
    )
    .unwrap();
    assert_eq!(renamed.username, "someone");

    let with_email = users::view_update(
        &mut ctx,
        &mut users,
        &session,
        session.user.id,
        users::FormUpdateIntent::UpdateEmail(String::from("me@example.org")),
    )
    .unwrap();
    assert_eq!(with_email.email.as_deref(), Some("me@example.org"));

    let with_password = users::view_update(
        &mut ctx,
        &mut users,
        &session,
        session.user.id,
        users::FormUpdateIntent::UpdatePassword(String::from("longenough")),
    )
    .unwrap();
    assert!(with_password.password.is_some());
}

#[test]
fn menu_matches_page_context() {
    let (users, mut app_store, session) = setup();
    app_store.insert(String::from("demo"), false, session.user.id).unwrap();
    let menu = Menu::build(&users, &app_store, session.user.id).unwrap();
    let ctx = PageContext::new(&users, &app_store, session.user.id).unwrap();
    assert_eq!(menu.users.len(), ctx.users.len());
    assert_eq!(menu.apps.len(), ctx.apps.len());
    assert_eq!(menu.apps[0].1, "demo");
}
