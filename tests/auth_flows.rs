use cryptic::auth_service::FreshValues;
use cryptic::{
    TokenService, AuthError, AuthService, AuthServiceVariables, AuthStep, Claims, LoginMethod, OAuth2Manager, OAuth2Provider,
    OAuth2UserInfo, SignupMethod, TokenPair, User,
};

const NOW: u64 = 1_700_000_000;

fn service() -> AuthService {
    AuthService::default()
}

fn done(step: AuthStep) -> Result<(User, TokenPair), AuthError> {
    match step {
        AuthStep::Done(r) => r,
        AuthStep::FetchProfile { .. } => panic!("expected a finished step"),
    }
}

fn signup(svc: &mut AuthService, identifier: &str, password: &str) -> Result<(User, TokenPair), AuthError> {
    done(svc.signup(
        SignupMethod::Credentials { identifier: identifier.to_string(), password: password.to_string() },
        NOW,
    ))
}

fn login(svc: &mut AuthService, identifier: &str, password: &str) -> Result<(User, TokenPair), AuthError> {
    done(svc.login(
        LoginMethod::Credentials { identifier: identifier.to_string(), password: password.to_string() },
        NOW,
    ))
}

fn profile(provider: OAuth2Provider, sub: &str, email: Option<&str>, name: &str) -> OAuth2UserInfo {
    OAuth2UserInfo {
        user_id: String::new(),
        provider,
        provider_user_id: sub.to_string(),
        email: email.map(|e| e.to_string()),
        name: Some(name.to_string()),
        avatar_url: None,
        verified_email: Some(true),
        locale: None,
        updated_at: NOW,
    }
}

#[test]
fn bob_signup_wrong_password_then_right_password() {
    let mut svc = service();
    let (u1, t1) = signup(&mut svc, "bob", "pw1").unwrap();
    assert_eq!(login(&mut svc, "bob", "wrong").unwrap_err(), AuthError::InvalidCredentials);
    let (u2, t2) = login(&mut svc, "bob", "pw1").unwrap();
    assert_eq!(u1.id, u2.id);
    assert_ne!(t1.access_token, t2.access_token);
}

#[test]
fn login_twice_returns_stable_id() {
    let mut svc = service();
    let (u, _) = signup(&mut svc, "carol@example.com", "secret").unwrap();
    let (a, _) = login(&mut svc, "carol@example.com", "secret").unwrap();
    let (b, _) = login(&mut svc, "carol@example.com", "secret").unwrap();
    assert_eq!(a.id, u.id);
    assert_eq!(b.id, u.id);
    assert_eq!(a.credentials.unwrap().identifier, "carol@example.com");
}

#[test]
fn signup_access_token_names_user() {
    let mut svc = service();
    let (u, t) = signup(&mut svc, "dave", "pw").unwrap();
    let claims = svc.validate_access_token(&t.access_token, NOW).unwrap();
    assert_eq!(claims.get_subject(), u.id);
    assert_eq!(claims.get_expiration(), NOW + 3600);
    assert_eq!(claims.token_type, "access");
}

#[test]
fn login_access_token_names_user() {
    let mut svc = service();
    signup(&mut svc, "erin", "pw").unwrap();
    let (u, t) = login(&mut svc, "erin", "pw").unwrap();
    assert_eq!(svc.get_user_id_from_token(&t.access_token, NOW).unwrap(), u.id);
    assert_eq!(svc.get_user_from_token(&t.access_token, NOW).unwrap().id, u.id);
}

#[test]
fn login_unknown_identifier_is_invalid_credentials() {
    let mut svc = service();
    assert_eq!(login(&mut svc, "nobody", "pw").unwrap_err(), AuthError::InvalidCredentials);
}

#[test]
fn login_empty_password_is_invalid_credentials() {
    let mut svc = service();
    signup(&mut svc, "frank", "pw").unwrap();
    assert_eq!(login(&mut svc, "frank", "").unwrap_err(), AuthError::InvalidCredentials);
}

#[test]
fn signup_empty_password_is_refused() {
    let mut svc = service();
    assert_eq!(signup(&mut svc, "gina", "").unwrap_err(), AuthError::InvalidPassword);
    assert_eq!(svc.persistent_users_manager.len(), 0);
}

#[test]
fn second_signup_with_same_identifier_fails() {
    let mut svc = service();
    signup(&mut svc, "hank", "pw1").unwrap();
    assert_eq!(signup(&mut svc, "hank", "pw2").unwrap_err(), AuthError::SignupError);
    assert_eq!(svc.persistent_users_manager.len(), 1);
    assert_eq!(login(&mut svc, "hank", "pw2").unwrap_err(), AuthError::InvalidCredentials);
    assert!(login(&mut svc, "hank", "pw1").is_ok());
}

#[test]
fn unlink_without_link_returns_unchanged_user() {
    let mut svc = service();
    let (u, _) = signup(&mut svc, "ivy", "pw").unwrap();
    let after = svc.unlink_oauth_account(&u.id, OAuth2Provider::GitHub).unwrap();
    assert_eq!(after.id, u.id);
    assert_eq!(after.updated_at, u.updated_at);
    assert!(after.oauth_accounts.is_empty());
    assert_eq!(after.credentials.unwrap().password_hash, u.credentials.unwrap().password_hash);
}

#[test]
fn unlink_unknown_user_is_user_not_found() {
    let mut svc = service();
    assert_eq!(svc.unlink_oauth_account("missing", OAuth2Provider::Google).unwrap_err(), AuthError::UserNotFound);
}

#[test]
fn oauth_login_merges_into_local_account_by_email() {
    let mut svc = service();
    let (alice, _) = signup(&mut svc, "alice@example.com", "pw").unwrap();
    let info = profile(OAuth2Provider::Google, "g-123", Some("alice@example.com"), "Alice");
    let (u, t) = svc.complete_oauth2(Ok(info), NOW + 5).unwrap();
    assert_eq!(u.id, alice.id);
    assert_eq!(svc.persistent_users_manager.len(), 1);
    assert!(u.has_oauth_account(OAuth2Provider::Google));
    assert_eq!(u.updated_at, NOW + 5);
    assert_eq!(svc.validate_access_token(&t.access_token, NOW + 5).unwrap().sub, alice.id);
    let by_account = svc.persistent_users_manager.get_user_by_oauth_id(OAuth2Provider::Google, "g-123").unwrap();
    assert_eq!(by_account.id, alice.id);
}

#[test]
fn oauth_relogin_updates_link_in_place() {
    let mut svc = service();
    let (first, _) = svc.complete_oauth2(Ok(profile(OAuth2Provider::GitHub, "42", None, "Old Name")), NOW).unwrap();
    let (second, _) =
        svc.complete_oauth2(Ok(profile(OAuth2Provider::GitHub, "42", None, "New Name")), NOW + 10).unwrap();
    assert_eq!(first.id, second.id);
    assert_eq!(svc.persistent_users_manager.len(), 1);
    let link = second.get_oauth_account(OAuth2Provider::GitHub).unwrap();
    assert_eq!(link.name.as_deref(), Some("New Name"));
    assert_eq!(second.oauth_accounts.len(), 1);
    assert_eq!(second.created_at, NOW);
}

#[test]
fn oauth_login_creates_user_without_credentials() {
    let mut svc = service();
    let (u, t) = svc.complete_oauth2(Ok(profile(OAuth2Provider::Discord, "d-1", Some("x@y.z"), "X")), NOW).unwrap();
    assert!(u.credentials.is_none());
    assert_eq!(u.linked_providers(), vec![OAuth2Provider::Discord]);
    assert_eq!(svc.persistent_users_manager.len(), 1);
    assert_eq!(svc.get_user_from_token(&t.access_token, NOW).unwrap().id, u.id);
}

#[test]
fn oauth_fetch_failure_is_passed_on() {
    let mut svc = service();
    assert_eq!(svc.complete_oauth2(Err(AuthError::OAuthNetwork), NOW).unwrap_err(), AuthError::OAuthNetwork);
    assert_eq!(svc.persistent_users_manager.len(), 0);
}

#[test]
fn oauth_methods_ask_for_the_profile() {
    let mut svc = service();
    let step = svc.login(
        LoginMethod::OAuth2 { provider: OAuth2Provider::Google, code: "c".to_string(), state: "s".to_string() },
        NOW,
    );
    match step {
        AuthStep::FetchProfile { provider, code, state } => {
            assert_eq!(provider, OAuth2Provider::Google);
            assert_eq!(code, "c");
            assert_eq!(state, "s");
        }
        AuthStep::Done(_) => panic!("expected a fetch"),
    }
    let step = svc.signup(
        SignupMethod::OAuth2 { provider: OAuth2Provider::GitHub, code: "k".to_string(), state: "t".to_string() },
        NOW,
    );
    assert!(matches!(step, AuthStep::FetchProfile { provider: OAuth2Provider::GitHub, .. }));
}

#[test]
fn link_account_to_user() {
    let mut svc = service();
    let (u, _) = signup(&mut svc, "jack", "pw").unwrap();
    let linked = svc
        .link_oauth_account(&u.id, Ok(profile(OAuth2Provider::Microsoft, "m-9", None, "Jack")), NOW + 1)
        .unwrap();
    assert_eq!(linked.id, u.id);
    assert_eq!(svc.get_linked_oauth_providers(&u.id).unwrap(), vec![OAuth2Provider::Microsoft]);
    let unlinked = svc.unlink_oauth_account(&u.id, OAuth2Provider::Microsoft).unwrap();
    assert!(unlinked.oauth_accounts.is_empty());
    assert!(svc.get_linked_oauth_providers(&u.id).unwrap().is_empty());
}

#[test]
fn link_account_unknown_user_is_user_not_found() {
    let mut svc = service();
    let r = svc.link_oauth_account("nope", Ok(profile(OAuth2Provider::Google, "g", None, "N")), NOW);
    assert_eq!(r.unwrap_err(), AuthError::UserNotFound);
    assert_eq!(svc.get_linked_oauth_providers("nope").unwrap_err(), AuthError::UserNotFound);
}

#[test]
fn link_account_fetch_failure_is_passed_on() {
    let mut svc = service();
    let (u, _) = signup(&mut svc, "kim", "pw").unwrap();
    assert_eq!(svc.link_oauth_account(&u.id, Err(AuthError::OAuthTokenExchange), NOW).unwrap_err(), AuthError::OAuthTokenExchange);
}

#[test]
fn link_account_held_by_another_user_is_a_conflict() {
    let mut svc = service();
    let (a, _) = signup(&mut svc, "lee", "pw").unwrap();
    let (b, _) = signup(&mut svc, "max", "pw").unwrap();
    svc.link_oauth_account(&a.id, Ok(profile(OAuth2Provider::Google, "shared", None, "A")), NOW).unwrap();
    let r = svc.link_oauth_account(&b.id, Ok(profile(OAuth2Provider::Google, "shared", None, "B")), NOW);
    assert_eq!(r.unwrap_err(), AuthError::UpdateConflict);
    assert!(svc.get_linked_oauth_providers(&b.id).unwrap().is_empty());
}

#[test]
fn refresh_gives_pair_for_same_subject() {
    let mut svc = service();
    let (u1, t1) = signup(&mut svc, "bob", "pw1").unwrap();
    let t2 = svc.refresh_access_token(&t1.refresh_token, NOW + 100).unwrap();
    assert_ne!(t2.access_token, t1.access_token);
    let claims = svc.validate_access_token(&t2.access_token, NOW + 100).unwrap();
    assert_eq!(claims.sub, u1.id);
    assert_eq!(claims.exp, NOW + 100 + 3600);
}

#[test]
fn refresh_with_access_token_is_invalid_token() {
    let mut svc = service();
    let (_, t1) = signup(&mut svc, "bob", "pw1").unwrap();
    assert_eq!(svc.refresh_access_token(&t1.access_token, NOW).unwrap_err(), AuthError::InvalidToken);
}

#[test]
fn refresh_token_is_not_an_access_token() {
    let mut svc = service();
    let (_, t1) = signup(&mut svc, "nia", "pw").unwrap();
    assert_eq!(svc.validate_access_token(&t1.refresh_token, NOW).unwrap_err(), AuthError::InvalidToken);
    assert!(svc.is_token_expired(&t1.refresh_token, NOW));
}

#[test]
fn tokens_expire() {
    let mut svc = service();
    let (_, t) = signup(&mut svc, "oli", "pw").unwrap();
    assert!(!svc.is_token_expired(&t.access_token, NOW + 3600));
    assert!(svc.is_token_expired(&t.access_token, NOW + 3601));
    assert!(svc.is_token_expired("garbage", NOW));
    assert!(svc.refresh_access_token(&t.refresh_token, NOW + 604800).is_ok());
    assert_eq!(svc.refresh_access_token(&t.refresh_token, NOW + 604801).unwrap_err(), AuthError::InvalidToken);
}

#[test]
fn token_for_missing_user_is_user_not_found() {
    let mut svc = service();
    let t = svc.get_tokens("ghost", NOW).unwrap();
    assert_eq!(svc.get_user_id_from_token(&t.access_token, NOW).unwrap(), "ghost");
    assert_eq!(svc.get_user_from_token(&t.access_token, NOW).unwrap_err(), AuthError::UserNotFound);
    assert_eq!(svc.get_user_from_token("bad", NOW).unwrap_err(), AuthError::InvalidToken);
}

#[test]
fn new_refuses_access_lifetime_not_below_refresh() {
    let vars = AuthServiceVariables { token_expiration: 100, refresh_token_expiration: 100 };
    assert_eq!(AuthService::new(vars, None, None, None, Some(OAuth2Manager::default())).unwrap_err(), AuthError::ConfigError);
    assert!(AuthService::new(vars, None, None, Some(TokenService::new(1, 2)), None).is_ok());
    let vars = AuthServiceVariables { token_expiration: 10, refresh_token_expiration: 20 };
    let mut svc = AuthService::new(vars, None, None, None, None).unwrap();
    let t = svc.get_tokens("u", NOW).unwrap();
    assert_eq!(svc.validate_access_token(&t.access_token, NOW).unwrap().exp, NOW + 10);
}

#[test]
fn redirect_uri_without_config_is_config_error() {
    let svc = service();
    assert_eq!(svc.get_oauth2_redirect_frontend_uri(OAuth2Provider::Google).unwrap_err(), AuthError::ConfigError);
    assert_eq!(
        svc.generate_oauth2_auth_url(OAuth2Provider::Google, "state", None).unwrap_err(),
        AuthError::ConfigError
    );
}

fn fresh(id: &str, access: &str, refresh: &str) -> FreshValues {
    FreshValues { user_id: id.to_string(), access_token: access.to_string(), refresh_token: refresh.to_string() }
}

#[test]
fn drawn_values_are_used_as_given() {
    let mut svc = service();
    let (u, t) = svc.signup_with_credentials("pia".to_string(), "pw".to_string(), NOW, fresh("id-1", "a1", "r1")).unwrap();
    assert_eq!(u.id, "id-1");
    assert_eq!(t.access_token, "a1");
    assert_eq!(t.refresh_token, "r1");
    let (v, t2) = svc.login_with_credentials("pia", "pw", NOW, fresh("unused", "a2", "r2")).unwrap();
    assert_eq!(v.id, "id-1");
    assert_eq!(t2.access_token, "a2");
    let t3 = svc.refresh_access_token_with("r1", NOW, fresh("unused", "a3", "r3")).unwrap();
    assert_eq!(svc.get_user_id_from_token(&t3.access_token, NOW).unwrap(), "id-1");
}

#[test]
fn colliding_drawn_tokens_are_token_generation() {
    let mut svc = service();
    let r = svc.signup_with_credentials("quinn".to_string(), "pw".to_string(), NOW, fresh("q", "same", "same"));
    assert_eq!(r.unwrap_err(), AuthError::TokenGeneration);
    // the user was stored before the tokens were refused
    assert_eq!(svc.persistent_users_manager.len(), 1);
    svc.get_tokens_with("q", NOW, fresh("", "a", "b")).unwrap();
    assert_eq!(svc.get_tokens_with("q", NOW, fresh("", "a", "c")).unwrap_err(), AuthError::TokenGeneration);
    assert_eq!(svc.login_with_credentials("quinn", "pw", NOW, fresh("", "b", "z")).unwrap_err(), AuthError::TokenGeneration);
    assert_eq!(svc.refresh_access_token_with("a", NOW, fresh("", "x", "y")).unwrap_err(), AuthError::InvalidToken);
    assert_eq!(svc.refresh_access_token_with("b", NOW, fresh("", "a", "y")).unwrap_err(), AuthError::TokenGeneration);
    assert!(svc.refresh_access_token_with("b", NOW, fresh("", "x", "y")).is_ok());
}

#[test]
fn taken_drawn_id_is_signup_error() {
    let mut svc = service();
    svc.signup_with_credentials("rae".to_string(), "pw".to_string(), NOW, fresh("dup", "a1", "r1")).unwrap();
    let r = svc.signup_with_credentials("sam".to_string(), "pw".to_string(), NOW, fresh("dup", "a2", "r2"));
    assert_eq!(r.unwrap_err(), AuthError::SignupError);
    let r = svc.complete_oauth2_with(Ok(profile(OAuth2Provider::Google, "g-9", None, "S")), NOW, fresh("dup", "a3", "r3"));
    assert_eq!(r.unwrap_err(), AuthError::SignupError);
    assert_eq!(svc.persistent_users_manager.len(), 1);
    let (u, _) = svc
        .complete_oauth2_with(Ok(profile(OAuth2Provider::Google, "g-9", None, "S")), NOW, fresh("new", "a4", "r4"))
        .unwrap();
    assert_eq!(u.id, "new");
}

#[test]
fn exact_account_match_wins_over_email() {
    let mut svc = service();
    let (a, _) = svc.complete_oauth2(Ok(profile(OAuth2Provider::GitHub, "7", None, "A")), NOW).unwrap();
    let (b, _) = signup(&mut svc, "b@example.com", "pw").unwrap();
    let (u, _) = svc.complete_oauth2(Ok(profile(OAuth2Provider::GitHub, "7", Some("b@example.com"), "A2")), NOW).unwrap();
    assert_eq!(u.id, a.id);
    assert!(svc.get_linked_oauth_providers(&b.id).unwrap().is_empty());
    assert_eq!(svc.persistent_users_manager.len(), 2);
}

#[test]
fn login_leaves_users_unchanged_and_hides_which_part_failed() {
    let mut svc = service();
    signup(&mut svc, "tom", "pw").unwrap();
    let unknown = login(&mut svc, "nobody", "pw");
    let wrong = login(&mut svc, "tom", "bad");
    assert_eq!(unknown.unwrap_err(), wrong.unwrap_err());
    assert_eq!(svc.persistent_users_manager.len(), 1);
}
