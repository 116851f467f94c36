use cryptic::{
    Argon2PasswordManager, AuthError, Credentials, InMemoryUserRepo, OAuth2Provider, OAuth2UserInfo, StoreError,
    TokenService, User,
};

fn local(id: &str, identifier: &str) -> User {
    User::with_password_hash(id.to_string(), identifier.to_string(), "$hash".to_string(), 1)
}

fn account(provider: OAuth2Provider, sub: &str) -> OAuth2UserInfo {
    OAuth2UserInfo {
        user_id: String::new(),
        provider,
        provider_user_id: sub.to_string(),
        email: None,
        name: None,
        avatar_url: None,
        verified_email: None,
        locale: None,
        updated_at: 0,
    }
}

#[test]
fn store_finds_users() {
    let mut repo = InMemoryUserRepo::new();
    repo.add_user(local("1", "ann")).unwrap();
    repo.add_user(User::with_oauth_account("2".to_string(), account(OAuth2Provider::GitHub, "77"), 3)).unwrap();
    assert_eq!(repo.get_user_by_id("2").unwrap().oauth_accounts.len(), 1);
    assert_eq!(repo.get_user_by_identifier("ann").unwrap().id, "1");
    assert!(repo.get_user_by_identifier("bob").is_none());
    assert_eq!(repo.get_user_by_oauth_id(OAuth2Provider::GitHub, "77").unwrap().id, "2");
    assert!(repo.get_user_by_oauth_id(OAuth2Provider::Google, "77").is_none());
}

#[test]
fn store_refuses_clashes() {
    let mut repo = InMemoryUserRepo::new();
    repo.add_user(local("1", "ann")).unwrap();
    assert_eq!(repo.add_user(local("2", "ann")).unwrap_err(), StoreError::Conflict);
    assert_eq!(repo.add_user(local("1", "other")).unwrap_err(), StoreError::Conflict);
    repo.add_user(User::with_oauth_account("3".to_string(), account(OAuth2Provider::Google, "g"), 0)).unwrap();
    let dup = User::with_oauth_account("4".to_string(), account(OAuth2Provider::Google, "g"), 0);
    assert_eq!(repo.add_user(dup).unwrap_err(), StoreError::Conflict);
    assert_eq!(repo.len(), 2);
}

#[test]
fn store_update() {
    let mut repo = InMemoryUserRepo::new();
    repo.add_user(local("1", "ann")).unwrap();
    repo.add_user(local("2", "bea")).unwrap();
    assert_eq!(repo.update_user(local("9", "zed")).unwrap_err(), StoreError::NotFound);
    assert_eq!(repo.update_user(local("2", "ann")).unwrap_err(), StoreError::Conflict);
    repo.update_user(local("2", "bee")).unwrap();
    assert_eq!(repo.get_user_by_identifier("bee").unwrap().id, "2");
    assert!(repo.get_user_by_identifier("bea").is_none());
}

#[test]
fn user_links_replace_by_provider() {
    let u = local("1", "ann");
    let mut g = account(OAuth2Provider::Google, "a");
    let u = u.link_oauth_account(g.clone());
    g.name = Some("renamed".to_string());
    let u = u.link_oauth_account(g);
    let mut u = u.link_oauth_account(account(OAuth2Provider::GitHub, "b"));
    assert_eq!(u.oauth_accounts.len(), 2);
    assert_eq!(u.get_oauth_account(OAuth2Provider::Google).unwrap().name.as_deref(), Some("renamed"));
    assert_eq!(u.unlink_oauth_account(OAuth2Provider::Google).unwrap().provider_user_id, "a");
    assert!(u.unlink_oauth_account(OAuth2Provider::Google).is_none());
    assert_eq!(u.linked_providers(), vec![OAuth2Provider::GitHub]);
    let c: &Credentials = u.credentials.as_ref().unwrap();
    assert_eq!(c.identifier, "ann");
}

#[test]
fn password_round_trip() {
    let m = Argon2PasswordManager::new();
    let h = m.hash_password("correct horse").unwrap();
    assert!(h.starts_with("$argon2"));
    assert_ne!(h, "correct horse");
    assert!(m.verify_password("correct horse", &h));
    assert!(!m.verify_password("wrong horse", &h));
    assert!(!m.verify_password("correct horse", ""));
    assert!(!m.verify_password("correct horse", "not a hash"));
    assert_eq!(m.hash_password("").unwrap_err(), AuthError::InvalidPassword);
}

#[test]
fn token_service_lifecycle() {
    let mut ts = TokenService::new(10, 20);
    let p = ts.generate_token_pair("u1", 100).unwrap();
    assert_ne!(p.access_token, p.refresh_token);
    let c = ts.validate_access_token(&p.access_token, 110).unwrap();
    assert_eq!(c.sub, "u1");
    assert_eq!(c.iat, 100);
    assert_eq!(ts.validate_access_token(&p.access_token, 111).unwrap_err(), AuthError::InvalidToken);
    let r = ts.validate_refresh_token(&p.refresh_token, 120).unwrap();
    assert_eq!(r.exp, 120);
    assert_eq!(r.token_type, "refresh");
    assert_eq!(ts.validate_refresh_token(&p.access_token, 100).unwrap_err(), AuthError::InvalidToken);
    let q = ts.refresh_access_token(&p.refresh_token, 115).unwrap();
    assert_eq!(ts.validate_access_token(&q.access_token, 115).unwrap().sub, "u1");
    assert_eq!(ts.refresh_access_token(&p.refresh_token, 121).unwrap_err(), AuthError::InvalidToken);
}

#[test]
fn token_expiry_saturates() {
    let mut ts = TokenService::new(10, 20);
    let p = ts.generate_token_pair("u", u64::MAX - 5).unwrap();
    assert_eq!(ts.validate_access_token(&p.access_token, u64::MAX).unwrap().exp, u64::MAX);
}
