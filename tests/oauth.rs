use cryptic::oauth::merge_scopes;
use cryptic::{AuthError, JsonObject, JsonValue, OAuth2Config, OAuth2Manager, OAuth2Provider, OAuth2Token};

fn obj(fields: Vec<(&str, JsonValue)>) -> JsonObject {
    JsonObject { fields: fields.into_iter().map(|(k, v)| (k.to_string(), v)).collect() }
}

fn s(v: &str) -> JsonValue {
    JsonValue::Str(v.to_string())
}

fn config(frontend: &str, extra: Vec<&str>) -> OAuth2Config {
    OAuth2Config {
        app_name: "app".to_string(),
        client_id: "client-1".to_string(),
        client_secret: "SECRET-REDACTED".to_string(),
        redirect_callback_uri: "https://app.example.com/callback".to_string(),
        redirect_frontend_uri: frontend.to_string(),
        additional_scopes: extra.into_iter().map(|e| e.to_string()).collect(),
    }
}

#[test]
fn google_profile_is_normalized() {
    let m = OAuth2Manager::default();
    let body = obj(vec![
        ("id", s("g-1")),
        ("email", s("a@b.c")),
        ("name", s("A B")),
        ("picture", s("https://pic")),
        ("verified_email", JsonValue::Bool(true)),
        ("locale", s("fr")),
    ]);
    let info = m.parse_user_info(OAuth2Provider::Google, &body, 7).unwrap();
    assert_eq!(info.provider_user_id, "g-1");
    assert_eq!(info.email.as_deref(), Some("a@b.c"));
    assert_eq!(info.name.as_deref(), Some("A B"));
    assert_eq!(info.avatar_url.as_deref(), Some("https://pic"));
    assert_eq!(info.verified_email, Some(true));
    assert_eq!(info.locale.as_deref(), Some("fr"));
    assert_eq!(info.user_id, "");
    assert_eq!(info.updated_at, 7);
}

#[test]
fn github_numeric_id_becomes_decimal_text() {
    let m = OAuth2Manager::default();
    let body = obj(vec![("id", JsonValue::UInt(583231)), ("email", s("")), ("name", s("Octo"))]);
    let info = m.parse_user_info(OAuth2Provider::GitHub, &body, 0).unwrap();
    assert_eq!(info.provider_user_id, "583231");
    assert_eq!(info.email, None);
    assert_eq!(info.verified_email, None);
    let body = obj(vec![("id", JsonValue::UInt(0)), ("email", s("o@x.y"))]);
    let info = m.parse_user_info(OAuth2Provider::GitHub, &body, 0).unwrap();
    assert_eq!(info.provider_user_id, "0");
    assert_eq!(info.email.as_deref(), Some("o@x.y"));
}

#[test]
fn github_string_id_is_refused() {
    let m = OAuth2Manager::default();
    let body = obj(vec![("id", s("583231"))]);
    assert_eq!(m.parse_user_info(OAuth2Provider::GitHub, &body, 0).unwrap_err(), AuthError::OAuthInvalidResponse);
}

#[test]
fn discord_avatar_url_is_built() {
    let m = OAuth2Manager::default();
    let body = obj(vec![("id", s("80351110224678912")), ("username", s("Nelly")), ("avatar", s("8342729096ea3675442027381ff50dfe")), ("verified", JsonValue::Bool(false))]);
    let info = m.parse_user_info(OAuth2Provider::Discord, &body, 0).unwrap();
    assert_eq!(
        info.avatar_url.as_deref(),
        Some("https://cdn.discordapp.com/avatars/80351110224678912/8342729096ea3675442027381ff50dfe.png")
    );
    assert_eq!(info.name.as_deref(), Some("Nelly"));
    assert_eq!(info.verified_email, Some(false));
}

#[test]
fn microsoft_email_falls_back_to_principal_name() {
    let m = OAuth2Manager::default();
    let body = obj(vec![("id", s("ms-1")), ("mail", JsonValue::Null), ("userPrincipalName", s("u@corp.com")), ("displayName", s("U"))]);
    let info = m.parse_user_info(OAuth2Provider::Microsoft, &body, 0).unwrap();
    assert_eq!(info.email.as_deref(), Some("u@corp.com"));
    let body = obj(vec![("id", s("ms-1")), ("mail", s("m@corp.com")), ("userPrincipalName", s("u@corp.com"))]);
    let info = m.parse_user_info(OAuth2Provider::Microsoft, &body, 0).unwrap();
    assert_eq!(info.email.as_deref(), Some("m@corp.com"));
    assert_eq!(info.avatar_url, None);
}

#[test]
fn profile_without_id_is_invalid_response() {
    let m = OAuth2Manager::default();
    let body = obj(vec![("email", s("a@b.c"))]);
    assert_eq!(m.parse_user_info(OAuth2Provider::Google, &body, 0).unwrap_err(), AuthError::OAuthInvalidResponse);
}

#[test]
fn failed_profile_request_is_user_info_error() {
    let m = OAuth2Manager::default();
    let body = obj(vec![("id", s("x"))]);
    assert_eq!(m.user_info_from_response(OAuth2Provider::Google, 500, Some(&body), 0).unwrap_err(), AuthError::OAuthUserInfo);
    assert_eq!(m.user_info_from_response(OAuth2Provider::Google, 200, None, 0).unwrap_err(), AuthError::OAuthInvalidResponse);
    assert_eq!(m.user_info_from_response(OAuth2Provider::Google, 200, Some(&body), 0).unwrap().provider_user_id, "x");
}

#[test]
fn scopes_are_merged_once_each() {
    let r = merge_scopes(
        vec!["openid".to_string(), "email".to_string()],
        Some(vec!["email".to_string(), "calendar".to_string()]),
        &vec!["openid".to_string(), "drive".to_string()],
    );
    assert_eq!(r, vec!["openid", "email", "calendar", "drive"]);
    assert_eq!(merge_scopes(vec![], None, &vec![]), Vec::<String>::new());
}

#[test]
fn auth_url_carries_client_state_and_scopes() {
    let m = OAuth2Manager::new(vec![(OAuth2Provider::Google, config("https://front", vec!["drive"]))]);
    let url = m.generate_auth_url(OAuth2Provider::Google, "xyz", Some(vec!["email".to_string()])).unwrap();
    assert!(url.starts_with("https://accounts.google.com/o/oauth2/v2/auth?"));
    assert!(url.contains("client_id=client-1"));
    assert!(url.contains("state=xyz"));
    assert!(url.contains("response_type=code"));
    assert!(url.contains("scope=openid+email+profile+drive"));
}

#[test]
fn later_config_replaces_earlier() {
    let m = OAuth2Manager::new(vec![
        (OAuth2Provider::Discord, config("https://one", vec![])),
        (OAuth2Provider::Discord, config("https://two", vec![])),
    ]);
    assert_eq!(m.get_redirect_frontend_uri(OAuth2Provider::Discord).unwrap(), "https://two");
    assert_eq!(m.get_redirect_frontend_uri(OAuth2Provider::GitHub).unwrap_err(), AuthError::ConfigError);
}

#[test]
fn link_to_user_sets_user_id() {
    let m = OAuth2Manager::default();
    let info = m.parse_user_info(OAuth2Provider::Google, &obj(vec![("id", s("g"))]), 0).unwrap();
    let linked = OAuth2Manager::link_to_user(info, "user-7".to_string());
    assert_eq!(linked.user_id, "user-7");
    assert_eq!(linked.provider_user_id, "g");
}

#[test]
fn granted_token_joins_scopes_and_sets_expiry() {
    let t = OAuth2Token::from_grant(
        OAuth2Provider::GitHub,
        "at".to_string(),
        None,
        Some(60),
        "bearer".to_string(),
        Some(vec!["read:user".to_string(), "user:email".to_string()]),
        1000,
    );
    assert_eq!(t.scope.as_deref(), Some("read:user user:email"));
    assert_eq!(t.expires_at, Some(1060));
    assert_eq!(t.refresh_secret().unwrap_err(), AuthError::OAuthTokenExchange);
    let t = OAuth2Token::from_grant(OAuth2Provider::GitHub, "at".to_string(), None, Some(u64::MAX), "bearer".to_string(), None, 5);
    assert_eq!(t.expires_at, Some(u64::MAX));
    assert_eq!(t.scope, None);
}

#[test]
fn refreshed_token_keeps_what_the_provider_left_out() {
    let t = OAuth2Token::from_grant(
        OAuth2Provider::Google,
        "at1".to_string(),
        Some("rt1".to_string()),
        None,
        "Bearer".to_string(),
        Some(vec!["openid".to_string()]),
        10,
    );
    assert_eq!(t.refresh_secret().unwrap(), "rt1");
    let n = t.refreshed("at2".to_string(), None, Some(5), "Bearer".to_string(), None, 20);
    assert_eq!(n.access_token, "at2");
    assert_eq!(n.refresh_token.as_deref(), Some("rt1"));
    assert_eq!(n.scope.as_deref(), Some("openid"));
    assert_eq!(n.expires_at, Some(25));
    assert_eq!(n.created_at, 20);
    let n = t.refreshed("at3".to_string(), Some("rt2".to_string()), None, "Bearer".to_string(), Some(vec![]), 30);
    assert_eq!(n.refresh_token.as_deref(), Some("rt2"));
    assert_eq!(n.scope.as_deref(), Some(""));
}

#[test]
fn provider_defaults() {
    assert_eq!(OAuth2Provider::Discord.default_scopes(), vec!["identify", "email"]);
    assert_eq!(OAuth2Provider::GitHub.user_info_endpoint(), "https://api.github.com/user");
    assert_eq!(OAuth2Provider::Microsoft.token_endpoint(), "https://login.microsoftonline.com/common/oauth2/v2.0/token");
}

#[test]
fn unparsable_callback_uri_is_config_error() {
    let mut c = config("https://front", vec![]);
    c.redirect_callback_uri = "not a url".to_string();
    let m = OAuth2Manager::new(vec![(OAuth2Provider::GitHub, c)]);
    assert_eq!(m.generate_auth_url(OAuth2Provider::GitHub, "s", None).unwrap_err(), AuthError::ConfigError);
}
