//! OAuth2 provider configuration, scopes and profile normalization.

use vstd::prelude::*;
use crate::error::AuthError;
use crate::user::{str_eq, OAuth2Provider, OAuth2UserInfo};

verus! {

/// Deployment settings of one OAuth2 provider.
#[derive(Debug)]
pub struct OAuth2Config {
    /// Name sent as the User-Agent of requests to the provider.
    pub app_name: String,
    pub client_id: String,
    pub client_secret: String,
    /// Where the provider sends the user back with a code.
    pub redirect_callback_uri: String,
    /// Where the frontend expects the user after the flow.
    pub redirect_frontend_uri: String,
    /// Scopes requested on top of the provider's defaults.
    pub additional_scopes: Vec<String>,
}

/// The configuration of `p` in `configs`: the last entry for `p`, if any.
pub open spec fn config_of(configs: Seq<(OAuth2Provider, OAuth2Config)>, p: OAuth2Provider) -> Option<
    OAuth2Config,
>
    decreases configs.len(),
{
    if configs.len() == 0 {
        None
    } else if configs.last().0 == p {
        Some(configs.last().1)
    } else {
        config_of(configs.drop_last(), p)
    }
}

/// A JSON value, as far as profile normalization reads it.
#[derive(Debug)]
pub enum JsonValue {
    Null,
    Bool(bool),
    /// A number that is a non-negative integer fitting in 64 bits.
    UInt(u64),
    /// Any other number.
    OtherNumber,
    Str(String),
    Array,
    Object,
}

/// A JSON object: its keys, each with its value.
#[derive(Debug)]
pub struct JsonObject {
    pub fields: Vec<(String, JsonValue)>,
}

/// The value of the first field of `fields` named `key`, if any.
pub open spec fn field_of(fields: Seq<(String, JsonValue)>, key: Seq<char>) -> Option<JsonValue>
    decreases fields.len(),
{
    if fields.len() == 0 {
        None
    } else if fields[0].0@ == key {
        Some(fields[0].1)
    } else {
        field_of(fields.drop_first(), key)
    }
}

impl JsonObject {
    /// The value under `key`, if any.
    pub open spec fn field(&self, key: Seq<char>) -> Option<JsonValue> {
        field_of(self.fields@, key)
    }

    /// The string under `key`, if there is one.
    pub open spec fn str_field(&self, key: Seq<char>) -> Option<Seq<char>> {
        match self.field(key) {
            Some(JsonValue::Str(s)) => Some(s@),
            _ => None,
        }
    }

    /// The boolean under `key`, if there is one.
    pub open spec fn bool_field(&self, key: Seq<char>) -> Option<bool> {
        match self.field(key) {
            Some(JsonValue::Bool(b)) => Some(b),
            _ => None,
        }
    }

    /// The unsigned integer under `key`, if there is one.
    pub open spec fn u64_field(&self, key: Seq<char>) -> Option<u64> {
        match self.field(key) {
            Some(JsonValue::UInt(n)) => Some(n),
            _ => None,
        }
    }

    /// The value under `key`, if any.
    pub fn get(&self, key: &str) -> (r: Option<&JsonValue>)
        ensures
            r == (match self.field(key@) {
                Some(v) => Some(&v),
                None => None::<&JsonValue>,
            }),
    {
        let mut i: usize = 0;
        assert(self.fields@.subrange(0, self.fields@.len() as int) =~= self.fields@);
        while i < self.fields.len()
            invariant
                i <= self.fields@.len(),
                field_of(self.fields@, key@) == field_of(self.fields@.subrange(i as int, self.fields@.len() as int), key@),
            decreases self.fields.len() - i,
        {
            let ghost rest = self.fields@.subrange(i as int, self.fields@.len() as int);
            assert(rest.drop_first() =~= self.fields@.subrange(i + 1, self.fields@.len() as int));
            if str_eq(self.fields[i].0.as_str(), key) {
                return Some(&self.fields[i].1);
            }
            i = i + 1;
        }
        None
    }

    /// The string under `key`, if there is one.
    pub fn get_str(&self, key: &str) -> (r: Option<String>)
        ensures
            opt_view(r) == self.str_field(key@),
    {
        match self.get(key) {
            Some(JsonValue::Str(s)) => Some(s.clone()),
            _ => None,
        }
    }

    /// The boolean under `key`, if there is one.
    pub fn get_bool(&self, key: &str) -> (r: Option<bool>)
        ensures
            r == self.bool_field(key@),
    {
        match self.get(key) {
            Some(JsonValue::Bool(b)) => Some(*b),
            _ => None,
        }
    }

    /// The unsigned integer under `key`, if there is one.
    pub fn get_u64(&self, key: &str) -> (r: Option<u64>)
        ensures
            r == self.u64_field(key@),
    {
        match self.get(key) {
            Some(JsonValue::UInt(n)) => Some(*n),
            _ => None,
        }
    }
}

/// The characters of an optional string.
pub open spec fn opt_view(o: Option<String>) -> Option<Seq<char>> {
    match o {
        Some(s) => Some(s@),
        None => None,
    }
}

/// The decimal digits of `n`, most significant first.
pub open spec fn decimal(n: nat) -> Seq<char>
    decreases n,
{
    if n < 10 {
        seq![(('0' as u8) + (n as u8)) as char]
    } else {
        decimal(n / 10).push((('0' as u8) + ((n % 10) as u8)) as char)
    }
}

/// Relies on `u64`'s `Display` (through `to_string`): the decimal digits of the number.
#[verifier::external_body]
fn u64_to_decimal(n: u64) -> (r: String)
    ensures
        r@ == decimal(n as nat),
{
    n.to_string()
}

/// The address of a Discord avatar.
pub open spec fn discord_avatar_url(user_id: Seq<char>, avatar_hash: Seq<char>) -> Seq<char> {
    "https://cdn.discordapp.com/avatars/"@ + user_id + "/"@ + avatar_hash + ".png"@
}

/// Whether `info` is the normalized profile that provider `p` describes with `body`, at time `now`.
pub open spec fn normalizes_to(p: OAuth2Provider, body: JsonObject, now: u64, info: OAuth2UserInfo) -> bool {
    &&& info.user_id@ == Seq::<char>::empty()
    &&& info.provider == p
    &&& info.updated_at == now
    &&& match p {
        OAuth2Provider::Google => {
            &&& body.str_field("id"@) == Some(info.provider_user_id@)
            &&& opt_view(info.email) == body.str_field("email"@)
            &&& opt_view(info.name) == body.str_field("name"@)
            &&& opt_view(info.avatar_url) == body.str_field("picture"@)
            &&& info.verified_email == body.bool_field("verified_email"@)
            &&& opt_view(info.locale) == body.str_field("locale"@)
        },
        OAuth2Provider::GitHub => {
            &&& body.u64_field("id"@) matches Some(n) && info.provider_user_id@ == decimal(n as nat)
            &&& opt_view(info.email) == (match body.str_field("email"@) {
                Some(e) => if e.len() > 0 { Some(e) } else { None },
                None => None,
            })
            &&& opt_view(info.name) == body.str_field("name"@)
            &&& opt_view(info.avatar_url) == body.str_field("avatar_url"@)
            &&& info.verified_email is None
            &&& info.locale is None
        },
        OAuth2Provider::Discord => {
            &&& body.str_field("id"@) == Some(info.provider_user_id@)
            &&& opt_view(info.email) == body.str_field("email"@)
            &&& opt_view(info.name) == body.str_field("username"@)
            &&& opt_view(info.avatar_url) == (match body.str_field("avatar"@) {
                Some(h) => Some(discord_avatar_url(info.provider_user_id@, h)),
                None => None,
            })
            &&& info.verified_email == body.bool_field("verified"@)
            &&& opt_view(info.locale) == body.str_field("locale"@)
        },
        OAuth2Provider::Microsoft => {
            &&& body.str_field("id"@) == Some(info.provider_user_id@)
            &&& opt_view(info.email) == (match body.str_field("mail"@) {
                Some(m) => Some(m),
                None => body.str_field("userPrincipalName"@),
            })
            &&& opt_view(info.name) == body.str_field("displayName"@)
            &&& info.avatar_url is None
            &&& info.verified_email is None
            &&& info.locale is None
        },
    }
}

/// Whether provider `p`'s profile `body` carries the account id.
pub open spec fn has_account_id(p: OAuth2Provider, body: JsonObject) -> bool {
    match p {
        OAuth2Provider::GitHub => body.u64_field("id"@) is Some,
        _ => body.str_field("id"@) is Some,
    }
}

/// The characters of each string of `v`.
pub open spec fn views(v: Seq<String>) -> Seq<Seq<char>> {
    v.map_values(|s: String| s@)
}

/// The scopes of an optional list.
pub open spec fn opt_scopes(v: Option<Vec<String>>) -> Set<Seq<char>> {
    match v {
        Some(v) => views(v@).to_set(),
        None => Set::empty(),
    }
}

/// Scopes that OAuth2 providers request by default.
pub open spec fn default_scopes_of(p: OAuth2Provider) -> Seq<Seq<char>> {
    match p {
        OAuth2Provider::Google => seq!["openid"@, "email"@, "profile"@],
        OAuth2Provider::GitHub => seq!["read:user"@, "user:email"@],
        OAuth2Provider::Discord => seq!["identify"@, "email"@],
        OAuth2Provider::Microsoft => seq!["openid"@, "profile"@, "email"@, "User.Read"@],
    }
}

/// The authorization endpoint of a provider.
pub open spec fn auth_endpoint_of(p: OAuth2Provider) -> Seq<char> {
    match p {
        OAuth2Provider::Google => "https://accounts.google.com/o/oauth2/v2/auth"@,
        OAuth2Provider::GitHub => "https://github.com/login/oauth/authorize"@,
        OAuth2Provider::Discord => "https://discord.com/api/oauth2/authorize"@,
        OAuth2Provider::Microsoft => "https://login.microsoftonline.com/common/oauth2/v2.0/authorize"@,
    }
}

/// The token endpoint of a provider.
pub open spec fn token_endpoint_of(p: OAuth2Provider) -> Seq<char> {
    match p {
        OAuth2Provider::Google => "https://oauth2.googleapis.com/token"@,
        OAuth2Provider::GitHub => "https://github.com/login/oauth/access_token"@,
        OAuth2Provider::Discord => "https://discord.com/api/oauth2/token"@,
        OAuth2Provider::Microsoft => "https://login.microsoftonline.com/common/oauth2/v2.0/token"@,
    }
}

/// The profile endpoint of a provider.
pub open spec fn user_info_endpoint_of(p: OAuth2Provider) -> Seq<char> {
    match p {
        OAuth2Provider::Google => "https://www.googleapis.com/oauth2/v2/userinfo"@,
        OAuth2Provider::GitHub => "https://api.github.com/user"@,
        OAuth2Provider::Discord => "https://discord.com/api/users/@me"@,
        OAuth2Provider::Microsoft => "https://graph.microsoft.com/v1.0/me"@,
    }
}

impl OAuth2Provider {
    /// The scopes this provider is asked for by default.
    pub fn default_scopes(&self) -> (r: Vec<String>)
        ensures
            views(r@) == default_scopes_of(*self),
    {
        let names: Vec<&str> = match self {
            OAuth2Provider::Google => vec!["openid", "email", "profile"],
            OAuth2Provider::GitHub => vec!["read:user", "user:email"],
            OAuth2Provider::Discord => vec!["identify", "email"],
            OAuth2Provider::Microsoft => vec!["openid", "profile", "email", "User.Read"],
        };
        let mut r: Vec<String> = Vec::new();
        let mut i: usize = 0;
        while i < names.len()
            invariant
                i <= names@.len(),
                views(r@) == names@.subrange(0, i as int).map_values(|s: &str| s@),
            decreases names.len() - i,
        {
            r.push(String::from_str(names[i]));
            proof {
                assert(names@.subrange(0, i + 1).map_values(|s: &str| s@) =~= names@.subrange(0, i as int).map_values(
                    |s: &str| s@,
                ).push(names@[i as int]@));
                assert(views(r@) =~= views(r@.drop_last()).push(r@.last()@));
            }
            i = i + 1;
        }
        assert(names@.subrange(0, names@.len() as int) =~= names@);
        assert(views(r@) =~= default_scopes_of(*self));
        r
    }

    /// The authorization endpoint of this provider.
    pub fn auth_endpoint(&self) -> (r: &'static str)
        ensures
            r@ == auth_endpoint_of(*self),
    {
        match self {
            OAuth2Provider::Google => "https://accounts.google.com/o/oauth2/v2/auth",
            OAuth2Provider::GitHub => "https://github.com/login/oauth/authorize",
            OAuth2Provider::Discord => "https://discord.com/api/oauth2/authorize",
            OAuth2Provider::Microsoft => "https://login.microsoftonline.com/common/oauth2/v2.0/authorize",
        }
    }

    /// The token endpoint of this provider.
    pub fn token_endpoint(&self) -> (r: &'static str)
        ensures
            r@ == token_endpoint_of(*self),
    {
        match self {
            OAuth2Provider::Google => "https://oauth2.googleapis.com/token",
            OAuth2Provider::GitHub => "https://github.com/login/oauth/access_token",
            OAuth2Provider::Discord => "https://discord.com/api/oauth2/token",
            OAuth2Provider::Microsoft => "https://login.microsoftonline.com/common/oauth2/v2.0/token",
        }
    }

    /// The profile endpoint of this provider.
    pub fn user_info_endpoint(&self) -> (r: &'static str)
        ensures
            r@ == user_info_endpoint_of(*self),
    {
        match self {
            OAuth2Provider::Google => "https://www.googleapis.com/oauth2/v2/userinfo",
            OAuth2Provider::GitHub => "https://api.github.com/user",
            OAuth2Provider::Discord => "https://discord.com/api/users/@me",
            OAuth2Provider::Microsoft => "https://graph.microsoft.com/v1.0/me",
        }
    }
}

/// Adds the scopes of `more` that `out` lacks to `out`, in order.
fn add_missing_scopes(out: &mut Vec<String>, more: &Vec<String>)
    requires
        views(old(out)@).no_duplicates(),
    ensures
        views(final(out)@).no_duplicates(),
        views(final(out)@).to_set() == views(old(out)@).to_set() + views(more@).to_set(),
{
    let mut i: usize = 0;
    while i < more.len()
        invariant
            i <= more@.len(),
            views(out@).no_duplicates(),
            views(out@).to_set() == views(old(out)@).to_set() + views(more@.subrange(0, i as int)).to_set(),
        decreases more.len() - i,
    {
        let ghost before = out@;
        let mut found = false;
        let mut j: usize = 0;
        while j < out.len()
            invariant
                out@ == before,
                i < more@.len(),
                j <= out@.len(),
                found == exists|k: int| 0 <= k < j && out@[k]@ == more@[i as int]@,
            decreases out.len() - j,
        {
            if out[j] == more[i] {
                found = true;
            }
            j = j + 1;
        }
        if !found {
            out.push(more[i].clone());
            proof {
                assert(views(out@) =~= views(before).push(more@[i as int]@));
                assert forall|a: int, b: int|
                    0 <= a < views(out@).len() && 0 <= b < views(out@).len() && a != b implies views(out@)[a]
                    != views(out@)[b] by {
                    let n = before.len() as int;
                    if a == n {
                        assert(views(out@)[b] == before[b]@);
                    } else if b == n {
                        assert(views(out@)[a] == before[a]@);
                    }
                }
            }
        }
        proof {
            let sub_next = views(more@.subrange(0, i + 1));
            assert(sub_next =~= views(more@.subrange(0, i as int)).push(more@[i as int]@));
            views(before).lemma_push_to_set_commute(more@[i as int]@);
            views(more@.subrange(0, i as int)).lemma_push_to_set_commute(more@[i as int]@);
            assert(views(out@).to_set() =~= views(old(out)@).to_set() + sub_next.to_set()) by {
                if found {
                    let k = choose|k: int| 0 <= k < before.len() && before[k]@ == more@[i as int]@;
                    assert(views(before)[k] == more@[i as int]@);
                }
            }
        }
        i = i + 1;
    }
    assert(more@.subrange(0, more@.len() as int) =~= more@);
}

/// The scopes of a request: the provider's defaults, the caller's and the
/// configured ones, each once.
pub fn merge_scopes(defaults: Vec<String>, requested: Option<Vec<String>>, configured: &Vec<String>) -> (r: Vec<String>)
    ensures
        views(r@).no_duplicates(),
        views(r@).to_set() == views(defaults@).to_set() + opt_scopes(requested) + views(configured@).to_set(),
{
    let mut out: Vec<String> = Vec::new();
    assert(views(out@).to_set() =~= Set::<Seq<char>>::empty());
    add_missing_scopes(&mut out, &defaults);
    match &requested {
        Some(extra) => add_missing_scopes(&mut out, extra),
        None => {},
    }
    add_missing_scopes(&mut out, configured);
    assert(views(out@).to_set() =~= views(defaults@).to_set() + opt_scopes(requested) + views(configured@).to_set());
    out
}

/// The authorization URL that oauth2 builds for an endpoint, a client id, a
/// redirect URI, a CSRF state and a list of scopes.
pub uninterp spec fn authorize_url_of(
    auth_url: Seq<char>,
    client_id: Seq<char>,
    redirect_uri: Seq<char>,
    state: Seq<char>,
    scopes: Seq<Seq<char>>,
) -> Seq<char>;

/// Whether `url::Url::parse` accepts the text `s`.
pub uninterp spec fn url_parses(s: Seq<char>) -> bool;

/// Relies on oauth2's `Client::authorize_url` and `AuthorizationRequest::url`,
/// after `AuthUrl::new` and `RedirectUrl::new` parse the two URLs (each is
/// `url::Url::parse`): the URL depends on the arguments alone. `None`
/// exactly when one of the two URLs does not parse.
#[verifier::external_body]
fn authorize_url(
    auth_url: &str,
    client_id: &str,
    redirect_uri: &str,
    state: &str,
    scopes: &Vec<String>,
) -> (r: Option<String>)
    ensures
        r is Some <==> (url_parses(auth_url@) && url_parses(redirect_uri@)),
        r matches Some(u) ==> u@ == authorize_url_of(auth_url@, client_id@, redirect_uri@, state@, views(scopes@)),
{
    let auth = oauth2::AuthUrl::new(auth_url.to_string()).ok()?;
    let redirect = oauth2::RedirectUrl::new(redirect_uri.to_string()).ok()?;
    let client = oauth2::basic::BasicClient::new(oauth2::ClientId::new(client_id.to_string()))
        .set_auth_uri(auth)
        .set_redirect_uri(redirect);
    let request = client.authorize_url(|| oauth2::CsrfToken::new(state.to_string()));
    let request = request.add_scopes(scopes.iter().map(|s| oauth2::Scope::new(s.clone())));
    Some(request.url().0.to_string())
}

/// A token granted by an OAuth2 provider.
#[derive(Debug)]
pub struct OAuth2Token {
    pub access_token: String,
    pub refresh_token: Option<String>,
    /// When the access token expires, in seconds since the epoch, if the provider said.
    pub expires_at: Option<u64>,
    pub token_type: String,
    /// The granted scopes, separated by spaces.
    pub scope: Option<String>,
    pub provider: OAuth2Provider,
    /// When the token was obtained, in seconds since the epoch.
    pub created_at: u64,
}

/// The strings of `s` separated by single spaces.
pub open spec fn space_joined(s: Seq<Seq<char>>) -> Seq<char>
    decreases s.len(),
{
    if s.len() == 0 {
        Seq::empty()
    } else if s.len() == 1 {
        s[0]
    } else {
        space_joined(s.drop_last()) + " "@ + s.last()
    }
}

/// Joins scopes with single spaces.
pub fn join_scopes(scopes: &Vec<String>) -> (r: String)
    ensures
        r@ == space_joined(views(scopes@)),
{
    let mut out = String::new();
    let mut i: usize = 0;
    while i < scopes.len()
        invariant
            i <= scopes@.len(),
            out@ == space_joined(views(scopes@).subrange(0, i as int)),
        decreases scopes.len() - i,
    {
        proof {
            let next = views(scopes@).subrange(0, i + 1);
            assert(next.drop_last() =~= views(scopes@).subrange(0, i as int));
            reveal_strlit(" ");
        }
        if i > 0 {
            out.append(" ");
        }
        out.append(scopes[i].as_str());
        proof {
            let next = views(scopes@).subrange(0, i + 1);
            if i == 0 {
                assert(out@ =~= next[0]);
            }
        }
        i = i + 1;
    }
    assert(views(scopes@).subrange(0, scopes@.len() as int) =~= views(scopes@));
    out
}

/// The moment `secs` seconds after `now`, or the last representable one.
pub open spec fn after_secs(now: u64, secs: u64) -> u64 {
    if now + secs > u64::MAX {
        u64::MAX
    } else {
        (now + secs) as u64
    }
}

/// Adds `secs` seconds to `now`, stopping at the last representable moment.
fn add_secs(now: u64, secs: u64) -> (r: u64)
    ensures
        r == after_secs(now, secs),
{
    match now.checked_add(secs) {
        Some(t) => t,
        None => u64::MAX,
    }
}

impl OAuth2Token {
    /// The token a provider granted at time `now` in exchange for a code:
    /// its access and refresh tokens, its lifetime in seconds, its type and
    /// the granted scopes.
    pub fn from_grant(
        provider: OAuth2Provider,
        access_token: String,
        refresh_token: Option<String>,
        expires_in: Option<u64>,
        token_type: String,
        scopes: Option<Vec<String>>,
        now: u64,
    ) -> (r: OAuth2Token)
        ensures
            r.access_token == access_token,
            r.refresh_token == refresh_token,
            r.expires_at == (match expires_in {
                Some(secs) => Some(after_secs(now, secs)),
                None => None,
            }),
            r.token_type == token_type,
            opt_view(r.scope) == (match scopes {
                Some(v) => Some(space_joined(views(v@))),
                None => None,
            }),
            r.provider == provider,
            r.created_at == now,
    {
        let expires_at = match expires_in {
            Some(secs) => Some(add_secs(now, secs)),
            None => None,
        };
        let scope = match &scopes {
            Some(v) => Some(join_scopes(v)),
            None => None,
        };
        OAuth2Token { access_token, refresh_token, expires_at, token_type, scope, provider, created_at: now }
    }

    /// The refresh token to present, or `OAuthTokenExchange` when the
    /// provider granted none.
    pub fn refresh_secret(&self) -> (r: Result<String, AuthError>)
        ensures
            match r {
                Ok(t) => self.refresh_token == Some(t),
                Err(e) => self.refresh_token is None && e == AuthError::OAuthTokenExchange,
            },
    {
        match &self.refresh_token {
            Some(t) => Ok(t.clone()),
            None => Err(AuthError::OAuthTokenExchange),
        }
    }

    /// The token that replaces this one after a refresh granted at time
    /// `now`. A refresh token or scopes that the provider leaves out are
    /// kept from this token.
    pub fn refreshed(
        &self,
        access_token: String,
        refresh_token: Option<String>,
        expires_in: Option<u64>,
        token_type: String,
        scopes: Option<Vec<String>>,
        now: u64,
    ) -> (r: OAuth2Token)
        ensures
            r.access_token == access_token,
            r.refresh_token == (match refresh_token {
                Some(t) => Some(t),
                None => self.refresh_token,
            }),
            r.expires_at == (match expires_in {
                Some(secs) => Some(after_secs(now, secs)),
                None => None,
            }),
            r.token_type == token_type,
            opt_view(r.scope) == (match scopes {
                Some(v) => Some(space_joined(views(v@))),
                None => opt_view(self.scope),
            }),
            r.provider == self.provider,
            r.created_at == now,
    {
        let kept_refresh = match refresh_token {
            Some(t) => Some(t),
            None => crate::user::clone_opt_string(&self.refresh_token),
        };
        let scope = match &scopes {
            Some(v) => Some(join_scopes(v)),
            None => crate::user::clone_opt_string(&self.scope),
        };
        OAuth2Token {
            access_token,
            refresh_token: kept_refresh,
            expires_at: match expires_in {
                Some(secs) => Some(add_secs(now, secs)),
                None => None,
            },
            token_type,
            scope,
            provider: self.provider,
            created_at: now,
        }
    }
}

/// Runs OAuth2 flows for the configured providers.
#[derive(Debug)]
pub struct OAuth2Manager {
    configs: Vec<(OAuth2Provider, OAuth2Config)>,
}

impl OAuth2Manager {
    /// The configuration of provider `p`, if any.
    pub closed spec fn config(&self, p: OAuth2Provider) -> Option<OAuth2Config> {
        config_of(self.configs@, p)
    }

    /// A manager for the given providers; a later entry for a provider
    /// replaces an earlier one.
    pub fn new(configs: Vec<(OAuth2Provider, OAuth2Config)>) -> (r: Self)
        ensures
            forall|p: OAuth2Provider| #[trigger] r.config(p) == config_of(configs@, p),
    {
        OAuth2Manager { configs }
    }

    /// The configuration of provider `p`, or `ConfigError` when there is none.
    pub fn get_config(&self, p: OAuth2Provider) -> (r: Result<&OAuth2Config, AuthError>)
        ensures
            match r {
                Ok(c) => self.config(p) == Some(*c),
                Err(e) => self.config(p) is None && e == AuthError::ConfigError,
            },
    {
        let mut i: usize = self.configs.len();
        assert(self.configs@.subrange(0, i as int) =~= self.configs@);
        while i > 0
            invariant
                i <= self.configs@.len(),
                config_of(self.configs@, p) == config_of(self.configs@.subrange(0, i as int), p),
            decreases i,
        {
            let ghost prefix = self.configs@.subrange(0, i as int);
            assert(prefix.drop_last() =~= self.configs@.subrange(0, i - 1));
            if self.configs[i - 1].0 == p {
                return Ok(&self.configs[i - 1].1);
            }
            i = i - 1;
        }
        Err(AuthError::ConfigError)
    }

    /// The frontend redirect URI configured for provider `p`.
    pub fn get_redirect_frontend_uri(&self, p: OAuth2Provider) -> (r: Result<String, AuthError>)
        ensures
            match r {
                Ok(uri) => self.config(p) matches Some(c) && uri == c.redirect_frontend_uri,
                Err(e) => self.config(p) is None && e == AuthError::ConfigError,
            },
    {
        let c = self.get_config(p)?;
        Ok(c.redirect_frontend_uri.clone())
    }

    /// Normalizes provider `provider`'s profile `response_body`, at time `now`.
    /// A profile without the account id is refused with `OAuthInvalidResponse`.
    pub fn parse_user_info(&self, provider: OAuth2Provider, response_body: &JsonObject, now: u64) -> (r: Result<
        OAuth2UserInfo,
        AuthError,
    >)
        ensures
            r is Ok <==> has_account_id(provider, *response_body),
            match r {
                Ok(info) => normalizes_to(provider, *response_body, now, info),
                Err(e) => e == AuthError::OAuthInvalidResponse,
            },
    {
        let body = response_body;
        proof {
            reveal_strlit("id");
            reveal_strlit("email");
            reveal_strlit("name");
            reveal_strlit("picture");
            reveal_strlit("verified_email");
            reveal_strlit("locale");
            reveal_strlit("avatar_url");
            reveal_strlit("username");
            reveal_strlit("avatar");
            reveal_strlit("verified");
            reveal_strlit("mail");
            reveal_strlit("userPrincipalName");
            reveal_strlit("displayName");
        }
        match provider {
            OAuth2Provider::Google => {
                let provider_user_id = match body.get_str("id") {
                    Some(id) => id,
                    None => {
                        return Err(AuthError::OAuthInvalidResponse);
                    },
                };
                Ok(
                    OAuth2UserInfo {
                        user_id: String::new(),
                        provider,
                        provider_user_id,
                        email: body.get_str("email"),
                        name: body.get_str("name"),
                        avatar_url: body.get_str("picture"),
                        verified_email: body.get_bool("verified_email"),
                        locale: body.get_str("locale"),
                        updated_at: now,
                    },
                )
            },
            OAuth2Provider::GitHub => {
                let provider_user_id = match body.get_u64("id") {
                    Some(n) => u64_to_decimal(n),
                    None => {
                        return Err(AuthError::OAuthInvalidResponse);
                    },
                };
                let email = match body.get_str("email") {
                    Some(e) => if e.as_str().is_empty() {
                        None
                    } else {
                        Some(e)
                    },
                    None => None,
                };
                Ok(
                    OAuth2UserInfo {
                        user_id: String::new(),
                        provider,
                        provider_user_id,
                        email,
                        name: body.get_str("name"),
                        avatar_url: body.get_str("avatar_url"),
                        verified_email: None,
                        locale: None,
                        updated_at: now,
                    },
                )
            },
            OAuth2Provider::Discord => {
                let provider_user_id = match body.get_str("id") {
                    Some(id) => id,
                    None => {
                        return Err(AuthError::OAuthInvalidResponse);
                    },
                };
                let avatar_url = match body.get_str("avatar") {
                    Some(hash) => {
                        let mut url = String::from_str("https://cdn.discordapp.com/avatars/");
                        url.append(provider_user_id.as_str());
                        url.append("/");
                        url.append(hash.as_str());
                        url.append(".png");
                        Some(url)
                    },
                    None => None,
                };
                Ok(
                    OAuth2UserInfo {
                        user_id: String::new(),
                        provider,
                        provider_user_id,
                        email: body.get_str("email"),
                        name: body.get_str("username"),
                        avatar_url,
                        verified_email: body.get_bool("verified"),
                        locale: body.get_str("locale"),
                        updated_at: now,
                    },
                )
            },
            OAuth2Provider::Microsoft => {
                let provider_user_id = match body.get_str("id") {
                    Some(id) => id,
                    None => {
                        return Err(AuthError::OAuthInvalidResponse);
                    },
                };
                let email = match body.get_str("mail") {
                    Some(m) => Some(m),
                    None => body.get_str("userPrincipalName"),
                };
                Ok(
                    OAuth2UserInfo {
                        user_id: String::new(),
                        provider,
                        provider_user_id,
                        email,
                        name: body.get_str("displayName"),
                        avatar_url: None,
                        verified_email: None,
                        locale: None,
                        updated_at: now,
                    },
                )
            },
        }
    }

    /// Whether an authorization URL can be built for `provider`: it is
    /// configured, and its endpoint and its callback URI parse as URLs.
    pub open spec fn auth_url_possible(&self, provider: OAuth2Provider) -> bool {
        self.config(provider) is Some && url_parses(auth_endpoint_of(provider)) && url_parses(
            self.config(provider)->Some_0.redirect_callback_uri@,
        )
    }

    /// Whether `url` is the authorization URL for `provider` with CSRF state
    /// `state`, requesting the provider's default scopes, `requested` and the
    /// configured scopes, each once and in some order.
    pub open spec fn builds_auth_url(
        &self,
        provider: OAuth2Provider,
        state: Seq<char>,
        requested: Option<Vec<String>>,
        url: Seq<char>,
    ) -> bool {
        &&& self.config(provider) is Some
        &&& exists|all: Seq<Seq<char>>|
            all.no_duplicates() && all.to_set() == default_scopes_of(provider).to_set() + opt_scopes(requested)
                + views(self.config(provider)->Some_0.additional_scopes@).to_set() && url == #[trigger] authorize_url_of(
                auth_endpoint_of(provider),
                self.config(provider)->Some_0.client_id@,
                self.config(provider)->Some_0.redirect_callback_uri@,
                state,
                all,
            )
    }

    /// The authorization URL for `provider` with CSRF state `state`,
    /// requesting the provider's default scopes, the caller's `scopes` and
    /// the configured ones.
    pub fn generate_auth_url(&self, provider: OAuth2Provider, state: &str, scopes: Option<Vec<String>>) -> (r: Result<
        String,
        AuthError,
    >)
        ensures
            r is Ok <==> self.auth_url_possible(provider),
            match r {
                Ok(url) => self.builds_auth_url(provider, state@, scopes, url@),
                Err(e) => e == AuthError::ConfigError,
            },
    {
        let config = match self.get_config(provider) {
            Ok(c) => c,
            Err(e) => {
                return Err(e);
            },
        };
        let defaults = provider.default_scopes();
        let ghost requested = scopes;
        let all = merge_scopes(defaults, scopes, &config.additional_scopes);
        match authorize_url(
            provider.auth_endpoint(),
            config.client_id.as_str(),
            config.redirect_callback_uri.as_str(),
            state,
            &all,
        ) {
            Some(url) => {
                assert(views(all@).to_set() == default_scopes_of(provider).to_set() + opt_scopes(requested)
                    + views(config.additional_scopes@).to_set());
                assert(url@ == authorize_url_of(
                    auth_endpoint_of(provider),
                    config.client_id@,
                    config.redirect_callback_uri@,
                    state@,
                    views(all@),
                ));
                assert(self.config(provider) == Some(*config));
                assert(views(all@).no_duplicates());
                assert(self.builds_auth_url(provider, state@, requested, url@)) by {
                    assert(self.config(provider) == Some(*config));
                    assert(url@ == authorize_url_of(
                        auth_endpoint_of(provider),
                        self.config(provider)->Some_0.client_id@,
                        self.config(provider)->Some_0.redirect_callback_uri@,
                        state@,
                        views(all@),
                    ));
                }
                Ok(url)
            },
            None => Err(AuthError::ConfigError),
        }
    }

    /// The normalized profile from the provider's answer to a profile
    /// request, at time `now`: `OAuthUserInfo` when the HTTP status is not a
    /// success (2xx), `OAuthInvalidResponse` when the body is not a JSON
    /// object (`None`) or lacks the account id.
    pub fn user_info_from_response(
        &self,
        provider: OAuth2Provider,
        status: u16,
        body: Option<&JsonObject>,
        now: u64,
    ) -> (r: Result<OAuth2UserInfo, AuthError>)
        ensures
            !(200 <= status < 300) ==> r == Err::<OAuth2UserInfo, AuthError>(AuthError::OAuthUserInfo),
            200 <= status < 300 ==> match body {
                None => r == Err::<OAuth2UserInfo, AuthError>(AuthError::OAuthInvalidResponse),
                Some(b) => (r is Ok <==> has_account_id(provider, *b)) && match r {
                    Ok(info) => normalizes_to(provider, *b, now, info),
                    Err(e) => e == AuthError::OAuthInvalidResponse,
                },
            },
    {
        if status < 200 || status >= 300 {
            return Err(AuthError::OAuthUserInfo);
        }
        match body {
            Some(b) => self.parse_user_info(provider, b, now),
            None => Err(AuthError::OAuthInvalidResponse),
        }
    }

    /// Marks the profile `oauth_info` as linked to the user `user_id`.
    pub fn link_to_user(oauth_info: OAuth2UserInfo, user_id: String) -> (r: OAuth2UserInfo)
        ensures
            r == (OAuth2UserInfo { user_id, ..oauth_info }),
    {
        let mut info = oauth_info;
        info.user_id = user_id;
        info
    }
}

impl Default for OAuth2Manager {
    /// A manager with no provider configured.
    fn default() -> (r: Self)
        ensures
            forall|p: OAuth2Provider| #[trigger] r.config(p) is None,
    {
        OAuth2Manager { configs: Vec::new() }
    }
}

} // verus!
