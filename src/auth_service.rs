//! The orchestrator: signup, login, account linking and token operations,
//! built from the password manager, the user store, the token service and
//! the OAuth2 manager.

use vstd::prelude::*;
use crate::error::AuthError;
use crate::oauth::OAuth2Manager;
use crate::password::{password_matches, Argon2PasswordManager, MAX_PASSWORD_CHARS};
use crate::store::{
    clashes, clashes_any, shares_external, lemma_external_held_once, lemma_id_held_once, lemma_identifier_held_once,
    lemma_relink_no_clash, lemma_shrink_no_clash, InMemoryUserRepo, StoreError,
};
use crate::token::{
    fresh_pair, is_valid, issued_pair, new_uuid_v4, refreshed_as, valid_record, AccessTokenClaims, IssuedToken, TokenKind, TokenPair,
    TokenService,
};
use crate::user::{lemma_external_via_links, OAuth2Provider, OAuth2UserInfo, User, UserView};

verus! {

/// How many fresh ids an OAuth2 signup draws before giving up.
pub const INSERT_ATTEMPTS: u32 = 3;

/// How a caller proves who they are when logging in.
#[derive(Debug, Clone)]
pub enum LoginMethod {
    /// An identifier and a plain-text password.
    Credentials { identifier: String, password: String },
    /// An authorization code from an OAuth2 provider, with its CSRF state.
    OAuth2 { provider: OAuth2Provider, code: String, state: String },
}

/// How a caller registers.
#[derive(Debug, Clone)]
pub enum SignupMethod {
    /// An identifier and a plain-text password.
    Credentials { identifier: String, password: String },
    /// An authorization code from an OAuth2 provider, with its CSRF state;
    /// the account is created if it does not exist.
    OAuth2 { provider: OAuth2Provider, code: String, state: String },
}

/// What a login or signup asks of its caller.
#[derive(Debug)]
pub enum AuthStep {
    /// The operation is over, with this outcome.
    Done(Result<(User, TokenPair), AuthError>),
    /// Exchange the code at the provider and fetch the profile, then hand the
    /// outcome to `complete_oauth2`.
    FetchProfile { provider: OAuth2Provider, code: String, state: String },
}

/// Token lifetimes, in seconds.
#[derive(Debug, Clone, Copy)]
pub struct AuthServiceVariables {
    /// Lifetime of an access token.
    pub token_expiration: u64,
    /// Lifetime of a refresh token.
    pub refresh_token_expiration: u64,
}

impl Default for AuthServiceVariables {
    fn default() -> (r: Self)
        ensures
            r.token_expiration == 3600,
            r.refresh_token_expiration == 604800,
    {
        AuthServiceVariables { token_expiration: 3600, refresh_token_expiration: 604800 }
    }
}

/// Whether the stored user `s[i]` is where an OAuth2 profile `info` leads:
/// the holder of its external account or, when nobody holds it, the user
/// whose identifier equals its email.
pub open spec fn resolves_to(s: Seq<UserView>, info: OAuth2UserInfo, i: int) -> bool {
    &&& 0 <= i < s.len()
    &&& {
        ||| s[i].has_external(info.provider, info.provider_user_id@)
        ||| (forall|j: int|
            0 <= j < s.len() ==> !(#[trigger] s[j]).has_external(info.provider, info.provider_user_id@))
            && (info.email matches Some(e) && s[i].identifier() == Some(e@))
    }
}

/// Whether an OAuth2 profile `info` leads to no stored user.
pub open spec fn resolves_to_none(s: Seq<UserView>, info: OAuth2UserInfo) -> bool {
    &&& forall|j: int| 0 <= j < s.len() ==> !(#[trigger] s[j]).has_external(info.provider, info.provider_user_id@)
    &&& (info.email matches Some(e) ==> forall|j: int| 0 <= j < s.len() ==> (#[trigger] s[j]).identifier() != Some(e@))
}

/// Whether `u` is `before` with `info` linked at time `now`.
pub open spec fn relinked(u: UserView, before: UserView, info: OAuth2UserInfo, now: u64) -> bool {
    &&& u.wf()
    &&& u.id == before.id
    &&& u.credentials == before.credentials
    &&& u.links() == before.links().insert(info.provider, info)
    &&& u.created_at == before.created_at
    &&& u.updated_at == now
}

/// Whether `u` is a new user whose only trait is the link `info`, made at `now`.
pub open spec fn created_from(u: UserView, info: OAuth2UserInfo, now: u64) -> bool {
    &&& u.credentials is None
    &&& u.accounts == seq![info]
    &&& u.links() == Map::<OAuth2Provider, OAuth2UserInfo>::empty().insert(info.provider, info)
    &&& u.created_at == now
    &&& u.updated_at == now
}

/// Random values drawn for one operation: an id for a user it may create,
/// and the two tokens it may issue.
#[derive(Debug)]
pub struct FreshValues {
    pub user_id: String,
    pub access_token: String,
    pub refresh_token: String,
}

/// The drawn values, as sequences of characters.
pub struct Draw {
    pub user_id: Seq<char>,
    pub access: Seq<char>,
    pub refresh: Seq<char>,
}

impl View for FreshValues {
    type V = Draw;

    open spec fn view(&self) -> Draw {
        Draw { user_id: self.user_id@, access: self.access_token@, refresh: self.refresh_token@ }
    }
}

impl FreshValues {
    /// Three random version-4 UUIDs.
    pub fn draw() -> (r: Self) {
        FreshValues { user_id: new_uuid_v4(), access_token: new_uuid_v4(), refresh_token: new_uuid_v4() }
    }
}

/// Whether the pair `t` holds the drawn tokens of `d`.
pub open spec fn pair_is(t: TokenPair, d: Draw) -> bool {
    t.access_token@ == d.access && t.refresh_token@ == d.refresh
}

/// Whether a stored user has the id `id`.
pub open spec fn id_taken(s: Seq<UserView>, id: Seq<char>) -> bool {
    exists|j: int| 0 <= j < s.len() && (#[trigger] s[j]).id == id
}

/// Whether a stored user has the id `id` or the identifier `identifier`.
pub open spec fn signup_taken(s: Seq<UserView>, identifier: Seq<char>, id: Seq<char>) -> bool {
    exists|j: int| 0 <= j < s.len() && ((#[trigger] s[j]).id == id || s[j].identifier() == Some(identifier))
}

/// Whether `u` is the user that a credentials signup with the drawn values
/// `d` creates at `now`.
pub open spec fn signed_up_user(u: UserView, identifier: Seq<char>, password: Seq<char>, now: u64, d: Draw) -> bool {
    &&& u.wf()
    &&& u.id == d.user_id
    &&& u.identifier() == Some(identifier)
    &&& password_matches(password, u.credentials->Some_0.password_hash@)
    &&& u.accounts == Seq::<OAuth2UserInfo>::empty()
    &&& u.created_at == now
    &&& u.updated_at == now
}

/// The authentication service.
#[derive(Debug)]
pub struct AuthService {
    /// Token lifetimes.
    pub vars: AuthServiceVariables,
    /// Hashes and verifies passwords.
    pub password_manager: Argon2PasswordManager,
    /// Stores the users.
    pub persistent_users_manager: InMemoryUserRepo,
    /// Issues and checks tokens.
    pub token_manager: TokenService,
    /// Knows the OAuth2 providers.
    pub oauth2_manager: OAuth2Manager,
}

impl AuthService {
    /// Well-formed: the store and the token service are.
    pub open spec fn wf(&self) -> bool {
        self.persistent_users_manager.wf() && self.token_manager.wf()
    }

    /// The stored users.
    pub open spec fn users(&self) -> Seq<UserView> {
        self.persistent_users_manager@
    }

    /// The tokens on record.
    pub open spec fn tokens(&self) -> Seq<IssuedToken> {
        self.token_manager@
    }

    /// Whether `after` holds the tokens of `before` and the pair `t` issued for `subject` at `now`.
    pub open spec fn issued_for(before: Self, after: Self, t: TokenPair, subject: Seq<char>, now: u64) -> bool {
        after.tokens() == before.tokens() + issued_pair(
            t,
            subject,
            now,
            before.token_manager.access_ttl(),
            before.token_manager.refresh_ttl(),
        )
    }

    /// Whether the token lifetimes of `after` are those of `before`.
    pub open spec fn same_ttls(before: Self, after: Self) -> bool {
        after.token_manager.access_ttl() == before.token_manager.access_ttl()
            && after.token_manager.refresh_ttl() == before.token_manager.refresh_ttl()
    }

    /// Whether the drawn tokens of `d` can be issued in `before`: they differ
    /// and neither is on record.
    pub open spec fn tokens_fresh(before: Self, d: Draw) -> bool {
        fresh_pair(before.tokens(), d.access, d.refresh)
    }

    /// What a credentials signup from `before` to `after`, with the drawn
    /// values `d`, returns and changes.
    pub open spec fn signed_up(
        before: Self,
        after: Self,
        identifier: Seq<char>,
        password: Seq<char>,
        now: u64,
        d: Draw,
        r: Result<(User, TokenPair), AuthError>,
    ) -> bool {
        let s = before.users();
        let taken = signup_taken(s, identifier, d.user_id);
        &&& (password.len() == 0 <==> r == Err::<(User, TokenPair), AuthError>(AuthError::InvalidPassword))
        &&& (r == Err::<(User, TokenPair), AuthError>(AuthError::HashingError) ==> password.len()
            > MAX_PASSWORD_CHARS)
        &&& (password.len() > 0 && r != Err::<(User, TokenPair), AuthError>(AuthError::HashingError) ==> {
            &&& (r == Err::<(User, TokenPair), AuthError>(AuthError::SignupError) <==> taken)
            &&& (!taken ==> (r is Ok <==> Self::tokens_fresh(before, d)))
        })
        &&& match r {
            Ok((u, t)) => {
                &&& signed_up_user(u@, identifier, password, now, d)
                &&& after.users() == s.push(u@)
                &&& pair_is(t, d)
                &&& Self::issued_for(before, after, t, u@.id, now)
            },
            Err(e) => {
                &&& e == AuthError::InvalidPassword || e == AuthError::HashingError || e == AuthError::SignupError
                    || e == AuthError::TokenGeneration
                &&& after.tokens() == before.tokens()
                &&& e != AuthError::TokenGeneration ==> after.users() == s
                &&& e == AuthError::TokenGeneration ==> exists|u: UserView|
                    #[trigger] signed_up_user(u, identifier, password, now, d) && after.users() == s.push(u)
            },
        }
    }

    /// What a credentials login from `before` to `after`, with the drawn
    /// values `d`, returns and changes.
    pub open spec fn logged_in(
        before: Self,
        after: Self,
        identifier: Seq<char>,
        password: Seq<char>,
        now: u64,
        d: Draw,
        r: Result<(User, TokenPair), AuthError>,
    ) -> bool {
        let s = before.users();
        let matched = exists|i: int|
            0 <= i < s.len() && (#[trigger] s[i]).identifier() == Some(identifier) && password_matches(
                password,
                s[i].credentials->Some_0.password_hash@,
            );
        &&& after.users() == s
        &&& (r == Err::<(User, TokenPair), AuthError>(AuthError::InvalidCredentials) <==> !matched)
        &&& (matched ==> (r is Ok <==> Self::tokens_fresh(before, d)))
        &&& match r {
            Ok((u, t)) => {
                &&& exists|i: int| 0 <= i < s.len() && #[trigger] s[i] == u@ && u@.identifier() == Some(identifier)
                &&& password_matches(password, u@.credentials->Some_0.password_hash@)
                &&& pair_is(t, d)
                &&& Self::issued_for(before, after, t, u@.id, now)
            },
            Err(e) => (e == AuthError::InvalidCredentials || e == AuthError::TokenGeneration) && after.tokens()
                == before.tokens(),
        }
    }

    /// What completing an OAuth2 login or signup from `before` to `after`,
    /// with the drawn values `d`, returns and changes.
    pub open spec fn oauth_completed(
        before: Self,
        after: Self,
        fetched: Result<OAuth2UserInfo, AuthError>,
        now: u64,
        d: Draw,
        r: Result<(User, TokenPair), AuthError>,
    ) -> bool {
        let s = before.users();
        match fetched {
            Err(e) => r == Err::<(User, TokenPair), AuthError>(e) && after.users() == s && after.tokens()
                == before.tokens(),
            Ok(info) => {
                &&& forall|i: int| #[trigger]
                    resolves_to(s, info, i) ==> exists|u: UserView|
                        #[trigger] relinked(u, s[i], info, now) && after.users() == s.update(i, u) && (r matches Ok(
                            (v, _),
                        ) ==> v@ == u)
                &&& resolves_to_none(s, info) && id_taken(s, d.user_id) ==> r == Err::<
                    (User, TokenPair),
                    AuthError,
                >(AuthError::SignupError) && after.users() == s
                &&& resolves_to_none(s, info) && !id_taken(s, d.user_id) ==> exists|u: UserView|
                    #[trigger] created_from(u, info, now) && u.id == d.user_id && after.users() == s.push(u) && (
                    r matches Ok((v, _)) ==> v@ == u)
                &&& !(resolves_to_none(s, info) && id_taken(s, d.user_id)) ==> (r is Ok <==> Self::tokens_fresh(
                    before,
                    d,
                ))
                &&& match r {
                    Ok((u, t)) => pair_is(t, d) && Self::issued_for(before, after, t, u@.id, now),
                    Err(e) => (e == AuthError::TokenGeneration || e == AuthError::SignupError) && after.tokens()
                        == before.tokens(),
                }
            },
        }
    }

    /// What unlinking `provider` from the user `user_id` returns and changes.
    pub open spec fn unlinked(
        before: Self,
        after: Self,
        user_id: Seq<char>,
        provider: OAuth2Provider,
        r: Result<User, AuthError>,
    ) -> bool {
        let s = before.users();
        match r {
            Ok(u) => exists|i: int|
                0 <= i < s.len() && (#[trigger] s[i]).id == user_id && u@.wf() && u@.id == s[i].id
                    && u@.credentials == s[i].credentials && u@.links() == s[i].links().remove(provider)
                    && u@.created_at == s[i].created_at && u@.updated_at == s[i].updated_at && (
                !s[i].links().contains_key(provider) ==> u@ == s[i]) && after.users() == s.update(i, u@),
            Err(e) => e == AuthError::UserNotFound && after.users() == s && forall|i: int|
                0 <= i < s.len() ==> (#[trigger] s[i]).id != user_id,
        }
    }

    /// What refreshing with `refresh_token` at time `now`, with the drawn
    /// values `d`, returns and changes in the tokens.
    pub open spec fn refreshed(
        before: Self,
        after: Self,
        refresh_token: Seq<char>,
        now: u64,
        d: Draw,
        r: Result<TokenPair, AuthError>,
    ) -> bool {
        refreshed_as(
            before.tokens(),
            after.tokens(),
            before.token_manager.access_ttl(),
            before.token_manager.refresh_ttl(),
            refresh_token,
            now,
            d.access,
            d.refresh,
            r,
        )
    }

    /// A service built from the given parts; a missing part is a fresh
    /// default one. Without a token service, one is made with the lifetimes
    /// of `vars`, which must give access tokens the shorter life.
    pub fn new(
        vars: AuthServiceVariables,
        password_manager: Option<Argon2PasswordManager>,
        persistent_users_manager: Option<InMemoryUserRepo>,
        token_manager: Option<TokenService>,
        oauth2_manager: Option<OAuth2Manager>,
    ) -> (r: Result<Self, AuthError>)
        requires
            persistent_users_manager matches Some(m) ==> m.wf(),
            token_manager matches Some(t) ==> t.wf(),
        ensures
            r is Err <==> token_manager is None && vars.token_expiration >= vars.refresh_token_expiration,
            match r {
                Ok(s) => {
                    &&& s.wf()
                    &&& s.vars == vars
                    &&& s.users() == match persistent_users_manager {
                        Some(m) => m@,
                        None => Seq::<UserView>::empty(),
                    }
                    &&& match token_manager {
                        Some(t) => s.token_manager == t,
                        None => s.tokens() == Seq::<IssuedToken>::empty() && s.token_manager.access_ttl()
                            == vars.token_expiration && s.token_manager.refresh_ttl()
                            == vars.refresh_token_expiration,
                    }
                    &&& match oauth2_manager {
                        Some(m) => s.oauth2_manager == m,
                        None => forall|p: OAuth2Provider| #[trigger] s.oauth2_manager.config(p) is None,
                    }
                },
                Err(e) => e == AuthError::ConfigError,
            },
    {
        let token_manager = match token_manager {
            Some(t) => t,
            None => {
                if vars.token_expiration >= vars.refresh_token_expiration {
                    return Err(AuthError::ConfigError);
                }
                TokenService::new(vars.token_expiration, vars.refresh_token_expiration)
            },
        };
        Ok(
            AuthService {
                vars,
                password_manager: match password_manager {
                    Some(m) => m,
                    None => Argon2PasswordManager::new(),
                },
                persistent_users_manager: match persistent_users_manager {
                    Some(m) => m,
                    None => InMemoryUserRepo::new(),
                },
                token_manager,
                oauth2_manager: match oauth2_manager {
                    Some(m) => m,
                    None => OAuth2Manager::default(),
                },
            },
        )
    }

    /// Issues the drawn token pair of `fresh` for the user id `id` at time `now`.
    pub fn get_tokens_with(&mut self, id: &str, now: u64, fresh: FreshValues) -> (r: Result<TokenPair, AuthError>)
        requires
            old(self).wf(),
        ensures
            final(self).wf(),
            final(self).users() == old(self).users(),
            Self::same_ttls(*old(self), *final(self)),
            r is Ok <==> Self::tokens_fresh(*old(self), fresh@),
            match r {
                Ok(t) => pair_is(t, fresh@) && Self::issued_for(*old(self), *final(self), t, id@, now),
                Err(e) => e == AuthError::TokenGeneration && final(self).tokens() == old(self).tokens(),
            },
    {
        self.token_manager.issue_pair(id, now, fresh.access_token, fresh.refresh_token)
    }

    /// Issues a freshly drawn token pair for the user id `id` at time `now`.
    pub fn get_tokens(&mut self, id: &str, now: u64) -> (r: Result<TokenPair, AuthError>)
        requires
            old(self).wf(),
        ensures
            final(self).wf(),
            final(self).users() == old(self).users(),
            Self::same_ttls(*old(self), *final(self)),
            match r {
                Ok(t) => fresh_pair(old(self).tokens(), t.access_token@, t.refresh_token@) && Self::issued_for(
                    *old(self),
                    *final(self),
                    t,
                    id@,
                    now,
                ),
                Err(e) => e == AuthError::TokenGeneration && final(self).tokens() == old(self).tokens(),
            },
    {
        self.token_manager.generate_token_pair(id, now)
    }

    /// Registers a user with an identifier and a password, at time `now`,
    /// with the drawn values `fresh`.
    ///
    /// The store refuses an identifier or an id that a stored user already
    /// has; this is reported as `SignupError`.
    pub fn signup_with_credentials(
        &mut self,
        identifier: String,
        password: String,
        now: u64,
        fresh: FreshValues,
    ) -> (r: Result<(User, TokenPair), AuthError>)
        requires
            old(self).wf(),
        ensures
            final(self).wf(),
            Self::same_ttls(*old(self), *final(self)),
            Self::signed_up(*old(self), *final(self), identifier@, password@, now, fresh@, r),
    {
        let ghost s = old(self).users();
        let ghost d = fresh@;
        let hash = match self.password_manager.hash_password(password.as_str()) {
            Ok(h) => h,
            Err(e) => {
                return Err(e);
            },
        };
        let user = User::with_password_hash(fresh.user_id, identifier, hash, now);
        proof {
            assert forall|j: int| 0 <= j < s.len() implies (#[trigger] clashes(s[j], user@) <==> (s[j].id == d.user_id
                || s[j].identifier() == Some(identifier@))) by {
                if shares_external(s[j], user@) {
                    let k = choose|k: int|
                        0 <= k < s[j].accounts.len() && #[trigger] user@.has_external(
                            s[j].accounts[k].provider,
                            s[j].accounts[k].provider_user_id@,
                        );
                    let m = choose|m: int| 0 <= m < user@.accounts.len() && user@.accounts[m].provider == s[j].accounts[k].provider
                        && user@.accounts[m].provider_user_id@ == s[j].accounts[k].provider_user_id@;
                }
            }
            if signup_taken(s, identifier@, d.user_id) {
                let j = choose|j: int| 0 <= j < s.len() && ((#[trigger] s[j]).id == d.user_id || s[j].identifier() == Some(identifier@));
                assert(clashes(s[j], user@));
            }
        }
        let stored = user.clone();
        match self.persistent_users_manager.add_user(stored) {
            Ok(()) => {},
            Err(_) => {
                return Err(AuthError::SignupError);
            },
        }
        assert(signed_up_user(user@, identifier@, password@, now, d));
        match self.token_manager.issue_pair(user.id.as_str(), now, fresh.access_token, fresh.refresh_token) {
            Ok(t) => Ok((user, t)),
            Err(e) => Err(e),
        }
    }

    /// Logs in with an identifier and a password, at time `now`, with the
    /// drawn values `fresh`.
    ///
    /// An unknown identifier and a wrong password both give `InvalidCredentials`.
    pub fn login_with_credentials(
        &mut self,
        identifier: &str,
        password: &str,
        now: u64,
        fresh: FreshValues,
    ) -> (r: Result<(User, TokenPair), AuthError>)
        requires
            old(self).wf(),
        ensures
            final(self).wf(),
            Self::same_ttls(*old(self), *final(self)),
            Self::logged_in(*old(self), *final(self), identifier@, password@, now, fresh@, r),
    {
        let stored_user = match self.persistent_users_manager.get_user_by_identifier(identifier) {
            Some(u) => u,
            None => {
                return Err(AuthError::InvalidCredentials);
            },
        };
        let ghost s = old(self).users();
        let ghost k = choose|k: int| 0 <= k < s.len() && s[k] == stored_user@ && s[k].identifier() == Some(identifier@);
        proof {
            assert forall|i: int| 0 <= i < s.len() && (#[trigger] s[i]).identifier() == Some(identifier@) implies i == k by {
                lemma_identifier_held_once(s, i, k);
            }
        }
        let valid = match &stored_user.credentials {
            Some(c) => self.password_manager.verify_password(password, c.password_hash.as_str()),
            None => false,
        };
        if !valid {
            return Err(AuthError::InvalidCredentials);
        }
        match self.token_manager.issue_pair(stored_user.id.as_str(), now, fresh.access_token, fresh.refresh_token) {
            Ok(t) => Ok((stored_user, t)),
            Err(e) => Err(e),
        }
    }

    /// Finishes an OAuth2 login or signup, at time `now`, with the outcome of
    /// the code exchange and profile fetch and the drawn values `fresh`.
    ///
    /// The profile leads to the user that holds its external account, else to
    /// the user whose identifier is its email; that user gets the profile as
    /// its link for the provider. When it leads to nobody, a user with the
    /// drawn id is created with that link alone; the store refuses it
    /// (`SignupError`) when the id is taken. A failed fetch is passed on unchanged.
    pub fn complete_oauth2_with(
        &mut self,
        fetched: Result<OAuth2UserInfo, AuthError>,
        now: u64,
        fresh: FreshValues,
    ) -> (r: Result<(User, TokenPair), AuthError>)
        requires
            old(self).wf(),
        ensures
            final(self).wf(),
            Self::same_ttls(*old(self), *final(self)),
            Self::oauth_completed(*old(self), *final(self), fetched, now, fresh@, r),
    {
        let info = match fetched {
            Ok(i) => i,
            Err(e) => {
                return Err(e);
            },
        };
        let ghost s = old(self).users();
        let ghost d = fresh@;
        let ghost sub = info.provider_user_id@;
        let by_account = self.persistent_users_manager.get_user_by_oauth_id(
            info.provider,
            info.provider_user_id.as_str(),
        );
        let target = match by_account {
            Some(u) => Some(u),
            None => match &info.email {
                Some(e) => self.persistent_users_manager.get_user_by_identifier(e.as_str()),
                None => None,
            },
        };
        let user = match target {
            Some(u) => {
                let ghost i = choose|i: int|
                    0 <= i < s.len() && s[i] == u@ && (s[i].has_external(info.provider, sub) || (
                    info.email matches Some(e) && s[i].identifier() == Some(e@)));
                proof {
                    if s[i].has_external(info.provider, sub) {
                        assert forall|j: int|
                            0 <= j < s.len() && j != i implies !(#[trigger] s[j]).has_external(
                                info.provider,
                                sub,
                            ) by {
                            if s[j].has_external(info.provider, sub) {
                                lemma_external_held_once(s, i, j, info.provider, sub);
                            }
                        }
                    }
                    assert(resolves_to(s, info, i));
                    assert forall|k: int| #[trigger] resolves_to(s, info, k) implies k == i by {
                        if s[k].has_external(info.provider, sub) {
                            lemma_external_held_once(s, i, k, info.provider, sub);
                        } else {
                            lemma_identifier_held_once(s, k, i);
                        }
                    }
                }
                let mut linked = u.link_oauth_account(info);
                linked.updated_at = now;
                proof {
                    lemma_relink_no_clash(s, i, linked@, info);
                    assert forall|k: int|
                        0 <= k < s.len() && (#[trigger] s[k]).id == linked@.id implies k == i by {
                        lemma_id_held_once(s, k, i);
                    }
                    assert(s[i].id == linked@.id);
                }
                let updated = linked.clone();
                match self.persistent_users_manager.update_user(updated) {
                    Ok(()) => {},
                    Err(err) => {
                        assert(err != StoreError::NotFound);
                        return Err(AuthError::UpdateConflict);
                    },
                }
                proof {
                    let k = choose|k: int|
                        0 <= k < s.len() && (#[trigger] s[k]).id == linked@.id && self.users() == s.update(
                            k,
                            linked@,
                        );
                    assert(k == i);
                    assert(relinked(linked@, s[i], info, now));
                }
                linked
            },
            None => {
                proof {
                    assert(resolves_to_none(s, info));
                    assert forall|k: int| !#[trigger] resolves_to(s, info, k) by {}
                }
                let created = User::with_oauth_account(fresh.user_id, info, now);
                proof {
                    assert forall|j: int| 0 <= j < s.len() implies (#[trigger] clashes(s[j], created@) <==> s[j].id
                        == d.user_id) by {
                        if shares_external(s[j], created@) {
                            let k = choose|k: int|
                                0 <= k < s[j].accounts.len() && #[trigger] created@.has_external(
                                    s[j].accounts[k].provider,
                                    s[j].accounts[k].provider_user_id@,
                                );
                            let m = choose|m: int| 0 <= m < created@.accounts.len() && created@.accounts[m].provider == s[j].accounts[k].provider
                                && created@.accounts[m].provider_user_id@ == s[j].accounts[k].provider_user_id@;
                            assert(m == 0);
                            assert(s[j].has_external(info.provider, sub));
                        }
                    }
                    if id_taken(s, d.user_id) {
                        let j = choose|j: int| 0 <= j < s.len() && (#[trigger] s[j]).id == d.user_id;
                        assert(clashes(s[j], created@));
                    }
                }
                match self.persistent_users_manager.add_user(created.clone()) {
                    Ok(()) => {},
                    Err(_) => {
                        return Err(AuthError::SignupError);
                    },
                }
                assert(created_from(created@, info, now));
                created
            },
        };
        match self.token_manager.issue_pair(user.id.as_str(), now, fresh.access_token, fresh.refresh_token) {
            Ok(t) => Ok((user, t)),
            Err(e) => Err(e),
        }
    }

    /// Finishes an OAuth2 login or signup, at time `now`, with freshly drawn
    /// values. An id that a stored user already has is drawn again, up to
    /// `INSERT_ATTEMPTS` draws.
    pub fn complete_oauth2(&mut self, fetched: Result<OAuth2UserInfo, AuthError>, now: u64) -> (r: Result<
        (User, TokenPair),
        AuthError,
    >)
        requires
            old(self).wf(),
        ensures
            final(self).wf(),
            Self::same_ttls(*old(self), *final(self)),
            exists|d: Draw| Self::oauth_completed(*old(self), *final(self), fetched, now, d, r),
    {
        let mut fresh = FreshValues::draw();
        let mut attempts: u32 = 1;
        while attempts < INSERT_ATTEMPTS && self.persistent_users_manager.get_user_by_id(
            fresh.user_id.as_str(),
        ).is_some()
            invariant
                *self == *old(self),
            decreases INSERT_ATTEMPTS - attempts,
        {
            fresh = FreshValues::draw();
            attempts = attempts + 1;
        }
        let ghost d = fresh@;
        let r = self.complete_oauth2_with(fetched, now, fresh);
        assert(Self::oauth_completed(*old(self), *self, fetched, now, d, r));
        r
    }

    /// Logs in at time `now`, with the drawn values `fresh`. Credentials are
    /// checked at once; an OAuth2 code is handed back to the caller to redeem
    /// at the provider, after which `complete_oauth2` finishes the login
    /// (creating the user if needed).
    pub fn login_with(&mut self, method: LoginMethod, now: u64, fresh: FreshValues) -> (r: AuthStep)
        requires
            old(self).wf(),
        ensures
            final(self).wf(),
            Self::same_ttls(*old(self), *final(self)),
            match method {
                LoginMethod::Credentials { identifier, password } => r matches AuthStep::Done(res)
                    && Self::logged_in(*old(self), *final(self), identifier@, password@, now, fresh@, res),
                LoginMethod::OAuth2 { provider, code, state } => r == (AuthStep::FetchProfile {
                    provider,
                    code,
                    state,
                }) && *final(self) == *old(self),
            },
    {
        match method {
            LoginMethod::Credentials { identifier, password } => AuthStep::Done(
                self.login_with_credentials(identifier.as_str(), password.as_str(), now, fresh),
            ),
            LoginMethod::OAuth2 { provider, code, state } => AuthStep::FetchProfile { provider, code, state },
        }
    }

    /// Logs in at time `now`, with freshly drawn values (see `login_with`).
    pub fn login(&mut self, method: LoginMethod, now: u64) -> (r: AuthStep)
        requires
            old(self).wf(),
        ensures
            final(self).wf(),
            Self::same_ttls(*old(self), *final(self)),
            match method {
                LoginMethod::Credentials { identifier, password } => r matches AuthStep::Done(res)
                    && exists|d: Draw| Self::logged_in(*old(self), *final(self), identifier@, password@, now, d, res),
                LoginMethod::OAuth2 { provider, code, state } => r == (AuthStep::FetchProfile {
                    provider,
                    code,
                    state,
                }) && *final(self) == *old(self),
            },
    {
        let fresh = FreshValues::draw();
        let ghost d = fresh@;
        let ghost m = method;
        let r = self.login_with(method, now, fresh);
        proof {
            if let LoginMethod::Credentials { identifier, password } = m {
                let res = r->Done_0;
                assert(Self::logged_in(*old(self), *self, identifier@, password@, now, d, res));
            }
        }
        r
    }

    /// Registers at time `now`, with the drawn values `fresh`. Credentials
    /// create a user at once; an OAuth2 code is handed back to the caller to
    /// redeem at the provider, after which `complete_oauth2` finishes the signup.
    pub fn signup_with(&mut self, method: SignupMethod, now: u64, fresh: FreshValues) -> (r: AuthStep)
        requires
            old(self).wf(),
        ensures
            final(self).wf(),
            Self::same_ttls(*old(self), *final(self)),
            match method {
                SignupMethod::Credentials { identifier, password } => r matches AuthStep::Done(res)
                    && Self::signed_up(*old(self), *final(self), identifier@, password@, now, fresh@, res),
                SignupMethod::OAuth2 { provider, code, state } => r == (AuthStep::FetchProfile {
                    provider,
                    code,
                    state,
                }) && *final(self) == *old(self),
            },
    {
        match method {
            SignupMethod::Credentials { identifier, password } => AuthStep::Done(
                self.signup_with_credentials(identifier, password, now, fresh),
            ),
            SignupMethod::OAuth2 { provider, code, state } => AuthStep::FetchProfile { provider, code, state },
        }
    }

    /// Registers at time `now`, with freshly drawn values (see `signup_with`).
    pub fn signup(&mut self, method: SignupMethod, now: u64) -> (r: AuthStep)
        requires
            old(self).wf(),
        ensures
            final(self).wf(),
            Self::same_ttls(*old(self), *final(self)),
            match method {
                SignupMethod::Credentials { identifier, password } => r matches AuthStep::Done(res)
                    && exists|d: Draw| Self::signed_up(*old(self), *final(self), identifier@, password@, now, d, res),
                SignupMethod::OAuth2 { provider, code, state } => r == (AuthStep::FetchProfile {
                    provider,
                    code,
                    state,
                }) && *final(self) == *old(self),
            },
    {
        let fresh = FreshValues::draw();
        let ghost d = fresh@;
        let ghost m = method;
        let r = self.signup_with(method, now, fresh);
        proof {
            if let SignupMethod::Credentials { identifier, password } = m {
                let res = r->Done_0;
                assert(Self::signed_up(*old(self), *self, identifier@, password@, now, d, res));
            }
        }
        r
    }

    /// Links an external account to the user `user_id`, at time `now`, with
    /// the outcome of the code exchange and profile fetch. The account
    /// replaces any link of the same provider; the store refuses it
    /// (`UpdateConflict`) when another user holds it.
    pub fn link_oauth_account(
        &mut self,
        user_id: &str,
        fetched: Result<OAuth2UserInfo, AuthError>,
        now: u64,
    ) -> (r: Result<User, AuthError>)
        requires
            old(self).wf(),
        ensures
            final(self).wf(),
            final(self).token_manager == old(self).token_manager,
            ({
                let s = old(self).users();
                match r {
                    Ok(u) => exists|i: int|
                        0 <= i < s.len() && (#[trigger] s[i]).id == user_id@ && (fetched matches Ok(info)
                            && relinked(u@, s[i], info, now) && final(self).users() == s.update(i, u@)),
                    Err(e) => final(self).users() == s && (if forall|i: int|
                        0 <= i < s.len() ==> (#[trigger] s[i]).id != user_id@ {
                        e == AuthError::UserNotFound
                    } else {
                        match fetched {
                            Err(fe) => e == fe,
                            Ok(info) => e == AuthError::UpdateConflict && exists|j: int|
                                0 <= j < s.len() && (#[trigger] s[j]).id != user_id@ && s[j].has_external(
                                    info.provider,
                                    info.provider_user_id@,
                                ),
                        }
                    }),
                }
            }),
    {
        let ghost s = old(self).users();
        let user = match self.persistent_users_manager.get_user_by_id(user_id) {
            Some(u) => u,
            None => {
                return Err(AuthError::UserNotFound);
            },
        };
        let ghost i = choose|i: int| 0 <= i < s.len() && s[i] == user@ && s[i].id == user_id@;
        let info = match fetched {
            Ok(info) => info,
            Err(e) => {
                return Err(e);
            },
        };
        let ghost sub = info.provider_user_id@;
        let mut linked = user.link_oauth_account(info);
        linked.updated_at = now;
        proof {
            assert forall|k: int| 0 <= k < s.len() && (#[trigger] s[k]).id == linked@.id implies k == i by {
                lemma_id_held_once(s, k, i);
            }
            assert(s[i].id == linked@.id);
            if forall|j: int| 0 <= j < s.len() && j != i ==> !(#[trigger] s[j]).has_external(info.provider, sub) {
                lemma_relink_no_clash(s, i, linked@, info);
            }
        }
        let updated = linked.clone();
        match self.persistent_users_manager.update_user(updated) {
            Ok(()) => {},
            Err(err) => {
                proof {
                    assert(err != StoreError::NotFound);
                    let j = choose|j: int|
                        0 <= j < s.len() && j != i && #[trigger] s[j].has_external(info.provider, sub)
                            || !(0 <= j < s.len() && j != i ==> !s[j].has_external(info.provider, sub));
                    assert(s[j].id != user_id@);
                }
                return Err(AuthError::UpdateConflict);
            },
        }
        proof {
            let k = choose|k: int| 0 <= k < s.len() && (#[trigger] s[k]).id == linked@.id && self.users() == s.update(k, linked@);
            assert(k == i);
            if exists|j: int|
                0 <= j < s.len() && (#[trigger] s[j]).id != user_id@ && s[j].has_external(info.provider, sub) {
                let j = choose|j: int|
                    0 <= j < s.len() && (#[trigger] s[j]).id != user_id@ && s[j].has_external(info.provider, sub);
                let m = choose|m: int|
                    0 <= m < s[j].accounts.len() && s[j].accounts[m].provider == info.provider
                        && s[j].accounts[m].provider_user_id@ == sub;
                lemma_external_via_links(linked@.accounts, info.provider, sub);
                assert(linked@.has_external(s[j].accounts[m].provider, s[j].accounts[m].provider_user_id@));
                assert(clashes(s[j], linked@));
            }
        }
        Ok(linked)
    }

    /// Removes the link of `provider` from the user `user_id`. A user without
    /// such a link is returned unchanged.
    pub fn unlink_oauth_account(&mut self, user_id: &str, provider: OAuth2Provider) -> (r: Result<
        User,
        AuthError,
    >)
        requires
            old(self).wf(),
        ensures
            final(self).wf(),
            final(self).token_manager == old(self).token_manager,
            Self::unlinked(*old(self), *final(self), user_id@, provider, r),
    {
        let ghost s = old(self).users();
        let mut user = match self.persistent_users_manager.get_user_by_id(user_id) {
            Some(u) => u,
            None => {
                return Err(AuthError::UserNotFound);
            },
        };
        let ghost i = choose|i: int| 0 <= i < s.len() && s[i] == user@ && s[i].id == user_id@;
        let _removed = user.unlink_oauth_account(provider);
        proof {
            assert forall|q: OAuth2Provider, x: Seq<char>| #[trigger] user@.has_external(q, x) implies s[i].has_external(
                q,
                x,
            ) by {
                lemma_external_via_links(user@.accounts, q, x);
                lemma_external_via_links(s[i].accounts, q, x);
            }
            lemma_shrink_no_clash(s, i, user@);
            assert forall|k: int| 0 <= k < s.len() && (#[trigger] s[k]).id == user@.id implies k == i by {
                lemma_id_held_once(s, k, i);
            }
            assert(s[i].id == user@.id);
        }
        let updated = user.clone();
        match self.persistent_users_manager.update_user(updated) {
            Ok(()) => {},
            Err(err) => {
                assert(err != StoreError::NotFound);
                return Err(AuthError::UpdateConflict);
            },
        }
        proof {
            let k = choose|k: int| 0 <= k < s.len() && (#[trigger] s[k]).id == user@.id && self.users() == s.update(k, user@);
            assert(k == i);
        }
        Ok(user)
    }

    /// The providers linked to the user `user_id`.
    pub fn get_linked_oauth_providers(&self, user_id: &str) -> (r: Result<Vec<OAuth2Provider>, AuthError>)
        requires
            self.wf(),
        ensures
            match r {
                Ok(v) => v@.no_duplicates() && exists|i: int|
                    0 <= i < self.users().len() && (#[trigger] self.users()[i]).id == user_id@ && v@.to_set()
                        == self.users()[i].links().dom(),
                Err(e) => e == AuthError::UserNotFound && forall|i: int|
                    0 <= i < self.users().len() ==> (#[trigger] self.users()[i]).id != user_id@,
            },
    {
        match self.persistent_users_manager.get_user_by_id(user_id) {
            Some(u) => {
                proof {
                    let i = choose|i: int| 0 <= i < self.users().len() && self.users()[i] == u@ && self.users()[i].id == user_id@;
                    assert(self.users()[i].wf());
                }
                Ok(u.linked_providers())
            },
            None => Err(AuthError::UserNotFound),
        }
    }

    /// The claims of `token`, if it is a valid access token at time `now`.
    pub fn validate_access_token(&self, token: &str, now: u64) -> (r: Result<AccessTokenClaims, AuthError>)
        requires
            self.wf(),
        ensures
            r is Ok <==> is_valid(self.tokens(), token@, TokenKind::Access, now),
            match r {
                Ok(c) => exists|i: int|
                    0 <= i < self.tokens().len() && #[trigger] valid_record(
                        self.tokens()[i],
                        token@,
                        TokenKind::Access,
                        now,
                    ) && c.sub@ == self.tokens()[i].subject && c.exp == self.tokens()[i].expires_at,
                Err(e) => e == AuthError::InvalidToken,
            },
    {
        self.token_manager.validate_access_token(token, now)
    }

    /// The drawn token pair of `fresh`, issued for the subject of
    /// `refresh_token` if it is a valid refresh token at time `now`.
    pub fn refresh_access_token_with(&mut self, refresh_token: &str, now: u64, fresh: FreshValues) -> (r: Result<
        TokenPair,
        AuthError,
    >)
        requires
            old(self).wf(),
        ensures
            final(self).wf(),
            final(self).users() == old(self).users(),
            Self::same_ttls(*old(self), *final(self)),
            Self::refreshed(*old(self), *final(self), refresh_token@, now, fresh@, r),
    {
        self.token_manager.refresh_with(refresh_token, now, fresh.access_token, fresh.refresh_token)
    }

    /// A freshly drawn token pair for the subject of `refresh_token`, if it
    /// is a valid refresh token at time `now`.
    pub fn refresh_access_token(&mut self, refresh_token: &str, now: u64) -> (r: Result<TokenPair, AuthError>)
        requires
            old(self).wf(),
        ensures
            final(self).wf(),
            final(self).users() == old(self).users(),
            Self::same_ttls(*old(self), *final(self)),
            exists|d: Draw| Self::refreshed(*old(self), *final(self), refresh_token@, now, d, r),
    {
        let fresh = FreshValues::draw();
        let ghost d = fresh@;
        let r = self.refresh_access_token_with(refresh_token, now, fresh);
        assert(Self::refreshed(*old(self), *self, refresh_token@, now, d, r));
        r
    }

    /// The user id that the access token `token` was issued for, if it is valid at time `now`.
    pub fn get_user_id_from_token(&self, token: &str, now: u64) -> (r: Result<String, AuthError>)
        requires
            self.wf(),
        ensures
            r is Ok <==> is_valid(self.tokens(), token@, TokenKind::Access, now),
            match r {
                Ok(id) => exists|i: int|
                    0 <= i < self.tokens().len() && #[trigger] valid_record(
                        self.tokens()[i],
                        token@,
                        TokenKind::Access,
                        now,
                    ) && id@ == self.tokens()[i].subject,
                Err(e) => e == AuthError::InvalidToken,
            },
    {
        let claims = self.validate_access_token(token, now)?;
        Ok(claims.sub)
    }

    /// Whether `token` fails validation as an access token at time `now`:
    /// expired, unknown and wrong-kind tokens all count.
    pub fn is_token_expired(&self, token: &str, now: u64) -> (r: bool)
        requires
            self.wf(),
        ensures
            r == !is_valid(self.tokens(), token@, TokenKind::Access, now),
    {
        self.validate_access_token(token, now).is_err()
    }

    /// The user that the access token `token` was issued for, if the token is
    /// valid at time `now` and the user still exists.
    pub fn get_user_from_token(&self, token: &str, now: u64) -> (r: Result<User, AuthError>)
        requires
            self.wf(),
        ensures
            r == Err::<User, AuthError>(AuthError::InvalidToken) <==> !is_valid(
                self.tokens(),
                token@,
                TokenKind::Access,
                now,
            ),
            match r {
                Ok(u) => exists|i: int, j: int|
                    0 <= i < self.tokens().len() && 0 <= j < self.users().len() && #[trigger] valid_record(
                        self.tokens()[i],
                        token@,
                        TokenKind::Access,
                        now,
                    ) && #[trigger] self.users()[j] == u@ && u@.id == self.tokens()[i].subject,
                Err(e) => e == AuthError::InvalidToken || (e == AuthError::UserNotFound && exists|i: int|
                    0 <= i < self.tokens().len() && #[trigger] valid_record(
                        self.tokens()[i],
                        token@,
                        TokenKind::Access,
                        now,
                    ) && forall|j: int|
                        0 <= j < self.users().len() ==> (#[trigger] self.users()[j]).id != self.tokens()[i].subject),
            },
    {
        let user_id = match self.get_user_id_from_token(token, now) {
            Ok(id) => id,
            Err(e) => {
                return Err(e);
            },
        };
        let ghost i = choose|i: int|
            0 <= i < self.tokens().len() && #[trigger] valid_record(self.tokens()[i], token@, TokenKind::Access, now)
                && user_id@ == self.tokens()[i].subject;
        match self.persistent_users_manager.get_user_by_id(user_id.as_str()) {
            Some(u) => {
                proof {
                    let j = choose|j: int| 0 <= j < self.users().len() && self.users()[j] == u@ && self.users()[j].id == user_id@;
                    assert(valid_record(self.tokens()[i], token@, TokenKind::Access, now) && self.users()[j] == u@);
                }
                Ok(u)
            },
            None => Err(AuthError::UserNotFound),
        }
    }

    /// The frontend redirect URI configured for `provider`.
    pub fn get_oauth2_redirect_frontend_uri(&self, provider: OAuth2Provider) -> (r: Result<String, AuthError>)
        ensures
            match r {
                Ok(uri) => self.oauth2_manager.config(provider) matches Some(c) && uri == c.redirect_frontend_uri,
                Err(e) => self.oauth2_manager.config(provider) is None && e == AuthError::ConfigError,
            },
    {
        self.oauth2_manager.get_redirect_frontend_uri(provider)
    }
    /// The authorization URL for `provider` with CSRF state `state`,
    /// requesting the provider's default scopes, `scopes` and the configured ones.
    pub fn generate_oauth2_auth_url(
        &self,
        provider: OAuth2Provider,
        state: &str,
        scopes: Option<Vec<String>>,
    ) -> (r: Result<String, AuthError>)
        ensures
            r is Ok <==> self.oauth2_manager.auth_url_possible(provider),
            match r {
                Ok(url) => self.oauth2_manager.builds_auth_url(provider, state@, scopes, url@),
                Err(e) => e == AuthError::ConfigError,
            },
    {
        self.oauth2_manager.generate_auth_url(provider, state, scopes)
    }
}

impl Default for AuthService {
    /// A service with the default token lifetimes, an empty store and no
    /// OAuth2 provider.
    fn default() -> (r: Self)
        ensures
            r.wf(),
            r.users() == Seq::<UserView>::empty(),
            r.tokens() == Seq::<IssuedToken>::empty(),
            r.token_manager.access_ttl() == 3600,
            r.token_manager.refresh_ttl() == 604800,
            forall|p: OAuth2Provider| #[trigger] r.oauth2_manager.config(p) is None,
    {
        let vars = AuthServiceVariables::default();
        AuthService {
            vars,
            password_manager: Argon2PasswordManager::new(),
            persistent_users_manager: InMemoryUserRepo::new(),
            token_manager: TokenService::new(vars.token_expiration, vars.refresh_token_expiration),
            oauth2_manager: OAuth2Manager::default(),
        }
    }
}

} // verus!
