//! Issuing, validating and refreshing access and refresh tokens.

use vstd::prelude::*;
use crate::error::AuthError;
use crate::user::str_eq;

verus! {

/// Relies on uuid::Uuid::new_v4 and its hyphenated text form: a random
/// version-4 UUID. Nothing is promised of its value.
#[verifier::external_body]
pub(crate) fn new_uuid_v4() -> (r: String) {
    uuid::Uuid::new_v4().to_string()
}

/// The two kinds of token.
#[derive(Clone, Copy, Debug, PartialEq, Eq, Structural)]
pub enum TokenKind {
    Access,
    Refresh,
}

/// An access token with the refresh token issued with it.
#[derive(Debug)]
pub struct TokenPair {
    pub access_token: String,
    pub refresh_token: String,
}

impl Clone for TokenPair {
    fn clone(&self) -> (r: Self)
        ensures
            r == *self,
    {
        TokenPair { access_token: self.access_token.clone(), refresh_token: self.refresh_token.clone() }
    }
}

/// What a validated token says.
pub trait Claims {
    /// The subject, as a sequence of characters.
    spec fn subject(&self) -> Seq<char>;

    /// The expiration time.
    spec fn expiration(&self) -> u64;

    /// The internal id of the user the token was issued for.
    fn get_subject(&self) -> (r: &str)
        ensures
            r@ == self.subject(),
    ;

    /// The time after which the token is no longer valid, in seconds since the epoch.
    fn get_expiration(&self) -> (r: u64)
        ensures
            r == self.expiration(),
    ;
}

/// Claims of an access token.
#[derive(Debug)]
pub struct AccessTokenClaims {
    /// The user's internal id.
    pub sub: String,
    /// Expiration time.
    pub exp: u64,
    /// Issue time.
    pub iat: u64,
    /// Always "access".
    pub token_type: String,
}

impl Claims for AccessTokenClaims {
    open spec fn subject(&self) -> Seq<char> {
        self.sub@
    }

    open spec fn expiration(&self) -> u64 {
        self.exp
    }

    fn get_subject(&self) -> (r: &str) {
        self.sub.as_str()
    }

    fn get_expiration(&self) -> (r: u64) {
        self.exp
    }
}

/// Claims of a refresh token.
#[derive(Debug)]
pub struct RefreshTokenClaims {
    /// The user's internal id.
    pub sub: String,
    /// Expiration time.
    pub exp: u64,
    /// Issue time.
    pub iat: u64,
    /// Always "refresh".
    pub token_type: String,
}

impl Claims for RefreshTokenClaims {
    open spec fn subject(&self) -> Seq<char> {
        self.sub@
    }

    open spec fn expiration(&self) -> u64 {
        self.exp
    }

    fn get_subject(&self) -> (r: &str) {
        self.sub.as_str()
    }

    fn get_expiration(&self) -> (r: u64) {
        self.exp
    }
}

/// A token on record, as a mathematical value.
pub struct IssuedToken {
    pub token: Seq<char>,
    pub subject: Seq<char>,
    pub kind: TokenKind,
    pub issued_at: u64,
    pub expires_at: u64,
}

/// A token on record.
#[derive(Debug)]
struct TokenRecord {
    token: String,
    subject: String,
    kind: TokenKind,
    issued_at: u64,
    expires_at: u64,
}

impl View for TokenRecord {
    type V = IssuedToken;

    closed spec fn view(&self) -> IssuedToken {
        IssuedToken {
            token: self.token@,
            subject: self.subject@,
            kind: self.kind,
            issued_at: self.issued_at,
            expires_at: self.expires_at,
        }
    }
}

/// The moment `ttl` seconds after `now`, or the last representable one.
pub open spec fn expiry(now: u64, ttl: u64) -> u64 {
    if now + ttl > u64::MAX {
        u64::MAX
    } else {
        (now + ttl) as u64
    }
}

/// Whether the record `t` makes `token` a valid token of kind `kind` at time `now`.
pub open spec fn valid_record(t: IssuedToken, token: Seq<char>, kind: TokenKind, now: u64) -> bool {
    t.token == token && t.kind == kind && now <= t.expires_at
}

/// Whether `token` is a valid token of kind `kind` at time `now` in the records `s`.
pub open spec fn is_valid(s: Seq<IssuedToken>, token: Seq<char>, kind: TokenKind, now: u64) -> bool {
    exists|i: int| 0 <= i < s.len() && #[trigger] valid_record(s[i], token, kind, now)
}

/// Whether some record of `s` holds `token`.
pub open spec fn is_known(s: Seq<IssuedToken>, token: Seq<char>) -> bool {
    exists|i: int| 0 <= i < s.len() && s[i].token == token
}

/// Whether no two records of `s` hold the same token.
pub open spec fn tokens_unique(s: Seq<IssuedToken>) -> bool {
    forall|i: int, j: int| 0 <= i < s.len() && 0 <= j < s.len() && i != j ==> s[i].token != s[j].token
}

/// Whether `access` and `refresh` differ and neither is on record in `s`.
pub open spec fn fresh_pair(s: Seq<IssuedToken>, access: Seq<char>, refresh: Seq<char>) -> bool {
    access != refresh && !is_known(s, access) && !is_known(s, refresh)
}

/// What refreshing with `refresh_token` at `now`, with `access` and `refresh`
/// as the new tokens, returns, and how the records go from `before` to `after`.
pub open spec fn refreshed_as(
    before: Seq<IssuedToken>,
    after: Seq<IssuedToken>,
    access_ttl: u64,
    refresh_ttl: u64,
    refresh_token: Seq<char>,
    now: u64,
    access: Seq<char>,
    refresh: Seq<char>,
    r: Result<TokenPair, AuthError>,
) -> bool {
    &&& (r == Err::<TokenPair, AuthError>(AuthError::InvalidToken) <==> !is_valid(before, refresh_token, TokenKind::Refresh, now))
    &&& (is_valid(before, refresh_token, TokenKind::Refresh, now) ==> (r is Ok <==> fresh_pair(before, access, refresh)))
    &&& match r {
        Ok(pair) => pair.access_token@ == access && pair.refresh_token@ == refresh && exists|i: int|
            0 <= i < before.len() && #[trigger] valid_record(before[i], refresh_token, TokenKind::Refresh, now)
                && after == before + issued_pair(pair, before[i].subject, now, access_ttl, refresh_ttl),
        Err(e) => after == before && (e == AuthError::InvalidToken || e == AuthError::TokenGeneration),
    }
}

/// The two records that issuing a pair for `subject` at `now` adds.
pub open spec fn issued_pair(
    pair: TokenPair,
    subject: Seq<char>,
    now: u64,
    access_ttl: u64,
    refresh_ttl: u64,
) -> Seq<IssuedToken> {
    seq![
        IssuedToken {
            token: pair.access_token@,
            subject,
            kind: TokenKind::Access,
            issued_at: now,
            expires_at: expiry(now, access_ttl),
        },
        IssuedToken {
            token: pair.refresh_token@,
            subject,
            kind: TokenKind::Refresh,
            issued_at: now,
            expires_at: expiry(now, refresh_ttl),
        },
    ]
}

/// Issues, validates and refreshes tokens, keeping a record of each token issued.
#[derive(Debug)]
pub struct TokenService {
    access_ttl: u64,
    refresh_ttl: u64,
    records: Vec<TokenRecord>,
}

impl View for TokenService {
    type V = Seq<IssuedToken>;

    closed spec fn view(&self) -> Seq<IssuedToken> {
        self.records@.map_values(|t: TokenRecord| t@)
    }
}

impl TokenService {
    /// Lifetime of an access token, in seconds.
    pub closed spec fn access_ttl(&self) -> u64 {
        self.access_ttl
    }

    /// Lifetime of a refresh token, in seconds.
    pub closed spec fn refresh_ttl(&self) -> u64 {
        self.refresh_ttl
    }

    /// Well-formed: access tokens live shorter than refresh tokens, and each
    /// token is on record once.
    pub open spec fn wf(&self) -> bool {
        self.access_ttl() < self.refresh_ttl() && tokens_unique(self@)
    }

    /// A service with no token issued yet.
    pub fn new(access_ttl: u64, refresh_ttl: u64) -> (r: Self)
        requires
            access_ttl < refresh_ttl,
        ensures
            r.wf(),
            r@ == Seq::<IssuedToken>::empty(),
            r.access_ttl() == access_ttl,
            r.refresh_ttl() == refresh_ttl,
    {
        let r = TokenService { access_ttl, refresh_ttl, records: Vec::new() };
        assert(r@ =~= Seq::<IssuedToken>::empty());
        r
    }

    /// The position of the record that holds `token`, if any.
    fn position_of(&self, token: &str) -> (r: Option<usize>)
        ensures
            match r {
                Some(i) => i < self@.len() && self@[i as int].token == token@,
                None => !is_known(self@, token@),
            },
    {
        let mut i: usize = 0;
        while i < self.records.len()
            invariant
                i <= self.records@.len(),
                forall|m: int| 0 <= m < i ==> self@[m].token != token@,
            decreases self.records.len() - i,
        {
            if str_eq(self.records[i].token.as_str(), token) {
                return Some(i);
            }
            i = i + 1;
        }
        None
    }

    /// The position of the record that makes `token` valid as a `kind` token at `now`.
    fn find_valid(&self, token: &str, kind: TokenKind, now: u64) -> (r: Option<usize>)
        requires
            self.wf(),
        ensures
            match r {
                Some(i) => i < self@.len() && valid_record(self@[i as int], token@, kind, now),
                None => !is_valid(self@, token@, kind, now),
            },
    {
        match self.position_of(token) {
            Some(i) => {
                let rec = &self.records[i];
                if rec.kind == kind && now <= rec.expires_at {
                    Some(i)
                } else {
                    proof {
                        assert forall|j: int| 0 <= j < self@.len() implies !#[trigger] valid_record(
                            self@[j],
                            token@,
                            kind,
                            now,
                        ) by {
                            if j != i {
                                assert(self@[j].token != self@[i as int].token);
                            }
                        }
                    }
                    None
                }
            },
            None => None,
        }
    }

    /// Issues the pair of tokens `access` and `refresh` for `subject` at time
    /// `now`. Refused, with `TokenGeneration`, when the two are equal or either
    /// is already on record.
    pub fn issue_pair(&mut self, subject: &str, now: u64, access: String, refresh: String) -> (r: Result<
        TokenPair,
        AuthError,
    >)
        requires
            old(self).wf(),
        ensures
            final(self).wf(),
            final(self).access_ttl() == old(self).access_ttl(),
            final(self).refresh_ttl() == old(self).refresh_ttl(),
            r is Ok <==> fresh_pair(old(self)@, access@, refresh@),
            match r {
                Ok(pair) => pair.access_token@ == access@ && pair.refresh_token@ == refresh@ && final(self)@
                    == old(self)@ + issued_pair(
                    pair,
                    subject@,
                    now,
                    old(self).access_ttl(),
                    old(self).refresh_ttl(),
                ),
                Err(e) => e == AuthError::TokenGeneration && final(self)@ == old(self)@,
            },
    {
        if access == refresh || self.position_of(access.as_str()).is_some() || self.position_of(
            refresh.as_str(),
        ).is_some() {
            return Err(AuthError::TokenGeneration);
        }
        let access_exp = match now.checked_add(self.access_ttl) {
            Some(t) => t,
            None => u64::MAX,
        };
        let refresh_exp = match now.checked_add(self.refresh_ttl) {
            Some(t) => t,
            None => u64::MAX,
        };
        let pair = TokenPair { access_token: access.clone(), refresh_token: refresh.clone() };
        let ghost before = self@;
        self.records.push(
            TokenRecord {
                token: access,
                subject: subject.to_owned(),
                kind: TokenKind::Access,
                issued_at: now,
                expires_at: access_exp,
            },
        );
        self.records.push(
            TokenRecord {
                token: refresh,
                subject: subject.to_owned(),
                kind: TokenKind::Refresh,
                issued_at: now,
                expires_at: refresh_exp,
            },
        );
        proof {
            let added = issued_pair(pair, subject@, now, self.access_ttl, self.refresh_ttl);
            assert(self@ =~= before + added);
            assert forall|i: int, j: int|
                0 <= i < self@.len() && 0 <= j < self@.len() && i != j implies self@[i].token
                != self@[j].token by {
                let n = before.len() as int;
                if i < n && j >= n {
                    assert(before[i].token == self@[i].token);
                } else if j < n && i >= n {
                    assert(before[j].token == self@[j].token);
                }
            }
        }
        Ok(pair)
    }

    /// Issues a pair of freshly drawn random tokens for `subject` at time `now`.
    pub fn generate_token_pair(&mut self, subject: &str, now: u64) -> (r: Result<TokenPair, AuthError>)
        requires
            old(self).wf(),
        ensures
            final(self).wf(),
            final(self).access_ttl() == old(self).access_ttl(),
            final(self).refresh_ttl() == old(self).refresh_ttl(),
            match r {
                Ok(pair) => fresh_pair(old(self)@, pair.access_token@, pair.refresh_token@) && final(self)@
                    == old(self)@ + issued_pair(
                    pair,
                    subject@,
                    now,
                    old(self).access_ttl(),
                    old(self).refresh_ttl(),
                ),
                Err(e) => e == AuthError::TokenGeneration && final(self)@ == old(self)@,
            },
    {
        self.issue_pair(subject, now, new_uuid_v4(), new_uuid_v4())
    }

    /// The claims of `token`, if it is a valid access token at time `now`.
    pub fn validate_access_token(&self, token: &str, now: u64) -> (r: Result<AccessTokenClaims, AuthError>)
        requires
            self.wf(),
        ensures
            r is Ok <==> is_valid(self@, token@, TokenKind::Access, now),
            match r {
                Ok(c) => exists|i: int|
                    0 <= i < self@.len() && #[trigger] valid_record(self@[i], token@, TokenKind::Access, now)
                        && c.sub@ == self@[i].subject && c.exp == self@[i].expires_at && c.iat
                        == self@[i].issued_at && c.token_type@ == "access"@,
                Err(e) => e == AuthError::InvalidToken,
            },
    {
        match self.find_valid(token, TokenKind::Access, now) {
            Some(i) => {
                let rec = &self.records[i];
                Ok(
                    AccessTokenClaims {
                        sub: rec.subject.clone(),
                        exp: rec.expires_at,
                        iat: rec.issued_at,
                        token_type: String::from_str("access"),
                    },
                )
            },
            None => Err(AuthError::InvalidToken),
        }
    }

    /// The claims of `token`, if it is a valid refresh token at time `now`.
    pub fn validate_refresh_token(&self, token: &str, now: u64) -> (r: Result<RefreshTokenClaims, AuthError>)
        requires
            self.wf(),
        ensures
            r is Ok <==> is_valid(self@, token@, TokenKind::Refresh, now),
            match r {
                Ok(c) => exists|i: int|
                    0 <= i < self@.len() && #[trigger] valid_record(self@[i], token@, TokenKind::Refresh, now)
                        && c.sub@ == self@[i].subject && c.exp == self@[i].expires_at && c.iat
                        == self@[i].issued_at && c.token_type@ == "refresh"@,
                Err(e) => e == AuthError::InvalidToken,
            },
    {
        match self.find_valid(token, TokenKind::Refresh, now) {
            Some(i) => {
                let rec = &self.records[i];
                Ok(
                    RefreshTokenClaims {
                        sub: rec.subject.clone(),
                        exp: rec.expires_at,
                        iat: rec.issued_at,
                        token_type: String::from_str("refresh"),
                    },
                )
            },
            None => Err(AuthError::InvalidToken),
        }
    }

    /// Issues the pair `access`, `refresh` for the subject of `refresh_token`,
    /// if it is a valid refresh token at time `now`.
    pub fn refresh_with(
        &mut self,
        refresh_token: &str,
        now: u64,
        access: String,
        refresh: String,
    ) -> (r: Result<TokenPair, AuthError>)
        requires
            old(self).wf(),
        ensures
            final(self).wf(),
            final(self).access_ttl() == old(self).access_ttl(),
            final(self).refresh_ttl() == old(self).refresh_ttl(),
            refreshed_as(old(self)@, final(self)@, old(self).access_ttl(), old(self).refresh_ttl(), refresh_token@, now, access@, refresh@, r),
    {
        match self.find_valid(refresh_token, TokenKind::Refresh, now) {
            Some(i) => {
                let subject = self.records[i].subject.clone();
                self.issue_pair(subject.as_str(), now, access, refresh)
            },
            None => Err(AuthError::InvalidToken),
        }
    }

    /// Issues a pair of freshly drawn tokens for the subject of
    /// `refresh_token`, if it is a valid refresh token at time `now`.
    pub fn refresh_access_token(&mut self, refresh_token: &str, now: u64) -> (r: Result<TokenPair, AuthError>)
        requires
            old(self).wf(),
        ensures
            final(self).wf(),
            final(self).access_ttl() == old(self).access_ttl(),
            final(self).refresh_ttl() == old(self).refresh_ttl(),
            exists|access: Seq<char>, refresh: Seq<char>|
                refreshed_as(
                    old(self)@,
                    final(self)@,
                    old(self).access_ttl(),
                    old(self).refresh_ttl(),
                    refresh_token@,
                    now,
                    access,
                    refresh,
                    r,
                ),
    {
        let access = new_uuid_v4();
        let refresh = new_uuid_v4();
        let ghost (a, b) = (access@, refresh@);
        let r = self.refresh_with(refresh_token, now, access, refresh);
        assert(refreshed_as(old(self)@, self@, old(self).access_ttl(), old(self).refresh_ttl(), refresh_token@, now, a, b, r));
        r
    }
}

} // verus!
