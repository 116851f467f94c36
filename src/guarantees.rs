//! What the service guarantees across operations, proved from their contracts.

use vstd::prelude::*;
use crate::auth_service::{
    created_from, id_taken, relinked, resolves_to, resolves_to_none, signed_up_user, signup_taken, AuthService, Draw,
};
use crate::error::AuthError;
use crate::password::MAX_PASSWORD_CHARS;
use crate::store::{lemma_external_held_once, lemma_identifier_held_once, users_wf, same_identifier, clashes};
use crate::token::{expiry, is_valid, valid_record, TokenKind, TokenPair};
use crate::user::{lemma_external_via_links, OAuth2Provider, OAuth2UserInfo, User, UserView};

verus! {

/// A freshly issued access token is valid at the moment of issue, and every
/// record that makes it valid names the subject it was issued for.
pub proof fn lemma_issued_access_token_valid(
    before: AuthService,
    after: AuthService,
    t: TokenPair,
    subject: Seq<char>,
    now: u64,
)
    requires
        after.wf(),
        AuthService::issued_for(before, after, t, subject, now),
    ensures
        is_valid(after.tokens(), t.access_token@, TokenKind::Access, now),
        forall|i: int|
            0 <= i < after.tokens().len() && #[trigger] valid_record(
                after.tokens()[i],
                t.access_token@,
                TokenKind::Access,
                now,
            ) ==> after.tokens()[i].subject == subject,
{
    let n = before.tokens().len() as int;
    assert(after.tokens()[n].token == t.access_token@);
    assert(valid_record(after.tokens()[n], t.access_token@, TokenKind::Access, now));
    assert forall|i: int|
        0 <= i < after.tokens().len() && #[trigger] valid_record(
            after.tokens()[i],
            t.access_token@,
            TokenKind::Access,
            now,
        ) implies after.tokens()[i].subject == subject by {
        if i != n {
            assert(after.tokens()[i].token != after.tokens()[n].token);
        }
    }
}

/// A credentials signup whose identifier and drawn id no stored user has,
/// with a non-empty password of hashable length and fresh drawn tokens,
/// succeeds.
pub proof fn lemma_signup_succeeds(
    s0: AuthService,
    s1: AuthService,
    identifier: Seq<char>,
    password: Seq<char>,
    now: u64,
    d: Draw,
    r: Result<(User, TokenPair), AuthError>,
)
    requires
        AuthService::signed_up(s0, s1, identifier, password, now, d, r),
        !signup_taken(s0.users(), identifier, d.user_id),
        0 < password.len() <= MAX_PASSWORD_CHARS,
        AuthService::tokens_fresh(s0, d),
    ensures
        r is Ok,
        r->Ok_0.0@.identifier() == Some(identifier),
        s1.users() == s0.users().push(r->Ok_0.0@),
{
}

/// After a successful credentials signup, logging in twice with the same
/// identifier and password succeeds both times (when the drawn tokens are
/// fresh), and both logins return the user that the signup created.
pub proof fn lemma_signup_then_login(
    s0: AuthService,
    s1: AuthService,
    s2: AuthService,
    s3: AuthService,
    identifier: Seq<char>,
    password: Seq<char>,
    t1: u64,
    t2: u64,
    t3: u64,
    d1: Draw,
    d2: Draw,
    d3: Draw,
    signup: Result<(User, TokenPair), AuthError>,
    login: Result<(User, TokenPair), AuthError>,
    again: Result<(User, TokenPair), AuthError>,
)
    requires
        s1.wf(),
        AuthService::signed_up(s0, s1, identifier, password, t1, d1, signup),
        signup is Ok,
        AuthService::logged_in(s1, s2, identifier, password, t2, d2, login),
        AuthService::tokens_fresh(s1, d2),
        AuthService::logged_in(s2, s3, identifier, password, t3, d3, again),
        AuthService::tokens_fresh(s2, d3),
    ensures
        login is Ok,
        again is Ok,
        login->Ok_0.0@ == signup->Ok_0.0@,
        again->Ok_0.0@ == signup->Ok_0.0@,
        login->Ok_0.0.id@ == signup->Ok_0.0.id@,
        again->Ok_0.0.id@ == signup->Ok_0.0.id@,
{
    let u0 = signup->Ok_0.0;
    let s = s1.users();
    let n = s0.users().len() as int;
    assert(s[n] == u0@);
    assert(s[n].identifier() == Some(identifier));
    assert(password_matches_at(s, n, password));
    let u = login->Ok_0.0;
    let i = choose|i: int| 0 <= i < s.len() && #[trigger] s[i] == u@ && u@.identifier() == Some(identifier);
    lemma_identifier_held_once(s, i, n);
    assert(s2.users() == s);
    let v = again->Ok_0.0;
    let j = choose|j: int| 0 <= j < s.len() && #[trigger] s[j] == v@ && v@.identifier() == Some(identifier);
    lemma_identifier_held_once(s, j, n);
}

/// Whether the stored user at `i` has credentials that `password` matches.
pub open spec fn password_matches_at(s: Seq<UserView>, i: int, password: Seq<char>) -> bool {
    crate::password::password_matches(password, s[i].credentials->Some_0.password_hash@)
}

/// The access token of a successful credentials signup validates, at the
/// moment of signup, to the returned user's id.
pub proof fn lemma_signup_token_names_user(
    s0: AuthService,
    s1: AuthService,
    identifier: Seq<char>,
    password: Seq<char>,
    now: u64,
    d: Draw,
    r: Result<(User, TokenPair), AuthError>,
)
    requires
        s1.wf(),
        AuthService::signed_up(s0, s1, identifier, password, now, d, r),
        r is Ok,
    ensures
        is_valid(s1.tokens(), r->Ok_0.1.access_token@, TokenKind::Access, now),
        forall|i: int|
            0 <= i < s1.tokens().len() && #[trigger] valid_record(
                s1.tokens()[i],
                r->Ok_0.1.access_token@,
                TokenKind::Access,
                now,
            ) ==> s1.tokens()[i].subject == r->Ok_0.0.id@,
{
    lemma_issued_access_token_valid(s0, s1, r->Ok_0.1, r->Ok_0.0.id@, now);
}

/// The access token of a successful credentials login validates, at the
/// moment of login, to the returned user's id.
pub proof fn lemma_login_token_names_user(
    s0: AuthService,
    s1: AuthService,
    identifier: Seq<char>,
    password: Seq<char>,
    now: u64,
    d: Draw,
    r: Result<(User, TokenPair), AuthError>,
)
    requires
        s1.wf(),
        AuthService::logged_in(s0, s1, identifier, password, now, d, r),
        r is Ok,
    ensures
        is_valid(s1.tokens(), r->Ok_0.1.access_token@, TokenKind::Access, now),
        forall|i: int|
            0 <= i < s1.tokens().len() && #[trigger] valid_record(
                s1.tokens()[i],
                r->Ok_0.1.access_token@,
                TokenKind::Access,
                now,
            ) ==> s1.tokens()[i].subject == r->Ok_0.0.id@,
{
    lemma_issued_access_token_valid(s0, s1, r->Ok_0.1, r->Ok_0.0.id@, now);
}

/// The access token of a successful OAuth2 login or signup validates, at
/// the moment of login, to the returned user's id.
pub proof fn lemma_oauth_token_names_user(
    s0: AuthService,
    s1: AuthService,
    fetched: Result<OAuth2UserInfo, AuthError>,
    now: u64,
    d: Draw,
    r: Result<(User, TokenPair), AuthError>,
)
    requires
        s1.wf(),
        AuthService::oauth_completed(s0, s1, fetched, now, d, r),
        r is Ok,
    ensures
        is_valid(s1.tokens(), r->Ok_0.1.access_token@, TokenKind::Access, now),
        forall|i: int|
            0 <= i < s1.tokens().len() && #[trigger] valid_record(
                s1.tokens()[i],
                r->Ok_0.1.access_token@,
                TokenKind::Access,
                now,
            ) ==> s1.tokens()[i].subject == r->Ok_0.0.id@,
{
    if let Ok((_, _)) = r {
        if let Ok(_) = fetched {
        }
    }
    lemma_issued_access_token_valid(s0, s1, r->Ok_0.1, r->Ok_0.0.id@, now);
}

/// Unlinking a provider that the user has no link for returns the user
/// unchanged and leaves the store as it was.
pub proof fn lemma_unlink_absent_is_identity(
    s0: AuthService,
    s1: AuthService,
    user_id: Seq<char>,
    provider: OAuth2Provider,
    r: Result<User, AuthError>,
    i: int,
)
    requires
        s0.wf(),
        0 <= i < s0.users().len(),
        s0.users()[i].id == user_id,
        !s0.users()[i].links().contains_key(provider),
        AuthService::unlinked(s0, s1, user_id, provider, r),
    ensures
        r is Ok,
        r->Ok_0@ == s0.users()[i],
        s1.users() == s0.users(),
{
    let s = s0.users();
    if let Ok(u) = r {
        let k = choose|k: int|
            0 <= k < s.len() && (#[trigger] s[k]).id == user_id && u@.wf() && u@.id == s[k].id
                && u@.credentials == s[k].credentials && u@.links() == s[k].links().remove(provider)
                && u@.created_at == s[k].created_at && u@.updated_at == s[k].updated_at && (
            !s[k].links().contains_key(provider) ==> u@ == s[k]) && s1.users() == s.update(k, u@);
        crate::store::lemma_id_held_once(s, i, k);
        assert(s.update(k, u@) =~= s);
    }
}

/// Stored users never share an identifier.
pub proof fn lemma_identifiers_unique(s: AuthService)
    requires
        s.wf(),
    ensures
        forall|i: int, j: int|
            0 <= i < s.users().len() && 0 <= j < s.users().len() && i != j && (#[trigger] s.users()[i]).identifier()
                is Some ==> s.users()[i].identifier() != (#[trigger] s.users()[j]).identifier(),
{
    assert forall|i: int, j: int|
        0 <= i < s.users().len() && 0 <= j < s.users().len() && i != j && (#[trigger] s.users()[i]).identifier()
            is Some implies s.users()[i].identifier() != (#[trigger] s.users()[j]).identifier() by {
        if s.users()[i].identifier() == s.users()[j].identifier() {
            assert(same_identifier(s.users()[i], s.users()[j]));
            assert(!clashes(s.users()[i], s.users()[j]));
        }
    }
}

/// A second credentials signup with an identifier already taken by the
/// first fails with `SignupError` (for a non-empty password of hashable
/// length) and leaves the store as it was.
pub proof fn lemma_second_signup_refused(
    s0: AuthService,
    s1: AuthService,
    s2: AuthService,
    identifier: Seq<char>,
    first_password: Seq<char>,
    second_password: Seq<char>,
    first_at: u64,
    second_at: u64,
    d1: Draw,
    d2: Draw,
    first: Result<(User, TokenPair), AuthError>,
    second: Result<(User, TokenPair), AuthError>,
)
    requires
        AuthService::signed_up(s0, s1, identifier, first_password, first_at, d1, first),
        first is Ok,
        AuthService::signed_up(s1, s2, identifier, second_password, second_at, d2, second),
        0 < second_password.len() <= MAX_PASSWORD_CHARS,
    ensures
        second == Err::<(User, TokenPair), AuthError>(AuthError::SignupError),
        s2.users() == s1.users(),
{
    let n = s0.users().len() as int;
    assert(s1.users()[n].identifier() == Some(identifier));
    assert(signup_taken(s1.users(), identifier, d2.user_id));
}

/// Every user that a successful signup or OAuth2 completion returns has
/// local credentials or a linked account.
pub proof fn lemma_created_users_have_a_login(
    s0: AuthService,
    s1: AuthService,
    identifier: Seq<char>,
    password: Seq<char>,
    fetched: Result<OAuth2UserInfo, AuthError>,
    now: u64,
    d: Draw,
    signup: Result<(User, TokenPair), AuthError>,
    oauth: Result<(User, TokenPair), AuthError>,
    s2: AuthService,
)
    requires
        AuthService::signed_up(s0, s1, identifier, password, now, d, signup),
        AuthService::oauth_completed(s0, s2, fetched, now, d, oauth),
        s0.wf(),
    ensures
        signup matches Ok((u, _)) ==> u@.credentials is Some,
        oauth matches Ok((u, _)) ==> u@.credentials is Some || u@.links().len() > 0 || u@.accounts.len() > 0,
{
    if let Ok((u, _)) = oauth {
        let info = fetched->Ok_0;
        let s = s0.users();
        if resolves_to_none(s, info) {
            assert(!id_taken(s, d.user_id));
            let c = choose|c: UserView|
                #[trigger] created_from(c, info, now) && c.id == d.user_id && s2.users() == s.push(c) && (
                oauth matches Ok((v, _)) ==> v@ == c);
            assert(u@.accounts.len() == 1);
        } else {
            let i = lemma_some_target(s, info);
            let c = choose|c: UserView|
                #[trigger] relinked(c, s[i], info, now) && s2.users() == s.update(i, c) && (oauth matches Ok(
                    (v, _),
                ) ==> v@ == c);
            assert(u@.links().contains_key(info.provider));
            assert(u@.links().dom().contains(info.provider));
            lemma_external_via_links(u@.accounts, info.provider, info.provider_user_id@);
        }
    }
}

/// A profile that does not lead to nobody leads to some stored user.
pub proof fn lemma_some_target(s: Seq<UserView>, info: OAuth2UserInfo) -> (i: int)
    requires
        !resolves_to_none(s, info),
    ensures
        resolves_to(s, info, i),
{
    if exists|j: int| 0 <= j < s.len() && (#[trigger] s[j]).has_external(info.provider, info.provider_user_id@) {
        choose|j: int| 0 <= j < s.len() && (#[trigger] s[j]).has_external(info.provider, info.provider_user_id@)
    } else {
        let e = info.email->Some_0;
        choose|j: int| 0 <= j < s.len() && (#[trigger] s[j]).identifier() == Some(e@)
    }
}

/// An OAuth2 profile whose external account nobody holds, and whose email is
/// the identifier of a stored user, is linked to that user: no user is
/// created, the user keeps its id, and with fresh drawn tokens the login
/// succeeds.
pub proof fn lemma_oauth_merges_by_email(
    s0: AuthService,
    s1: AuthService,
    info: OAuth2UserInfo,
    now: u64,
    d: Draw,
    r: Result<(User, TokenPair), AuthError>,
    i: int,
)
    requires
        s0.wf(),
        0 <= i < s0.users().len(),
        info.email matches Some(e) && s0.users()[i].identifier() == Some(e@),
        forall|j: int|
            0 <= j < s0.users().len() ==> !(#[trigger] s0.users()[j]).has_external(
                info.provider,
                info.provider_user_id@,
            ),
        AuthService::oauth_completed(s0, s1, Ok(info), now, d, r),
    ensures
        exists|u: UserView|
            #[trigger] relinked(u, s0.users()[i], info, now) && s1.users() == s0.users().update(i, u),
        s1.users().len() == s0.users().len(),
        AuthService::tokens_fresh(s0, d) ==> r is Ok,
        r matches Ok((u, _)) ==> u@.id == s0.users()[i].id && s1.users() == s0.users().update(i, u@)
            && u@.links().contains_key(info.provider) && u@.links()[info.provider] == info,
{
    let s = s0.users();
    assert(resolves_to(s, info, i));
    assert(!resolves_to_none(s, info));
}

/// A second OAuth2 login with the same provider and account id as a first
/// successful one reaches the same user: no user is created, the link for
/// that provider becomes the new profile, and with fresh drawn tokens the
/// login succeeds.
pub proof fn lemma_oauth_relogin_updates_link(
    s0: AuthService,
    s1: AuthService,
    s2: AuthService,
    first_info: OAuth2UserInfo,
    second_info: OAuth2UserInfo,
    first_at: u64,
    second_at: u64,
    d1: Draw,
    d2: Draw,
    first: Result<(User, TokenPair), AuthError>,
    second: Result<(User, TokenPair), AuthError>,
)
    requires
        s0.wf(),
        s1.wf(),
        AuthService::oauth_completed(s0, s1, Ok(first_info), first_at, d1, first),
        first is Ok,
        second_info.provider == first_info.provider,
        second_info.provider_user_id@ == first_info.provider_user_id@,
        AuthService::oauth_completed(s1, s2, Ok(second_info), second_at, d2, second),
    ensures
        s2.users().len() == s1.users().len(),
        AuthService::tokens_fresh(s1, d2) ==> second is Ok,
        second matches Ok((u, _)) ==> u@.id == first->Ok_0.0@.id && u@.links().contains_key(
            second_info.provider,
        ) && u@.links()[second_info.provider] == second_info,
{
    let u1 = first->Ok_0.0;
    let p = first_info.provider;
    let sub = first_info.provider_user_id@;
    let s = s1.users();
    let s_0 = s0.users();
    // the first login left `u1` in the store, holding the account
    let idx: int = if resolves_to_none(s_0, first_info) {
        assert(!id_taken(s_0, d1.user_id));
        let c = choose|c: UserView|
            #[trigger] created_from(c, first_info, first_at) && c.id == d1.user_id && s == s_0.push(c) && (
            first matches Ok((v, _)) ==> v@ == c);
        s_0.len() as int
    } else {
        let k = lemma_some_target(s_0, first_info);
        let c = choose|c: UserView|
            #[trigger] relinked(c, s_0[k], first_info, first_at) && s == s_0.update(k, c) && (first matches Ok(
                (v, _),
            ) ==> v@ == c);
        k
    };
    assert(s[idx] == u1@);
    assert(u1@.links().contains_key(p) && u1@.links()[p] == first_info);
    assert(users_wf(s));
    lemma_external_via_links(u1@.accounts, p, sub);
    assert(s[idx].has_external(second_info.provider, second_info.provider_user_id@));
    assert(resolves_to(s, second_info, idx));
    assert(!resolves_to_none(s, second_info));
    let c = choose|c: UserView|
        #[trigger] relinked(c, s[idx], second_info, second_at) && s2.users() == s.update(idx, c) && (second matches Ok(
            (v, _),
        ) ==> v@ == c);
}

/// Refreshing with the refresh token of an issued pair, while it has not
/// expired, with fresh drawn tokens, succeeds and issues a pair whose access
/// token validates, at that moment, to the same subject.
pub proof fn lemma_refresh_keeps_subject(
    s0: AuthService,
    s1: AuthService,
    s2: AuthService,
    t: TokenPair,
    subject: Seq<char>,
    issued_at: u64,
    now: u64,
    d: Draw,
    r: Result<TokenPair, AuthError>,
)
    requires
        s1.wf(),
        s2.wf(),
        AuthService::issued_for(s0, s1, t, subject, issued_at),
        now <= expiry(issued_at, s0.token_manager.refresh_ttl()),
        AuthService::refreshed(s1, s2, t.refresh_token@, now, d, r),
        AuthService::tokens_fresh(s1, d),
    ensures
        r is Ok,
        is_valid(s2.tokens(), r->Ok_0.access_token@, TokenKind::Access, now),
        forall|i: int|
            0 <= i < s2.tokens().len() && #[trigger] valid_record(
                s2.tokens()[i],
                r->Ok_0.access_token@,
                TokenKind::Access,
                now,
            ) ==> s2.tokens()[i].subject == subject,
{
    let n = s0.tokens().len() as int + 1;
    assert(valid_record(s1.tokens()[n], t.refresh_token@, TokenKind::Refresh, now));
    let t2 = r->Ok_0;
    let i = choose|i: int|
        0 <= i < s1.tokens().len() && #[trigger] valid_record(s1.tokens()[i], t.refresh_token@, TokenKind::Refresh, now)
            && s2.tokens() == s1.tokens() + crate::token::issued_pair(
            t2,
            s1.tokens()[i].subject,
            now,
            s1.token_manager.access_ttl(),
            s1.token_manager.refresh_ttl(),
        );
    if i != n {
        assert(s1.tokens()[i].token != s1.tokens()[n].token);
    }
    lemma_issued_access_token_valid(s1, s2, t2, subject, now);
}

/// Refreshing with the access token of an issued pair fails with `InvalidToken`.
pub proof fn lemma_refresh_with_access_token_fails(
    s0: AuthService,
    s1: AuthService,
    s2: AuthService,
    t: TokenPair,
    subject: Seq<char>,
    issued_at: u64,
    now: u64,
    d: Draw,
    r: Result<TokenPair, AuthError>,
)
    requires
        s1.wf(),
        AuthService::issued_for(s0, s1, t, subject, issued_at),
        AuthService::refreshed(s1, s2, t.access_token@, now, d, r),
    ensures
        r == Err::<TokenPair, AuthError>(AuthError::InvalidToken),
        s2.tokens() == s1.tokens(),
{
    let n = s0.tokens().len() as int;
    assert forall|i: int| 0 <= i < s1.tokens().len() implies !#[trigger] valid_record(
        s1.tokens()[i],
        t.access_token@,
        TokenKind::Refresh,
        now,
    ) by {
        if i != n {
            assert(s1.tokens()[i].token != s1.tokens()[n].token);
        }
    }
}

} // verus!
