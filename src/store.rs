//! An in-memory user store that keeps ids, identifiers and external
//! accounts unique across its users.

use vstd::prelude::*;
use crate::user::{
    lemma_external_via_links, str_eq, OAuth2Provider, OAuth2UserInfo, User, UserView,
};

verus! {

/// Why the store refused a write.
#[derive(Clone, Copy, Debug, PartialEq, Eq, Structural)]
pub enum StoreError {
    /// The user would share its id, identifier or an external account with another.
    Conflict,
    /// No stored user has the given id.
    NotFound,
}

/// Whether both users have credentials with the same identifier.
pub open spec fn same_identifier(a: UserView, b: UserView) -> bool {
    a.credentials is Some && b.credentials is Some && a.credentials->Some_0.identifier@
        == b.credentials->Some_0.identifier@
}

/// Whether both users hold one same external account.
pub open spec fn shares_external(a: UserView, b: UserView) -> bool {
    exists|i: int|
        0 <= i < a.accounts.len() && #[trigger] b.has_external(
            a.accounts[i].provider,
            a.accounts[i].provider_user_id@,
        )
}

/// Whether two users cannot both be stored.
pub open spec fn clashes(a: UserView, b: UserView) -> bool {
    a.id == b.id || same_identifier(a, b) || shares_external(a, b)
}

/// Whether the sequence holds well-formed users of which no two clash.
pub open spec fn users_wf(s: Seq<UserView>) -> bool {
    &&& forall|i: int| 0 <= i < s.len() ==> (#[trigger] s[i]).wf()
    &&& forall|i: int, j: int|
        0 <= i < s.len() && 0 <= j < s.len() && i != j ==> !clashes(#[trigger] s[i], #[trigger] s[j])
}

/// Whether `u` clashes with some user of `s` other than the one at `skip`.
pub open spec fn clashes_any(s: Seq<UserView>, u: UserView, skip: int) -> bool {
    exists|j: int| 0 <= j < s.len() && j != skip && #[trigger] clashes(s[j], u)
}

/// The position named by `skip`, or -1 for none.
pub open spec fn skip_index(skip: Option<usize>) -> int {
    match skip {
        Some(k) => k as int,
        None => -1,
    }
}

/// Whether `u` holds the external account `sub` at `p` (as an executable check).
pub fn user_has_external(u: &User, p: OAuth2Provider, sub: &str) -> (r: bool)
    ensures
        r == u@.has_external(p, sub@),
{
    let mut k: usize = 0;
    while k < u.oauth_accounts.len()
        invariant
            k <= u.oauth_accounts@.len(),
            forall|m: int|
                0 <= m < k ==> !(u.oauth_accounts@[m].provider == p && u.oauth_accounts@[m].provider_user_id@
                    == sub@),
        decreases u.oauth_accounts.len() - k,
    {
        let a = &u.oauth_accounts[k];
        if a.provider == p && str_eq(a.provider_user_id.as_str(), sub) {
            return true;
        }
        k = k + 1;
    }
    false
}

/// Whether the two users cannot both be stored (as an executable check).
pub fn users_clash(a: &User, b: &User) -> (r: bool)
    ensures
        r == clashes(a@, b@),
{
    if a.id == b.id {
        return true;
    }
    match (&a.credentials, &b.credentials) {
        (Some(ca), Some(cb)) => {
            if ca.identifier == cb.identifier {
                return true;
            }
        },
        _ => {},
    }
    let mut i: usize = 0;
    while i < a.oauth_accounts.len()
        invariant
            i <= a.oauth_accounts@.len(),
            forall|m: int|
                0 <= m < i ==> !#[trigger] b@.has_external(
                    a@.accounts[m].provider,
                    a@.accounts[m].provider_user_id@,
                ),
        decreases a.oauth_accounts.len() - i,
    {
        let acc = &a.oauth_accounts[i];
        if user_has_external(b, acc.provider, acc.provider_user_id.as_str()) {
            return true;
        }
        i = i + 1;
    }
    false
}

/// An in-memory user store.
#[derive(Debug)]
pub struct InMemoryUserRepo {
    users: Vec<User>,
}

impl View for InMemoryUserRepo {
    type V = Seq<UserView>;

    closed spec fn view(&self) -> Seq<UserView> {
        self.users@.map_values(|u: User| u@)
    }
}

impl InMemoryUserRepo {
    /// Well-formed: stored users are well-formed and pairwise free of clashes.
    pub open spec fn wf(&self) -> bool {
        users_wf(self@)
    }

    /// An empty store.
    pub fn new() -> (r: Self)
        ensures
            r.wf(),
            r@ == Seq::<UserView>::empty(),
    {
        let r = InMemoryUserRepo { users: Vec::new() };
        assert(r@ =~= Seq::<UserView>::empty());
        r
    }

    /// The number of stored users.
    pub fn len(&self) -> (r: usize)
        ensures
            r == self@.len(),
    {
        self.users.len()
    }

    /// Whether a stored user, other than the one at `skip`, clashes with `u`.
    fn find_clash(&self, u: &User, skip: Option<usize>) -> (r: bool)
        ensures
            r == clashes_any(self@, u@, skip_index(skip)),
    {
        let mut j: usize = 0;
        while j < self.users.len()
            invariant
                j <= self.users@.len(),
                forall|m: int| 0 <= m < j && m != skip_index(skip) ==> !#[trigger] clashes(self@[m], u@),
            decreases self.users.len() - j,
        {
            let skipped = match skip {
                Some(k) => k == j,
                None => false,
            };
            if !skipped && users_clash(&self.users[j], u) {
                assert(clashes(self@[j as int], u@));
                return true;
            }
            j = j + 1;
        }
        false
    }

    /// Stores a new user, unless it clashes with a stored one.
    pub fn add_user(&mut self, user: User) -> (r: Result<(), StoreError>)
        requires
            old(self).wf(),
            user@.wf(),
        ensures
            final(self).wf(),
            r is Err <==> clashes_any(old(self)@, user@, -1),
            r is Err ==> r == Err::<(), StoreError>(StoreError::Conflict) && final(self)@ == old(self)@,
            r is Ok ==> final(self)@ == old(self)@.push(user@),
    {
        if self.find_clash(&user, None) {
            return Err(StoreError::Conflict);
        }
        proof {
            lemma_clashes_symmetric_all(self@, user@);
        }
        self.users.push(user);
        assert(self@ =~= old(self)@.push(user@));
        assert(users_wf(self@)) by {
            let s = self@;
            let n = old(self)@.len() as int;
            assert forall|i: int, j: int|
                0 <= i < s.len() && 0 <= j < s.len() && i != j implies !clashes(#[trigger] s[i], #[trigger] s[j]) by {
                if i == n {
                    assert(!clashes(old(self)@[j], user@));
                } else if j == n {
                    assert(!clashes(old(self)@[i], user@));
                } else {
                    assert(s[i] == old(self)@[i] && s[j] == old(self)@[j]);
                }
            }
        }
        Ok(())
    }
    /// The position of the stored user with id `id`, if any.
    fn position_of_id(&self, id: &str) -> (r: Option<usize>)
        ensures
            match r {
                Some(i) => i < self@.len() && self@[i as int].id == id@,
                None => forall|i: int| 0 <= i < self@.len() ==> (#[trigger] self@[i]).id != id@,
            },
    {
        let mut i: usize = 0;
        while i < self.users.len()
            invariant
                i <= self.users@.len(),
                forall|m: int| 0 <= m < i ==> (#[trigger] self@[m]).id != id@,
            decreases self.users.len() - i,
        {
            if str_eq(self.users[i].id.as_str(), id) {
                return Some(i);
            }
            i = i + 1;
        }
        None
    }

    /// The stored user with id `id`, if any.
    pub fn get_user_by_id(&self, id: &str) -> (r: Option<User>)
        ensures
            match r {
                Some(u) => exists|i: int| 0 <= i < self@.len() && self@[i] == u@ && ((#[trigger] self@[i]).id == id@),
                None => forall|i: int| 0 <= i < self@.len() ==> !((#[trigger] self@[i]).id == id@),
            },
    {
        match self.position_of_id(id) {
            Some(i) => {
                let u = self.users[i].clone();
                Some(u)
            },
            None => None,
        }
    }

    /// The stored user whose credentials carry `identifier`, if any.
    pub fn get_user_by_identifier(&self, identifier: &str) -> (r: Option<User>)
        ensures
            match r {
                Some(u) => exists|i: int| 0 <= i < self@.len() && self@[i] == u@ && ((#[trigger] self@[i]).identifier() == Some(identifier@)),
                None => forall|i: int| 0 <= i < self@.len() ==> !((#[trigger] self@[i]).identifier() == Some(identifier@)),
            },
    {
        let mut i: usize = 0;
        while i < self.users.len()
            invariant
                i <= self.users@.len(),
                forall|m: int| 0 <= m < i ==> (#[trigger] self@[m]).identifier() != Some(identifier@),
            decreases self.users.len() - i,
        {
            match &self.users[i].credentials {
                Some(c) => {
                    if str_eq(c.identifier.as_str(), identifier) {
                        let u = self.users[i].clone();
                        assert(self@[i as int] == u@);
                        return Some(u);
                    }
                },
                None => {},
            }
            i = i + 1;
        }
        None
    }

    /// The stored user that holds the external account `sub` at provider `p`, if any.
    pub fn get_user_by_oauth_id(&self, p: OAuth2Provider, sub: &str) -> (r: Option<User>)
        ensures
            match r {
                Some(u) => exists|i: int| 0 <= i < self@.len() && self@[i] == u@ && (#[trigger] self@[i]).has_external(p, sub@),
                None => forall|i: int| 0 <= i < self@.len() ==> !(#[trigger] self@[i]).has_external(p, sub@),
            },
    {
        let mut i: usize = 0;
        while i < self.users.len()
            invariant
                i <= self.users@.len(),
                forall|m: int| 0 <= m < i ==> !(#[trigger] self@[m]).has_external(p, sub@),
            decreases self.users.len() - i,
        {
            if user_has_external(&self.users[i], p, sub) {
                let u = self.users[i].clone();
                assert(self@[i as int] == u@);
                return Some(u);
            }
            i = i + 1;
        }
        None
    }

    /// Replaces the stored user that has the id of `user`.
    pub fn update_user(&mut self, user: User) -> (r: Result<(), StoreError>)
        requires
            old(self).wf(),
            user@.wf(),
        ensures
            final(self).wf(),
            r == Err::<(), StoreError>(StoreError::NotFound) <==> forall|i: int|
                0 <= i < old(self)@.len() ==> (#[trigger] old(self)@[i]).id != user@.id,
            r == Err::<(), StoreError>(StoreError::Conflict) <==> exists|i: int|
                0 <= i < old(self)@.len() && (#[trigger] old(self)@[i]).id == user@.id && clashes_any(
                    old(self)@,
                    user@,
                    i,
                ),
            r is Err ==> final(self)@ == old(self)@,
            r is Ok ==> exists|i: int|
                0 <= i < old(self)@.len() && (#[trigger] old(self)@[i]).id == user@.id && final(self)@
                    == old(self)@.update(i, user@),
    {
        let i = match self.position_of_id(user.id.as_str()) {
            Some(i) => i,
            None => {
                return Err(StoreError::NotFound);
            },
        };
        proof {
            // ids are unique, so `i` is the only position with this id
            assert forall|k: int|
                0 <= k < self@.len() && (#[trigger] self@[k]).id == user@.id implies k == i by {
                if k != i {
                    assert(!clashes(self@[k], self@[i as int]));
                }
            }
        }
        if self.find_clash(&user, Some(i)) {
            return Err(StoreError::Conflict);
        }
        proof {
            lemma_clashes_symmetric_all(self@, user@);
        }
        self.users.set(i, user);
        assert(self@ =~= old(self)@.update(i as int, user@));
        assert(users_wf(self@)) by {
            let s = self@;
            let n = i as int;
            assert forall|a: int, b: int|
                0 <= a < s.len() && 0 <= b < s.len() && a != b implies !clashes(#[trigger] s[a], #[trigger] s[b]) by {
                if a == n {
                    assert(!clashes(old(self)@[b], user@));
                } else if b == n {
                    assert(!clashes(old(self)@[a], user@));
                } else {
                    assert(s[a] == old(self)@[a] && s[b] == old(self)@[b]);
                }
            }
        }
        Ok(())
    }
}

/// Clashing is symmetric, so a user that clashes with none of `s` is clashed by none of it.
pub proof fn lemma_clashes_symmetric_all(s: Seq<UserView>, u: UserView)
    ensures
        forall|j: int| 0 <= j < s.len() ==> (clashes(s[j], u) <==> #[trigger] clashes(u, s[j])),
{
    assert forall|j: int| 0 <= j < s.len() implies (clashes(s[j], u) <==> #[trigger] clashes(u, s[j])) by {
        lemma_clashes_symmetric(s[j], u);
    }
}

/// Clashing is symmetric.
pub proof fn lemma_clashes_symmetric(a: UserView, b: UserView)
    ensures
        clashes(a, b) <==> clashes(b, a),
{
    if shares_external(a, b) {
        let i = choose|i: int|
            0 <= i < a.accounts.len() && #[trigger] b.has_external(
                a.accounts[i].provider,
                a.accounts[i].provider_user_id@,
            );
        let k = choose|k: int|
            0 <= k < b.accounts.len() && b.accounts[k].provider == a.accounts[i].provider
                && b.accounts[k].provider_user_id@ == a.accounts[i].provider_user_id@;
        assert(a.has_external(b.accounts[k].provider, b.accounts[k].provider_user_id@));
    }
    if shares_external(b, a) {
        let i = choose|i: int|
            0 <= i < b.accounts.len() && #[trigger] a.has_external(
                b.accounts[i].provider,
                b.accounts[i].provider_user_id@,
            );
        let k = choose|k: int|
            0 <= k < a.accounts.len() && a.accounts[k].provider == b.accounts[i].provider
                && a.accounts[k].provider_user_id@ == b.accounts[i].provider_user_id@;
        assert(b.has_external(a.accounts[k].provider, a.accounts[k].provider_user_id@));
    }
}

/// Two stored users never hold one same external account.
pub proof fn lemma_external_held_once(s: Seq<UserView>, i: int, j: int, p: OAuth2Provider, sub: Seq<char>)
    requires
        users_wf(s),
        0 <= i < s.len(),
        0 <= j < s.len(),
        s[i].has_external(p, sub),
        s[j].has_external(p, sub),
    ensures
        i == j,
{
    if i != j {
        let k = choose|k: int|
            0 <= k < s[j].accounts.len() && s[j].accounts[k].provider == p && s[j].accounts[k].provider_user_id@
                == sub;
        assert(s[i].has_external(s[j].accounts[k].provider, s[j].accounts[k].provider_user_id@));
        assert(shares_external(s[j], s[i]));
        assert(!clashes(s[j], s[i]));
    }
}

/// Ids of stored users are unique.
pub proof fn lemma_id_held_once(s: Seq<UserView>, i: int, j: int)
    requires
        users_wf(s),
        0 <= i < s.len(),
        0 <= j < s.len(),
        s[i].id == s[j].id,
    ensures
        i == j,
{
    if i != j {
        assert(!clashes(s[i], s[j]));
    }
}

/// Identifiers of stored users are unique.
pub proof fn lemma_identifier_held_once(s: Seq<UserView>, i: int, j: int)
    requires
        users_wf(s),
        0 <= i < s.len(),
        0 <= j < s.len(),
        s[i].identifier() is Some,
        s[i].identifier() == s[j].identifier(),
    ensures
        i == j,
{
    if i != j {
        assert(same_identifier(s[i], s[j]));
        assert(!clashes(s[i], s[j]));
    }
}

/// A stored user given one more link, whose account no other stored user
/// holds, clashes with none of the other stored users.
pub proof fn lemma_relink_no_clash(s: Seq<UserView>, i: int, u: UserView, info: OAuth2UserInfo)
    requires
        users_wf(s),
        0 <= i < s.len(),
        u.wf(),
        u.id == s[i].id,
        u.credentials == s[i].credentials,
        u.links() == s[i].links().insert(info.provider, info),
        forall|j: int|
            0 <= j < s.len() && j != i ==> !(#[trigger] s[j]).has_external(
                info.provider,
                info.provider_user_id@,
            ),
    ensures
        !clashes_any(s, u, i),
{
    assert forall|j: int| 0 <= j < s.len() && j != i implies !#[trigger] clashes(s[j], u) by {
        assert(!clashes(s[j], s[i]));
        if shares_external(s[j], u) {
            let k = choose|k: int|
                0 <= k < s[j].accounts.len() && #[trigger] u.has_external(
                    s[j].accounts[k].provider,
                    s[j].accounts[k].provider_user_id@,
                );
            let q = s[j].accounts[k].provider;
            let x = s[j].accounts[k].provider_user_id@;
            lemma_external_via_links(u.accounts, q, x);
            lemma_external_via_links(s[i].accounts, q, x);
            if q == info.provider {
                assert(s[j].has_external(q, x));
            } else {
                assert(s[i].has_external(q, x));
                assert(shares_external(s[j], s[i]));
            }
        }
    }
}

/// A stored user that keeps its id and credentials and holds no external
/// account it did not hold before clashes with none of the other stored users.
pub proof fn lemma_shrink_no_clash(s: Seq<UserView>, i: int, u: UserView)
    requires
        users_wf(s),
        0 <= i < s.len(),
        u.id == s[i].id,
        u.credentials == s[i].credentials,
        forall|q: OAuth2Provider, x: Seq<char>| #[trigger] u.has_external(q, x) ==> s[i].has_external(q, x),
    ensures
        !clashes_any(s, u, i),
{
    assert forall|j: int| 0 <= j < s.len() && j != i implies !#[trigger] clashes(s[j], u) by {
        assert(!clashes(s[j], s[i]));
        if shares_external(s[j], u) {
            let k = choose|k: int|
                0 <= k < s[j].accounts.len() && #[trigger] u.has_external(
                    s[j].accounts[k].provider,
                    s[j].accounts[k].provider_user_id@,
                );
            assert(s[i].has_external(s[j].accounts[k].provider, s[j].accounts[k].provider_user_id@));
            assert(shares_external(s[j], s[i]));
        }
    }
}

} // verus!
