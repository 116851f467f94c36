//! Users, their local credentials and their linked external accounts.

use vstd::prelude::*;

verus! {

/// Compares two string slices by their characters.
pub fn str_eq(a: &str, b: &str) -> (r: bool)
    ensures
        r == (a@ == b@),
{
    a.to_owned() == b.to_owned()
}

/// Copies an optional string.
pub fn clone_opt_string(s: &Option<String>) -> (r: Option<String>)
    ensures
        r == *s,
{
    match s {
        Some(v) => Some(v.clone()),
        None => None,
    }
}

/// An OAuth2 identity provider.
#[derive(Clone, Copy, Debug, PartialEq, Eq, Hash, Structural)]
pub enum OAuth2Provider {
    Google,
    GitHub,
    Discord,
    Microsoft,
}

/// The normalized profile of an external account, as linked to a user.
#[derive(Debug)]
pub struct OAuth2UserInfo {
    /// Internal id of the user the account is linked to (empty until linked).
    pub user_id: String,
    pub provider: OAuth2Provider,
    /// The account's id at the provider.
    pub provider_user_id: String,
    pub email: Option<String>,
    pub name: Option<String>,
    pub avatar_url: Option<String>,
    pub verified_email: Option<bool>,
    pub locale: Option<String>,
    /// When the profile was last synchronized, in seconds since the epoch.
    pub updated_at: u64,
}

impl Clone for OAuth2UserInfo {
    fn clone(&self) -> (r: Self)
        ensures
            r == *self,
    {
        OAuth2UserInfo {
            user_id: self.user_id.clone(),
            provider: self.provider,
            provider_user_id: self.provider_user_id.clone(),
            email: clone_opt_string(&self.email),
            name: clone_opt_string(&self.name),
            avatar_url: clone_opt_string(&self.avatar_url),
            verified_email: self.verified_email,
            locale: clone_opt_string(&self.locale),
            updated_at: self.updated_at,
        }
    }
}

/// Local credentials: an identifier and the hash of a password.
#[derive(Debug)]
pub struct Credentials {
    pub identifier: String,
    pub password_hash: String,
}

impl Clone for Credentials {
    fn clone(&self) -> (r: Self)
        ensures
            r == *self,
    {
        Credentials { identifier: self.identifier.clone(), password_hash: self.password_hash.clone() }
    }
}

/// Whether no two accounts of `s` belong to the same provider.
pub open spec fn providers_unique(s: Seq<OAuth2UserInfo>) -> bool {
    forall|i: int, j: int|
        0 <= i < s.len() && 0 <= j < s.len() && i != j ==> s[i].provider != s[j].provider
}

/// Whether some account of `s` belongs to provider `p`.
pub open spec fn has_provider(s: Seq<OAuth2UserInfo>, p: OAuth2Provider) -> bool {
    exists|i: int| 0 <= i < s.len() && s[i].provider == p
}

/// The accounts of `s` as a map from provider to account.
pub open spec fn links_of(s: Seq<OAuth2UserInfo>) -> Map<OAuth2Provider, OAuth2UserInfo> {
    Map::new(
        |p: OAuth2Provider| has_provider(s, p),
        |p: OAuth2Provider| s[choose|i: int| 0 <= i < s.len() && s[i].provider == p],
    )
}

/// Whether some account of `s` is the account `sub` at provider `p`.
pub open spec fn has_external_in(s: Seq<OAuth2UserInfo>, p: OAuth2Provider, sub: Seq<char>) -> bool {
    exists|i: int| 0 <= i < s.len() && s[i].provider == p && s[i].provider_user_id@ == sub
}

/// In a sequence with unique providers, the map holds each account under its provider.
pub proof fn lemma_links_at(s: Seq<OAuth2UserInfo>, i: int)
    requires
        providers_unique(s),
        0 <= i < s.len(),
    ensures
        links_of(s).contains_key(s[i].provider),
        links_of(s)[s[i].provider] == s[i],
{
    let p = s[i].provider;
    assert(has_provider(s, p));
    let j = choose|j: int| 0 <= j < s.len() && s[j].provider == p;
    assert(j == i);
}

/// Replacing the account of a provider replaces its entry in the map.
pub proof fn lemma_links_update(s: Seq<OAuth2UserInfo>, i: int, x: OAuth2UserInfo)
    requires
        providers_unique(s),
        0 <= i < s.len(),
        s[i].provider == x.provider,
    ensures
        providers_unique(s.update(i, x)),
        links_of(s.update(i, x)) =~= links_of(s).insert(x.provider, x),
{
    let t = s.update(i, x);
    assert forall|q: OAuth2Provider| has_provider(t, q) <==> has_provider(s, q) by {
        if has_provider(t, q) {
            let j = choose|j: int| 0 <= j < t.len() && t[j].provider == q;
            assert(s[j].provider == q);
        }
        if has_provider(s, q) {
            let j = choose|j: int| 0 <= j < s.len() && s[j].provider == q;
            assert(t[j].provider == q);
        }
    }
    assert forall|q: OAuth2Provider| #[trigger] has_provider(t, q) implies links_of(t)[q] == links_of(
        s,
    ).insert(x.provider, x)[q] by {
        let j = choose|j: int| 0 <= j < t.len() && t[j].provider == q;
        lemma_links_at(t, j);
        if q != x.provider {
            lemma_links_at(s, j);
        }
    }
}

/// Appending an account of a new provider adds its entry to the map.
pub proof fn lemma_links_push(s: Seq<OAuth2UserInfo>, x: OAuth2UserInfo)
    requires
        providers_unique(s),
        !has_provider(s, x.provider),
    ensures
        providers_unique(s.push(x)),
        links_of(s.push(x)) =~= links_of(s).insert(x.provider, x),
{
    let t = s.push(x);
    assert forall|i: int, j: int|
        0 <= i < t.len() && 0 <= j < t.len() && i != j implies t[i].provider != t[j].provider by {
        if i == s.len() {
            assert(s[j].provider == t[j].provider);
        } else if j == s.len() {
            assert(s[i].provider == t[i].provider);
        }
    }
    assert forall|q: OAuth2Provider| has_provider(t, q) <==> (has_provider(s, q) || q == x.provider) by {
        if has_provider(t, q) && q != x.provider {
            let j = choose|j: int| 0 <= j < t.len() && t[j].provider == q;
            assert(s[j].provider == q);
        }
        if has_provider(s, q) {
            let j = choose|j: int| 0 <= j < s.len() && s[j].provider == q;
            assert(t[j].provider == q);
        }
        if q == x.provider {
            assert(t[s.len() as int].provider == q);
        }
    }
    assert forall|q: OAuth2Provider| #[trigger] has_provider(t, q) implies links_of(t)[q] == links_of(
        s,
    ).insert(x.provider, x)[q] by {
        let j = choose|j: int| 0 <= j < t.len() && t[j].provider == q;
        lemma_links_at(t, j);
        if q != x.provider {
            lemma_links_at(s, j);
        }
    }
}

/// Removing the account at `i` removes its provider's entry from the map.
pub proof fn lemma_links_remove(s: Seq<OAuth2UserInfo>, i: int)
    requires
        providers_unique(s),
        0 <= i < s.len(),
    ensures
        providers_unique(s.remove(i)),
        links_of(s.remove(i)) =~= links_of(s).remove(s[i].provider),
{
    let t = s.remove(i);
    let p = s[i].provider;
    assert forall|a: int, b: int|
        0 <= a < t.len() && 0 <= b < t.len() && a != b implies t[a].provider != t[b].provider by {
        let a2 = if a < i { a } else { a + 1 };
        let b2 = if b < i { b } else { b + 1 };
        assert(t[a] == s[a2] && t[b] == s[b2]);
    }
    assert forall|q: OAuth2Provider| has_provider(t, q) <==> (has_provider(s, q) && q != p) by {
        if has_provider(t, q) {
            let j = choose|j: int| 0 <= j < t.len() && t[j].provider == q;
            let j2 = if j < i { j } else { j + 1 };
            assert(s[j2].provider == q);
        }
        if has_provider(s, q) && q != p {
            let j = choose|j: int| 0 <= j < s.len() && s[j].provider == q;
            let j2 = if j < i { j } else { j - 1 };
            assert(t[j2].provider == q);
        }
    }
    assert forall|q: OAuth2Provider| #[trigger] has_provider(t, q) implies links_of(t)[q] == links_of(
        s,
    )[q] by {
        let j = choose|j: int| 0 <= j < t.len() && t[j].provider == q;
        let j2 = if j < i { j } else { j + 1 };
        lemma_links_at(t, j);
        lemma_links_at(s, j2);
    }
}


/// With unique providers, holding an external account is having it as the provider's link.
pub proof fn lemma_external_via_links(s: Seq<OAuth2UserInfo>, q: OAuth2Provider, x: Seq<char>)
    requires
        providers_unique(s),
    ensures
        has_external_in(s, q, x) <==> (links_of(s).contains_key(q) && links_of(s)[q].provider_user_id@
            == x),
{
    if has_external_in(s, q, x) {
        let i = choose|i: int| 0 <= i < s.len() && s[i].provider == q && s[i].provider_user_id@ == x;
        lemma_links_at(s, i);
    }
    if links_of(s).contains_key(q) && links_of(s)[q].provider_user_id@ == x {
        let j = choose|j: int| 0 <= j < s.len() && s[j].provider == q;
        lemma_links_at(s, j);
        assert(s[j].provider == q && s[j].provider_user_id@ == x);
    }
}

/// An authenticated principal.
#[derive(Debug)]
pub struct User {
    /// Internal id, assigned at creation and never changed.
    pub id: String,
    pub credentials: Option<Credentials>,
    /// Linked external accounts, at most one per provider.
    pub oauth_accounts: Vec<OAuth2UserInfo>,
    /// Creation time, in seconds since the epoch.
    pub created_at: u64,
    /// Time of the last update, in seconds since the epoch.
    pub updated_at: u64,
}

/// Copies an optional set of credentials.
fn clone_opt_credentials(c: &Option<Credentials>) -> (r: Option<Credentials>)
    ensures
        r == *c,
{
    match c {
        Some(v) => Some(v.clone()),
        None => None,
    }
}

/// Copies a list of accounts.
fn clone_accounts(v: &Vec<OAuth2UserInfo>) -> (r: Vec<OAuth2UserInfo>)
    ensures
        r@ == v@,
{
    let mut r: Vec<OAuth2UserInfo> = Vec::new();
    let mut i: usize = 0;
    while i < v.len()
        invariant
            i <= v.len(),
            r@ == v@.subrange(0, i as int),
        decreases v.len() - i,
    {
        r.push(v[i].clone());
        i = i + 1;
    }
    assert(r@ =~= v@);
    r
}

impl Clone for User {
    fn clone(&self) -> (r: Self)
        ensures
            r@ == self@,
    {
        User {
            id: self.id.clone(),
            credentials: clone_opt_credentials(&self.credentials),
            oauth_accounts: clone_accounts(&self.oauth_accounts),
            created_at: self.created_at,
            updated_at: self.updated_at,
        }
    }
}

/// The mathematical content of a user.
pub struct UserView {
    pub id: Seq<char>,
    pub credentials: Option<Credentials>,
    pub accounts: Seq<OAuth2UserInfo>,
    pub created_at: u64,
    pub updated_at: u64,
}

impl UserView {
    /// Well-formed: at most one linked account per provider.
    pub open spec fn wf(&self) -> bool {
        providers_unique(self.accounts)
    }

    /// The linked accounts, by provider.
    pub open spec fn links(&self) -> Map<OAuth2Provider, OAuth2UserInfo> {
        links_of(self.accounts)
    }

    /// The local identifier, if the user has credentials.
    pub open spec fn identifier(&self) -> Option<Seq<char>> {
        match self.credentials {
            Some(c) => Some(c.identifier@),
            None => None,
        }
    }

    /// Whether the user holds the external account `sub` at provider `p`.
    pub open spec fn has_external(&self, p: OAuth2Provider, sub: Seq<char>) -> bool {
        has_external_in(self.accounts, p, sub)
    }
}

impl View for User {
    type V = UserView;

    open spec fn view(&self) -> UserView {
        UserView {
            id: self.id@,
            credentials: self.credentials,
            accounts: self.oauth_accounts@,
            created_at: self.created_at,
            updated_at: self.updated_at,
        }
    }
}

impl User {
    /// A user with local credentials and no linked account.
    pub fn with_password_hash(id: String, identifier: String, password_hash: String, now: u64) -> (r: User)
        ensures
            r@.wf(),
            r.id@ == id@,
            r.credentials == Some(Credentials { identifier, password_hash }),
            r.oauth_accounts@ == Seq::<OAuth2UserInfo>::empty(),
            r.created_at == now,
            r.updated_at == now,
    {
        User {
            id,
            credentials: Some(Credentials { identifier, password_hash }),
            oauth_accounts: Vec::new(),
            created_at: now,
            updated_at: now,
        }
    }

    /// A user without local credentials whose only link is `info`.
    pub fn with_oauth_account(id: String, info: OAuth2UserInfo, now: u64) -> (r: User)
        ensures
            r@.wf(),
            r.id@ == id@,
            r.credentials is None,
            r.oauth_accounts@ == seq![info],
            r@.links() == Map::<OAuth2Provider, OAuth2UserInfo>::empty().insert(info.provider, info),
            r.created_at == now,
            r.updated_at == now,
    {
        let mut accounts: Vec<OAuth2UserInfo> = Vec::new();
        proof {
            lemma_links_push(accounts@, info);
            assert(links_of(accounts@) =~= Map::empty());
        }
        accounts.push(info);
        User { id, credentials: None, oauth_accounts: accounts, created_at: now, updated_at: now }
    }

    /// The position of the account linked for provider `p`, if any.
    pub fn find_oauth_account(&self, p: OAuth2Provider) -> (r: Option<usize>)
        ensures
            match r {
                Some(i) => i < self.oauth_accounts@.len() && self.oauth_accounts@[i as int].provider == p,
                None => !has_provider(self.oauth_accounts@, p),
            },
    {
        let mut i: usize = 0;
        while i < self.oauth_accounts.len()
            invariant
                i <= self.oauth_accounts@.len(),
                forall|j: int| 0 <= j < i ==> self.oauth_accounts@[j].provider != p,
            decreases self.oauth_accounts.len() - i,
        {
            if self.oauth_accounts[i].provider == p {
                return Some(i);
            }
            i = i + 1;
        }
        None
    }

    /// Whether an account is linked for provider `p`.
    pub fn has_oauth_account(&self, p: OAuth2Provider) -> (r: bool)
        ensures
            r == self@.links().contains_key(p),
    {
        self.find_oauth_account(p).is_some()
    }

    /// The account linked for provider `p`, if any.
    pub fn get_oauth_account(&self, p: OAuth2Provider) -> (r: Option<OAuth2UserInfo>)
        requires
            self@.wf(),
        ensures
            r == (if self@.links().contains_key(p) { Some(self@.links()[p]) } else { None::<
                OAuth2UserInfo,
            > }),
    {
        match self.find_oauth_account(p) {
            Some(i) => {
                proof {
                    lemma_links_at(self.oauth_accounts@, i as int);
                }
                Some(self.oauth_accounts[i].clone())
            },
            None => None,
        }
    }

    /// Links `info` to this user, replacing any account of the same provider.
    pub fn link_oauth_account(self, info: OAuth2UserInfo) -> (r: User)
        requires
            self@.wf(),
        ensures
            r@.wf(),
            r@.links() == self@.links().insert(info.provider, info),
            r@.id == self@.id,
            r.credentials == self.credentials,
            r.created_at == self.created_at,
            r.updated_at == self.updated_at,
    {
        let mut u = self;
        match u.find_oauth_account(info.provider) {
            Some(i) => {
                proof {
                    lemma_links_update(u.oauth_accounts@, i as int, info);
                }
                u.oauth_accounts.set(i, info);
            },
            None => {
                proof {
                    lemma_links_push(u.oauth_accounts@, info);
                }
                u.oauth_accounts.push(info);
            },
        }
        u
    }

    /// Removes the account linked for provider `p`, if any, and returns it.
    pub fn unlink_oauth_account(&mut self, p: OAuth2Provider) -> (r: Option<OAuth2UserInfo>)
        requires
            old(self)@.wf(),
        ensures
            final(self)@.wf(),
            final(self)@.links() == old(self)@.links().remove(p),
            !old(self)@.links().contains_key(p) ==> final(self)@ == old(self)@,
            r == (if old(self)@.links().contains_key(p) { Some(old(self)@.links()[p]) } else { None::<
                OAuth2UserInfo,
            > }),
            final(self)@.id == old(self)@.id,
            final(self).credentials == old(self).credentials,
            final(self).created_at == old(self).created_at,
            final(self).updated_at == old(self).updated_at,
    {
        match self.find_oauth_account(p) {
            Some(i) => {
                proof {
                    lemma_links_remove(self.oauth_accounts@, i as int);
                    lemma_links_at(self.oauth_accounts@, i as int);
                }
                Some(self.oauth_accounts.remove(i))
            },
            None => {
                assert(self@.links().remove(p) =~= self@.links());
                None
            },
        }
    }

    /// The providers for which an account is linked.
    pub fn linked_providers(&self) -> (r: Vec<OAuth2Provider>)
        requires
            self@.wf(),
        ensures
            r@.to_set() == self@.links().dom(),
            r@.no_duplicates(),
    {
        let mut r: Vec<OAuth2Provider> = Vec::new();
        let mut i: usize = 0;
        while i < self.oauth_accounts.len()
            invariant
                self@.wf(),
                i <= self.oauth_accounts@.len(),
                r@ == self.oauth_accounts@.subrange(0, i as int).map_values(|a: OAuth2UserInfo| a.provider),
            decreases self.oauth_accounts.len() - i,
        {
            r.push(self.oauth_accounts[i].provider);
            proof {
                assert(self.oauth_accounts@.subrange(0, i + 1).map_values(|a: OAuth2UserInfo| a.provider)
                    =~= self.oauth_accounts@.subrange(0, i as int).map_values(
                    |a: OAuth2UserInfo| a.provider,
                ).push(self.oauth_accounts@[i as int].provider));
            }
            i = i + 1;
        }
        proof {
            let s = self.oauth_accounts@;
            assert(s.subrange(0, s.len() as int) =~= s);
            assert forall|q: OAuth2Provider| r@.to_set().contains(q) <==> self@.links().dom().contains(q) by {
                if r@.to_set().contains(q) {
                    let j = choose|j: int| 0 <= j < r@.len() && r@[j] == q;
                    assert(s[j].provider == q);
                }
                if self@.links().dom().contains(q) {
                    let j = choose|j: int| 0 <= j < s.len() && s[j].provider == q;
                    assert(r@[j] == q);
                }
            }
            assert(r@.to_set() =~= self@.links().dom());
        }
        r
    }
}

} // verus!
