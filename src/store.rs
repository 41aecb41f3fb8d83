//! Stored credentials and the identities they belong to, with the lookups
//! that resolve a presented key to its owner.

use vstd::prelude::*;
use vstd::string::StringExecFns;
use crate::key::ParseError;
use crate::key::RawApiKey;
use crate::key::KeyParts;
use crate::key::default_algorithm;
use crate::key::valid_parts;
use crate::key::parse_error_text;
use crate::digest::digest_spec;
use crate::digest::sha256_hex_of;

verus! {

/// The account a credential authenticates as.
#[derive(Debug, Clone, Copy, PartialEq, Eq, Structural)]
pub struct User {
    pub id: i32,
}

/// A stored credential: the digest of a key's secret, never the secret.
#[derive(Debug)]
pub struct ApiKey {
    pub id: i32,
    pub user_id: i32,
    pub description: Option<String>,
    pub prefix: String,
    pub hash_info: String,
    pub hash: String,
}

/// Why a key did not resolve to an identity.
#[derive(Debug)]
pub enum ApiKeyError {
    ParseError(ParseError),
    NotFound,
    Database(String),
}

/// The message that describes a resolution error.
pub open spec fn api_key_error_text(e: ApiKeyError) -> Seq<char> {
    match e {
        ApiKeyError::ParseError(p) => "Invalid API key format: "@ + parse_error_text(p),
        ApiKeyError::NotFound => "API key not found"@,
        ApiKeyError::Database(m) => "Database error: "@ + m@,
    }
}

impl ApiKeyError {
    /// The message that describes this error.
    pub fn to_string(&self) -> (r: String)
        ensures
            r@ == api_key_error_text(*self),
    {
        match self {
            ApiKeyError::ParseError(p) => {
                let mut r = String::from_str("Invalid API key format: ");
                let m = p.to_string();
                r.append(m.as_str());
                r
            },
            ApiKeyError::NotFound => String::from_str("API key not found"),
            ApiKeyError::Database(m) => {
                let mut r = String::from_str("Database error: ");
                r.append(m.as_str());
                r
            },
        }
    }
}

/// The owner of the first credential whose digest equals `digest`.
pub open spec fn owner_by_digest(rows: Seq<ApiKey>, digest: Seq<char>) -> Option<i32>
    decreases rows.len(),
{
    if rows.len() == 0 {
        None
    } else if rows[0].hash@ == digest {
        Some(rows[0].user_id)
    } else {
        owner_by_digest(rows.drop_first(), digest)
    }
}

/// The first identity with the number `id`.
pub open spec fn user_by_id(users: Seq<User>, id: i32) -> Option<User>
    decreases users.len(),
{
    if users.len() == 0 {
        None
    } else if users[0].id == id {
        Some(users[0])
    } else {
        user_by_id(users.drop_first(), id)
    }
}

proof fn lemma_owner_absent(rows: Seq<ApiKey>, digest: Seq<char>)
    requires
        forall|i: int| 0 <= i < rows.len() ==> (#[trigger] rows[i]).hash@ != digest,
    ensures
        owner_by_digest(rows, digest) is None,
    decreases rows.len(),
{
    if rows.len() > 0 {
        assert(rows[0].hash@ != digest);
        assert forall|i: int| 0 <= i < rows.drop_first().len() implies (
        #[trigger] rows.drop_first()[i]).hash@ != digest by {
            assert(rows.drop_first()[i] == rows[i + 1]);
        }
        lemma_owner_absent(rows.drop_first(), digest);
    }
}

proof fn lemma_owner_after(rows: Seq<ApiKey>, row: ApiKey, digest: Seq<char>)
    requires
        owner_by_digest(rows, digest) is None,
    ensures
        owner_by_digest(rows.push(row), digest) == if row.hash@ == digest {
            Some(row.user_id)
        } else {
            None
        },
    decreases rows.len(),
{
    let longer = rows.push(row);
    if rows.len() > 0 {
        assert(longer[0] == rows[0]);
        assert(rows[0].hash@ != digest);
        assert(longer.drop_first() =~= rows.drop_first().push(row));
        lemma_owner_after(rows.drop_first(), row, digest);
        assert(owner_by_digest(longer, digest) == owner_by_digest(longer.drop_first(), digest));
    } else {
        assert(longer[0] == row);
        assert(longer.drop_first() =~= Seq::<ApiKey>::empty());
        assert(owner_by_digest(longer.drop_first(), digest) is None);
    }
}

/// The owner of the first of `rows` whose digest is exactly `digest`.
pub fn credential_owner(rows: &Vec<ApiKey>, digest: &str) -> (r: Result<i32, ApiKeyError>)
    ensures
        match owner_by_digest(rows@, digest@) {
            Some(o) => r matches Ok(x) && x == o,
            None => r matches Err(ApiKeyError::NotFound),
        },
{
    let wanted = String::from_str(digest);
    let mut i: usize = 0;
    proof {
        assert(rows@.subrange(0, rows@.len() as int) =~= rows@);
    }
    while i < rows.len()
        invariant
            i <= rows@.len(),
            wanted@ == digest@,
            owner_by_digest(rows@, digest@) == owner_by_digest(
                rows@.subrange(i as int, rows@.len() as int),
                digest@,
            ),
        decreases rows.len() - i,
    {
        let ghost tail = rows@.subrange(i as int, rows@.len() as int);
        if rows[i].hash == wanted {
            return Ok(rows[i].user_id);
        }
        proof {
            assert(tail.drop_first() =~= rows@.subrange(i + 1, rows@.len() as int));
        }
        i = i + 1;
    }
    Err(ApiKeyError::NotFound)
}

/// The identity of `users` numbered `owner_id`.
pub fn identity(users: &Vec<User>, owner_id: i32) -> (r: Result<User, ApiKeyError>)
    ensures
        match user_by_id(users@, owner_id) {
            Some(u) => r matches Ok(x) && x == u,
            None => r matches Err(ApiKeyError::NotFound),
        },
{
    let mut i: usize = 0;
    proof {
        assert(users@.subrange(0, users@.len() as int) =~= users@);
    }
    while i < users.len()
        invariant
            i <= users@.len(),
            user_by_id(users@, owner_id) == user_by_id(
                users@.subrange(i as int, users@.len() as int),
                owner_id,
            ),
        decreases users.len() - i,
    {
        let ghost tail = users@.subrange(i as int, users@.len() as int);
        if users[i].id == owner_id {
            return Ok(users[i]);
        }
        proof {
            assert(tail.drop_first() =~= users@.subrange(i + 1, users@.len() as int));
        }
        i = i + 1;
    }
    Err(ApiKeyError::NotFound)
}

/// What resolving a key against stored credentials and identities comes to.
#[derive(Debug, Clone, Copy, PartialEq, Eq, Structural)]
pub enum Resolution {
    Identity(User),
    NotFound,
    UnknownAlgorithm,
}

/// Digest the secret with the key's algorithm, find the first credential
/// with exactly that digest, then the identity that owns it.
pub open spec fn resolve_spec(credentials: Seq<ApiKey>, users: Seq<User>, k: KeyParts) -> Resolution {
    match digest_spec(k.algorithm, k.secret) {
        None => Resolution::UnknownAlgorithm,
        Some(h) => match owner_by_digest(credentials, h) {
            None => Resolution::NotFound,
            Some(o) => match user_by_id(users, o) {
                None => Resolution::NotFound,
                Some(u) => Resolution::Identity(u),
            },
        },
    }
}

/// Whether `r` is the result that stands for `res` when resolving `k`.
pub open spec fn reports(r: Result<User, ApiKeyError>, res: Resolution, k: KeyParts) -> bool {
    match res {
        Resolution::Identity(u) => r matches Ok(x) && x == u,
        Resolution::NotFound => r matches Err(ApiKeyError::NotFound),
        Resolution::UnknownAlgorithm => {
            &&& r matches Err(ApiKeyError::ParseError(ParseError::UnknownHashAlgorithm(a)))
            &&& a@ == k.algorithm
        },
    }
}

/// Resolves a key against `credentials` and `users`.
pub fn resolve_in(credentials: &Vec<ApiKey>, users: &Vec<User>, key: &RawApiKey) -> (r: Result<
    User,
    ApiKeyError,
>)
    ensures
        reports(r, resolve_spec(credentials@, users@, key@), key@),
{
    let digest = match key.hash() {
        Ok(h) => h,
        Err(e) => return Err(ApiKeyError::ParseError(e)),
    };
    let owner = credential_owner(credentials, digest.as_str())?;
    identity(users, owner)
}

/// A key whose digest no stored credential has does not resolve.
pub proof fn lemma_resolve_unissued(credentials: Seq<ApiKey>, users: Seq<User>, k: KeyParts)
    requires
        digest_spec(k.algorithm, k.secret) matches Some(h) && forall|i: int|
            0 <= i < credentials.len() ==> (#[trigger] credentials[i]).hash@ != h,
    ensures
        resolve_spec(credentials, users, k) == Resolution::NotFound,
{
    let h = digest_spec(k.algorithm, k.secret)->0;
    lemma_owner_absent(credentials, h);
}

/// A key resolves to the owner of the credential stored last for it, where
/// no earlier credential has the same digest and the owner exists.
pub proof fn lemma_resolve_issued(
    credentials: Seq<ApiKey>,
    users: Seq<User>,
    row: ApiKey,
    k: KeyParts,
)
    requires
        digest_spec(k.algorithm, k.secret) == Some(row.hash@),
        owner_by_digest(credentials, row.hash@) is None,
        user_by_id(users, row.user_id) is Some,
    ensures
        resolve_spec(credentials.push(row), users, k) == Resolution::Identity(
            user_by_id(users, row.user_id)->0,
        ),
{
    lemma_owner_after(credentials, row, row.hash@);
}

/// Credentials and identities held in memory.
pub struct CredentialStore {
    credentials: Vec<ApiKey>,
    users: Vec<User>,
}

/// The contents of a store.
pub struct StoreView {
    pub credentials: Seq<ApiKey>,
    pub users: Seq<User>,
}

impl View for CredentialStore {
    type V = StoreView;

    closed spec fn view(&self) -> StoreView {
        StoreView { credentials: self.credentials@, users: self.users@ }
    }
}

fn clone_text(t: &Option<String>) -> (r: Option<String>)
    ensures
        r == *t,
{
    match t {
        Some(s) => Some(s.clone()),
        None => None,
    }
}

/// Identities are numbered 1, 2, ... in the order they were added, so no two
/// share a number.
pub open spec fn numbered_users(users: Seq<User>) -> bool {
    forall|i: int| 0 <= i < users.len() ==> (#[trigger] users[i]).id == i + 1
}

/// Credentials are numbered 1, 2, ... in the order they were issued.
pub open spec fn numbered_credentials(credentials: Seq<ApiKey>) -> bool {
    forall|i: int| 0 <= i < credentials.len() ==> (#[trigger] credentials[i]).id == i + 1
}

impl CredentialStore {
    /// Identities and credentials are numbered in the order they were added.
    pub open spec fn wf(&self) -> bool {
        numbered_users(self@.users) && numbered_credentials(self@.credentials)
    }

    /// An empty store.
    pub fn new() -> (r: CredentialStore)
        ensures
            r.wf(),
            r@.credentials.len() == 0,
            r@.users.len() == 0,
    {
        CredentialStore { credentials: Vec::new(), users: Vec::new() }
    }

    /// Adds an identity numbered one past the number of identities.
    pub fn add_user(&mut self) -> (r: User)
        requires
            old(self).wf(),
            old(self)@.users.len() < i32::MAX,
        ensures
            final(self).wf(),
            r.id == old(self)@.users.len() + 1,
            forall|i: int| 0 <= i < old(self)@.users.len() ==> (#[trigger] old(self)@.users[i]).id
                != r.id,
            final(self)@.users == old(self)@.users.push(r),
            final(self)@.credentials == old(self)@.credentials,
    {
        let u = User { id: (self.users.len() + 1) as i32 };
        self.users.push(u);
        u
    }

    /// Issues a new key for the identity `owner_id`: stores the digest of its
    /// secret and hands back the key, the only copy of the secret.
    pub fn issue(&mut self, owner_id: i32, description: Option<String>) -> (r: Result<
        (RawApiKey, ApiKey),
        ApiKeyError,
    >)
        requires
            old(self).wf(),
            old(self)@.credentials.len() < i32::MAX,
        ensures
            final(self).wf(),
            match user_by_id(old(self)@.users, owner_id) {
                None => {
                    &&& r matches Err(ApiKeyError::NotFound)
                    &&& final(self)@ == old(self)@
                },
                Some(_) => {
                    &&& r matches Ok((k, c))
                    &&& valid_parts(k@)
                    &&& k@.algorithm == default_algorithm()
                    &&& c.id == old(self)@.credentials.len() + 1
                    &&& c.user_id == owner_id
                    &&& c.description == description
                    &&& c.prefix@ == k@.prefix
                    &&& c.hash_info@ == k@.algorithm
                    &&& c.hash@ == sha256_hex_of(k@.secret)
                    &&& final(self)@.credentials == old(self)@.credentials.push(c)
                    &&& final(self)@.users == old(self)@.users
                },
            },
    {
        if identity(&self.users, owner_id).is_err() {
            return Err(ApiKeyError::NotFound);
        }
        let key = RawApiKey::generate(None);
        let hash = match key.hash() {
            Ok(h) => h,
            Err(e) => return Err(ApiKeyError::ParseError(e)),
        };
        let id = (self.credentials.len() + 1) as i32;
        let prefix = String::from_str(key.prefix());
        let hash_info = String::from_str(key.algorithm());
        let stored = ApiKey {
            id,
            user_id: owner_id,
            description: clone_text(&description),
            prefix: prefix.clone(),
            hash_info: hash_info.clone(),
            hash: hash.clone(),
        };
        self.credentials.push(stored);
        Ok((key, ApiKey { id, user_id: owner_id, description, prefix, hash_info, hash }))
    }

    /// Resolves a key to the identity that owns it.
    pub fn resolve(&self, key: &RawApiKey) -> (r: Result<User, ApiKeyError>)
        ensures
            reports(r, resolve_spec(self@.credentials, self@.users, key@), key@),
    {
        resolve_in(&self.credentials, &self.users, key)
    }
}

} // verus!
