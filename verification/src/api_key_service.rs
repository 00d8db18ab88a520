//! API-key lifecycle: token generation, hashing at rest, creation with
//! bounded retry on hash collision, verification, listing, revocation and
//! deletion.

use vstd::prelude::*;

use rand::Rng;
use sha2::Digest;

use crate::api_key_repo::{
    find_key, find_key_by_hash, hash_present, key_index, revoked_copy, token_hash_conflict_message,
    ApiKeyRepository,
};
use crate::error::AppError;
use crate::models::{ApiKey, CreateApiKeyResponse};
use crate::scopes::{decode_scopes_spec, encode_scopes, join_scopes_spec};
use crate::sequtil::rev_filter;

verus! {

/// Length of a generated API-key token.
pub const TOKEN_LENGTH: usize = 64;

/// How many times key creation retries after a hash collision.
pub const MAX_RETRIES: usize = 3;

/// The lowercase hex SHA-256 digest of a token: a function of the token
/// alone, computed by the hashing crate.
pub uninterp spec fn sha256_hex_of(token: Seq<char>) -> Seq<char>;

/// A lowercase hex digit.
pub open spec fn is_lower_hex_char(c: char) -> bool {
    ||| 48 <= (c as u32) <= 57
    ||| 97 <= (c as u32) <= 102
}

/// Relies on sha2::Sha256 and hex::encode: the digest depends on the input
/// bytes alone, and hex writes the 32 digest bytes as two lowercase hex
/// digits each.
#[verifier::external_body]
fn sha256_hex(token: &str) -> (r: String)
    ensures
        r@ == sha256_hex_of(token@),
        r@.len() == 64,
        forall|i: int| 0 <= i < r@.len() ==> is_lower_hex_char(#[trigger] r@[i]),
{
    let mut hasher = sha2::Sha256::new();
    hasher.update(token.as_bytes());
    hex::encode(hasher.finalize())
}

pub open spec fn is_alnum_char(c: char) -> bool {
    ||| 65 <= (c as u32) <= 90
    ||| 97 <= (c as u32) <= 122
    ||| 48 <= (c as u32) <= 57
}

/// Relies on rand's thread rng sampling the Alphanumeric distribution:
/// 64 alphanumeric ASCII characters.  Nothing is assumed about which.
#[verifier::external_body]
fn generate_token_string() -> (r: String)
    ensures
        r@.len() == TOKEN_LENGTH,
        forall|i: int| 0 <= i < r@.len() ==> is_alnum_char(#[trigger] r@[i]),
{
    rand::thread_rng().sample_iter(&rand::distributions::Alphanumeric).take(TOKEN_LENGTH).map(
        char::from,
    ).collect()
}

/// Index of the first candidate token whose hash is not yet stored, or the
/// number of candidates when they all collide.
pub open spec fn first_free_candidate(cands: Seq<Seq<char>>, keys: Seq<ApiKey>) -> int
    decreases cands.len(),
{
    if cands.len() == 0 {
        0
    } else if !hash_present(keys, sha256_hex_of(cands[0])) {
        0
    } else {
        1 + first_free_candidate(cands.drop_first(), keys)
    }
}

pub struct ApiKeyService {
    repo: ApiKeyRepository,
}

impl ApiKeyService {
    /// The stored keys, in insertion order.
    pub closed spec fn keys(&self) -> Seq<ApiKey> {
        self.repo@
    }

    pub closed spec fn wf(&self) -> bool {
        self.repo.wf()
    }

    pub closed spec fn can_allocate(&self) -> bool {
        self.repo.can_allocate()
    }

    pub fn new(repo: ApiKeyRepository) -> (r: Self)
        ensures
            r.keys() == repo@,
            r.wf() == repo.wf(),
            r.can_allocate() == repo.can_allocate(),
    {
        ApiKeyService { repo }
    }

    /// Creates a key from given candidate tokens: the first whose hash is
    /// free is stored; if every candidate collides, the attempt is a fatal
    /// internal error and nothing is stored.
    pub fn create_api_key_with_tokens(
        &mut self,
        user_id: u64,
        name: Option<String>,
        scopes: &Vec<String>,
        candidates: &Vec<String>,
        now: i64,
    ) -> (r: Result<CreateApiKeyResponse, AppError>)
        requires
            old(self).wf(),
            candidates@.len() == MAX_RETRIES,
        ensures
            final(self).wf(),
            r is Err ==> final(self).keys() == old(self).keys(),
            r matches Err(e) ==> (e is Internal || e is Database),
            ({
                let cands = candidates@.map_values(|s: String| s@);
                let free = first_free_candidate(cands, old(self).keys());
                &&& (free == cands.len() ==> (r matches Err(e) && (
                e matches AppError::Internal(m) && m@
                    == "Failed to create API key after 3 retries"@)))
                &&& (free < cands.len() && !old(self).can_allocate() ==> r is Err)
                &&& (free < cands.len() && old(self).can_allocate() ==> (r matches Ok(resp) && {
                    let ks = final(self).keys();
                    &&& ks.len() == old(self).keys().len() + 1
                    &&& ks.drop_last() == old(self).keys()
                    &&& resp.token@ == cands[free]
                    &&& resp.id == ks.last().id
                    &&& ks.last().user_id == user_id
                    &&& ks.last().token_hash@ == sha256_hex_of(cands[free])
                    &&& ks.last().scopes@ == join_scopes_spec(
                        scopes@.map_values(|s: String| s@),
                    )
                    &&& !ks.last().revoked
                    &&& ks.last().created_at == now
                    &&& (name matches Some(n) ==> (ks.last().name matches Some(v) && v@ == n@))
                    &&& (name is None ==> ks.last().name is None)
                }))
            }),
    {
        let ghost cands = candidates@.map_values(|s: String| s@);
        proof {
            assert(cands.skip(0) =~= cands);
        }
        let scopes_str = encode_scopes(scopes);
        let mut attempt: usize = 0;
        while attempt < candidates.len()
            invariant
                0 <= attempt <= candidates@.len(),
                candidates@.len() == MAX_RETRIES,
                *self == *old(self),
                old(self).wf(),
                cands == candidates@.map_values(|s: String| s@),
                scopes_str@ == join_scopes_spec(scopes@.map_values(|s: String| s@)),
                first_free_candidate(cands, old(self).keys()) == attempt + first_free_candidate(
                    cands.skip(attempt as int),
                    old(self).keys(),
                ),
                forall|k: int|
                    0 <= k < attempt ==> hash_present(old(self).keys(), sha256_hex_of(cands[k])),
            decreases candidates@.len() - attempt,
        {
            proof {
                assert(cands.skip(attempt as int).drop_first() =~= cands.skip(attempt + 1));
                assert(cands.skip(attempt as int)[0] == cands[attempt as int]);
            }
            let token = &candidates[attempt];
            let token_hash = sha256_hex(token.as_str());
            let name_arg: Option<&str> = match &name {
                Some(n) => Some(n.as_str()),
                None => None,
            };
            match self.repo.create(user_id, name_arg, token_hash.as_str(), scopes_str.as_str(), now)
            {
                Ok(api_key) => {
                    proof {
                        assert(self.keys().drop_last() =~= old(self).keys());
                    }
                    return Ok(CreateApiKeyResponse { id: api_key.id, token: token.clone() });
                },
                Err(e) => {
                    let is_collision = is_token_collision(&e);
                    if !is_collision {
                        return Err(e);
                    }
                    proof {
                        assert(hash_present(old(self).keys(), sha256_hex_of(
                            cands[attempt as int],
                        )));
                    }
                },
            }
            attempt = attempt + 1;
        }
        proof {
            assert(cands.skip(cands.len() as int) =~= Seq::<Seq<char>>::empty());
        }
        Err(AppError::Internal("Failed to create API key after 3 retries".to_owned()))
    }

    /// Creates a key for freshly generated candidate tokens.  The plaintext
    /// token is returned exactly once; only its hash is stored.
    pub fn create_api_key(
        &mut self,
        user_id: u64,
        name: Option<String>,
        scopes: Vec<String>,
        now: i64,
    ) -> (r: Result<CreateApiKeyResponse, AppError>)
        requires
            old(self).wf(),
        ensures
            final(self).wf(),
            r is Err ==> final(self).keys() == old(self).keys(),
            r matches Err(e) ==> (e is Internal || e is Database),
            r matches Ok(resp) ==> {
                let ks = final(self).keys();
                &&& ks.len() == old(self).keys().len() + 1
                &&& ks.drop_last() == old(self).keys()
                &&& resp.token@.len() == TOKEN_LENGTH
                &&& (forall|i: int| 0 <= i < resp.token@.len() ==> is_alnum_char(
                    #[trigger] resp.token@[i],
                ))
                &&& resp.id == ks.last().id
                &&& ks.last().user_id == user_id
                &&& ks.last().token_hash@ == sha256_hex_of(resp.token@)
                &&& !hash_present(old(self).keys(), ks.last().token_hash@)
                &&& ks.last().scopes@ == join_scopes_spec(scopes@.map_values(|s: String| s@))
                &&& !ks.last().revoked
                &&& ks.last().created_at == now
                &&& (name matches Some(n) ==> (ks.last().name matches Some(v) && v@ == n@))
                &&& (name is None ==> ks.last().name is None)
            },
    {
        let mut candidates: Vec<String> = Vec::new();
        let t1 = generate_token_string();
        let t2 = generate_token_string();
        let t3 = generate_token_string();
        candidates.push(t1);
        candidates.push(t2);
        candidates.push(t3);
        let r = self.create_api_key_with_tokens(user_id, name, &scopes, &candidates, now);
        proof {
            let cands = candidates@.map_values(|s: String| s@);
            assert(cands.len() == 3);
            let free = first_free_candidate(cands, old(self).keys());
            lemma_first_free_bounds(cands, old(self).keys());
            if free < 3 {
                lemma_first_free_is_free(cands, old(self).keys());
                assert(cands[free] == candidates@[free]@);
                assert(candidates@[0]@.len() == TOKEN_LENGTH && candidates@[1]@.len()
                    == TOKEN_LENGTH && candidates@[2]@.len() == TOKEN_LENGTH);
                assert(forall|j: int|
                    0 <= j < candidates@[0]@.len() ==> is_alnum_char(#[trigger] candidates@[0]@[j]));
                assert(forall|j: int|
                    0 <= j < candidates@[1]@.len() ==> is_alnum_char(#[trigger] candidates@[1]@[j]));
                assert(forall|j: int|
                    0 <= j < candidates@[2]@.len() ==> is_alnum_char(#[trigger] candidates@[2]@[j]));
            }
        }
        r
    }

    /// Checks a plaintext token: its hash is looked up among non-revoked
    /// keys; a hit yields the owning user and the exact decoded scope list.
    pub fn verify_token(&self, token: &str) -> (r: Option<(u64, Vec<String>)>)
        requires
            self.wf(),
        ensures
            (r is Some) <==> (find_key_by_hash(self.keys(), sha256_hex_of(token@)) is Some),
            r matches Some(p) ==> (find_key_by_hash(self.keys(), sha256_hex_of(token@))
                matches Some(k) && p.0 == k.user_id && p.1@.map_values(|s: String| s@)
                == decode_scopes_spec(k.scopes@)),
    {
        let token_hash = sha256_hex(token);
        match self.repo.find_by_token_hash(token_hash.as_str()) {
            Some(api_key) => {
                let scopes = api_key.scopes_as_vec();
                Some((api_key.user_id, scopes))
            },
            None => None,
        }
    }

    /// All keys of a user, newest first.
    pub fn list_user_api_keys(&self, user_id: u64) -> (r: Vec<ApiKey>)
        requires
            self.wf(),
        ensures
            r@ == rev_filter(self.keys(), |k: ApiKey| k.user_id == user_id),
    {
        self.repo.list_by_user(user_id)
    }

    /// Soft-deletes a key of this owner; true iff a non-revoked matching
    /// row was flipped.
    pub fn revoke_api_key(&mut self, id: u64, user_id: u64) -> (r: bool)
        requires
            old(self).wf(),
        ensures
            final(self).wf(),
            r == (find_key(old(self).keys(), id) matches Some(k) && k.user_id == user_id
                && !k.revoked),
            !r ==> final(self).keys() == old(self).keys(),
            r ==> {
                let i = key_index(old(self).keys(), id);
                &&& 0 <= i < old(self).keys().len()
                &&& final(self).keys() == old(self).keys().update(
                    i,
                    revoked_copy(old(self).keys()[i]),
                )
            },
    {
        self.repo.revoke(id, user_id)
    }

    /// Hard-deletes a key of this owner; true iff a matching row was
    /// removed.
    pub fn delete_api_key(&mut self, id: u64, user_id: u64) -> (r: bool)
        requires
            old(self).wf(),
        ensures
            final(self).wf(),
            r == (find_key(old(self).keys(), id) matches Some(k) && k.user_id == user_id),
            !r ==> final(self).keys() == old(self).keys(),
            r ==> final(self).keys() == old(self).keys().remove(key_index(old(self).keys(), id)),
    {
        self.repo.delete(id, user_id)
    }

    /// Looks a key up by id, scoped to its owner.
    pub fn get_api_key(&self, id: u64, user_id: u64) -> (r: Option<ApiKey>)
        requires
            self.wf(),
        ensures
            r == (if find_key(self.keys(), id) matches Some(k) && k.user_id == user_id {
                find_key(self.keys(), id)
            } else {
                None
            }),
    {
        self.repo.find_by_id(id, user_id)
    }
}

/// Whether a storage error reports the token-hash uniqueness conflict, as
/// the retry loop distinguishes it.
pub open spec fn is_collision_error(e: AppError) -> bool {
    e matches AppError::Database(m) && m@ == token_hash_conflict_message()
}

pub fn is_token_collision(e: &AppError) -> (r: bool)
    ensures
        r == is_collision_error(*e),
{
    match e {
        AppError::Database(m) => crate::strutil::str_eq(
            m.as_str(),
            "unique constraint violated: api_keys.token_hash",
        ),
        _ => false,
    }
}

/// The first free index lies within the candidate list or just past it.
proof fn lemma_first_free_bounds(cands: Seq<Seq<char>>, keys: Seq<ApiKey>)
    ensures
        0 <= first_free_candidate(cands, keys) <= cands.len(),
    decreases cands.len(),
{
    if cands.len() > 0 && hash_present(keys, sha256_hex_of(cands[0])) {
        lemma_first_free_bounds(cands.drop_first(), keys);
    }
}

/// The candidate at the first free index has a free hash.
proof fn lemma_first_free_is_free(cands: Seq<Seq<char>>, keys: Seq<ApiKey>)
    requires
        first_free_candidate(cands, keys) < cands.len(),
    ensures
        !hash_present(keys, sha256_hex_of(cands[first_free_candidate(cands, keys)])),
    decreases cands.len(),
{
    lemma_first_free_bounds(cands, keys);
    if cands.len() > 0 {
        if hash_present(keys, sha256_hex_of(cands[0])) {
            lemma_first_free_bounds(cands.drop_first(), keys);
            lemma_first_free_is_free(cands.drop_first(), keys);
            let fd = first_free_candidate(cands.drop_first(), keys);
            assert(first_free_candidate(cands, keys) == 1 + fd);
            assert(cands.drop_first()[fd] == cands[1 + fd]);
        }
    }
}

} // verus!
