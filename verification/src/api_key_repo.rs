//! In-memory API-key store.  It keeps the invariants the database schema
//! enforced: ids are unique and assigned by a counter, and a token hash is
//! unique across all rows, revoked or not, so at most one non-revoked key
//! ever matches a hash.

use vstd::prelude::*;

use crate::error::AppError;
use crate::models::ApiKey;
use crate::strutil::str_eq;
use crate::sequtil::rev_filter;

verus! {

/// The message a hash-uniqueness conflict is reported with.
pub open spec fn token_hash_conflict_message() -> Seq<char> {
    "unique constraint violated: api_keys.token_hash"@
}

/// First key with the given id, if any.
pub open spec fn find_key(s: Seq<ApiKey>, id: u64) -> Option<ApiKey>
    decreases s.len(),
{
    if s.len() == 0 {
        None
    } else if s[0].id == id {
        Some(s[0])
    } else {
        find_key(s.drop_first(), id)
    }
}

/// Index of the first key with the given id, or the length when absent.
pub open spec fn key_index(s: Seq<ApiKey>, id: u64) -> int
    decreases s.len(),
{
    if s.len() == 0 {
        0
    } else if s[0].id == id {
        0
    } else {
        1 + key_index(s.drop_first(), id)
    }
}

/// First non-revoked key with the given token hash, if any; by the store
/// invariant there is at most one.
pub open spec fn find_key_by_hash(s: Seq<ApiKey>, hash: Seq<char>) -> Option<ApiKey>
    decreases s.len(),
{
    if s.len() == 0 {
        None
    } else if !s[0].revoked && s[0].token_hash@ == hash {
        Some(s[0])
    } else {
        find_key_by_hash(s.drop_first(), hash)
    }
}

/// Whether any row, revoked or not, carries this hash.
pub open spec fn hash_present(s: Seq<ApiKey>, hash: Seq<char>) -> bool {
    exists|i: int| 0 <= i < s.len() && s[i].token_hash@ == hash
}

/// A key with the revoked flag set, all else equal.
pub open spec fn revoked_copy(k: ApiKey) -> ApiKey {
    ApiKey {
        id: k.id,
        user_id: k.user_id,
        name: k.name,
        token_hash: k.token_hash,
        scopes: k.scopes,
        revoked: true,
        created_at: k.created_at,
    }
}

pub struct ApiKeyRepository {
    keys: Vec<ApiKey>,
    next_id: u64,
}

impl ApiKeyRepository {
    /// The stored keys, in insertion order.
    pub closed spec fn view(&self) -> Seq<ApiKey> {
        self.keys@
    }

    /// Whether a fresh id can still be allocated.
    pub closed spec fn can_allocate(&self) -> bool {
        self.next_id < u64::MAX
    }

    /// Store invariant: ids unique and below the counter; hashes unique
    /// across all rows.
    pub closed spec fn wf(&self) -> bool {
        &&& forall|i: int, j: int|
            0 <= i < j < self.keys@.len() ==> self.keys@[i].id != self.keys@[j].id
        &&& forall|i: int| 0 <= i < self.keys@.len() ==> self.keys@[i].id < self.next_id
        &&& forall|i: int, j: int|
            0 <= i < j < self.keys@.len() ==> self.keys@[i].token_hash@
                != self.keys@[j].token_hash@
    }

    pub fn new() -> (r: Self)
        ensures
            r.wf(),
            r.can_allocate(),
            r@ == Seq::<ApiKey>::empty(),
    {
        ApiKeyRepository { keys: Vec::new(), next_id: 0 }
    }

    /// Inserts a new key row.  A row whose hash is already present, revoked
    /// or not, is refused with the uniqueness-conflict message, exactly as
    /// the storage layer's constraint would.
    pub fn create(
        &mut self,
        user_id: u64,
        name: Option<&str>,
        token_hash: &str,
        scopes: &str,
        now: i64,
    ) -> (r: Result<ApiKey, AppError>)
        requires
            old(self).wf(),
        ensures
            final(self).wf(),
            r is Err ==> *final(self) == *old(self),
            hash_present(old(self)@, token_hash@) ==> (r matches Err(e) && (
            e matches AppError::Database(m) && m@ == token_hash_conflict_message()) && final(self)@
                == old(self)@),
            !hash_present(old(self)@, token_hash@) && !old(self).can_allocate() ==> (r
                matches Err(e) && e is Internal && final(self)@ == old(self)@),
            !hash_present(old(self)@, token_hash@) && old(self).can_allocate() ==> (r matches Ok(k)
                && {
                &&& final(self)@ == old(self)@.push(k)
                &&& k.user_id == user_id
                &&& (match name {
                    Some(n) => k.name matches Some(v) && v@ == n@,
                    None => k.name is None,
                })
                &&& k.token_hash@ == token_hash@
                &&& k.scopes@ == scopes@
                &&& !k.revoked
                &&& k.created_at == now
                &&& find_key(old(self)@, k.id) is None
            }),
    {
        let ghost orig = self.keys@;
        let mut i: usize = 0;
        while i < self.keys.len()
            invariant
                0 <= i <= orig.len(),
                *self == *old(self),
                self.keys@ == orig,
                old(self).wf(),
                forall|k: int| 0 <= k < i ==> orig[k].token_hash@ != token_hash@,
            decreases orig.len() - i,
        {
            if str_eq(self.keys[i].token_hash.as_str(), token_hash) {
                return Err(AppError::Database(
                    "unique constraint violated: api_keys.token_hash".to_owned(),
                ));
            }
            i = i + 1;
        }
        if self.next_id == u64::MAX {
            return Err(AppError::Internal("id space exhausted".to_owned()));
        }
        let k = ApiKey {
            id: self.next_id,
            user_id,
            name: match name {
                Some(n) => Some(n.to_owned()),
                None => None,
            },
            token_hash: token_hash.to_owned(),
            scopes: scopes.to_owned(),
            revoked: false,
            created_at: now,
        };
        proof {
            lemma_find_key_fresh(self.keys@, self.next_id);
        }
        let r = k.clone();
        self.keys.push(k);
        self.next_id = self.next_id + 1;
        Ok(r)
    }

    /// Looks a key up by its token hash, seeing only non-revoked rows.
    pub fn find_by_token_hash(&self, token_hash: &str) -> (r: Option<ApiKey>)
        requires
            self.wf(),
        ensures
            r == find_key_by_hash(self@, token_hash@),
    {
        let ghost orig = self.keys@;
        proof {
            assert(orig.skip(0) =~= orig);
        }
        let mut i: usize = 0;
        while i < self.keys.len()
            invariant
                0 <= i <= orig.len(),
                self.keys@ == orig,
                self@ == orig,
                find_key_by_hash(orig, token_hash@) == find_key_by_hash(
                    orig.skip(i as int),
                    token_hash@,
                ),
            decreases orig.len() - i,
        {
            proof {
                assert(orig.skip(i as int).drop_first() =~= orig.skip(i + 1));
            }
            if !self.keys[i].revoked && str_eq(self.keys[i].token_hash.as_str(), token_hash) {
                return Some(self.keys[i].clone());
            }
            i = i + 1;
        }
        None
    }

    /// All keys of a user, newest first.
    pub fn list_by_user(&self, user_id: u64) -> (r: Vec<ApiKey>)
        requires
            self.wf(),
        ensures
            r@ == rev_filter(self@, |k: ApiKey| k.user_id == user_id),
    {
        let ghost pred = |k: ApiKey| k.user_id == user_id;
        let mut r: Vec<ApiKey> = Vec::new();
        let mut i: usize = 0;
        while i < self.keys.len()
            invariant
                0 <= i <= self.keys@.len(),
                self@ == self.keys@,
                r@ == rev_filter(self.keys@.take(i as int), pred),
                pred == (|k: ApiKey| k.user_id == user_id),
            decreases self.keys@.len() - i,
        {
            proof {
                assert(self.keys@.take(i + 1).drop_last() =~= self.keys@.take(i as int));
                assert(self.keys@.take(i + 1).last() == self.keys@[i as int]);
            }
            if self.keys[i].user_id == user_id {
                r.insert(0, self.keys[i].clone());
                proof {
                    assert(r@ =~= seq![self.keys@[i as int]] + rev_filter(
                        self.keys@.take(i as int),
                        pred,
                    ));
                }
            }
            i = i + 1;
        }
        proof {
            assert(self.keys@.take(self.keys@.len() as int) =~= self.keys@);
        }
        r
    }

    /// Flips the revoked flag of the key matching both id and owner, if it is
    /// not revoked yet; reports whether a row changed.  A key of another
    /// owner is never touched.
    pub fn revoke(&mut self, id: u64, user_id: u64) -> (r: bool)
        requires
            old(self).wf(),
        ensures
            final(self).wf(),
            r == (find_key(old(self)@, id) matches Some(k) && k.user_id == user_id && !k.revoked),
            !r ==> final(self)@ == old(self)@,
            r ==> {
                let i = key_index(old(self)@, id);
                &&& 0 <= i < old(self)@.len()
                &&& final(self)@ == old(self)@.update(i, revoked_copy(old(self)@[i]))
            },
    {
        let ghost orig = self.keys@;
        proof {
            assert(orig.skip(0) =~= orig);
        }
        let mut i: usize = 0;
        while i < self.keys.len()
            invariant
                0 <= i <= orig.len(),
                self.keys@ == orig,
                old(self)@ == orig,
                old(self).wf(),
                self.next_id == old(self).next_id,
                find_key(orig, id) == find_key(orig.skip(i as int), id),
                key_index(orig, id) == i + key_index(orig.skip(i as int), id),
            decreases orig.len() - i,
        {
            proof {
                assert(orig.skip(i as int).drop_first() =~= orig.skip(i + 1));
            }
            if self.keys[i].id == id {
                if self.keys[i].user_id == user_id && !self.keys[i].revoked {
                    let old_k = &self.keys[i];
                    let k = ApiKey {
                        id: old_k.id,
                        user_id: old_k.user_id,
                        name: crate::models::clone_opt_string(&old_k.name),
                        token_hash: old_k.token_hash.clone(),
                        scopes: old_k.scopes.clone(),
                        revoked: true,
                        created_at: old_k.created_at,
                    };
                    self.keys.set(i, k);
                    return true;
                } else {
                    return false;
                }
            }
            i = i + 1;
        }
        false
    }

    /// Removes the key matching both id and owner; reports whether a row was
    /// removed.
    pub fn delete(&mut self, id: u64, user_id: u64) -> (r: bool)
        requires
            old(self).wf(),
        ensures
            final(self).wf(),
            r == (find_key(old(self)@, id) matches Some(k) && k.user_id == user_id),
            !r ==> final(self)@ == old(self)@,
            r ==> {
                let i = key_index(old(self)@, id);
                &&& 0 <= i < old(self)@.len()
                &&& final(self)@ == old(self)@.remove(i)
            },
    {
        let ghost orig = self.keys@;
        proof {
            assert(orig.skip(0) =~= orig);
        }
        let mut i: usize = 0;
        while i < self.keys.len()
            invariant
                0 <= i <= orig.len(),
                self.keys@ == orig,
                old(self)@ == orig,
                old(self).wf(),
                self.next_id == old(self).next_id,
                find_key(orig, id) == find_key(orig.skip(i as int), id),
                key_index(orig, id) == i + key_index(orig.skip(i as int), id),
            decreases orig.len() - i,
        {
            proof {
                assert(orig.skip(i as int).drop_first() =~= orig.skip(i + 1));
            }
            if self.keys[i].id == id {
                if self.keys[i].user_id == user_id {
                    self.keys.remove(i);
                    return true;
                } else {
                    return false;
                }
            }
            i = i + 1;
        }
        false
    }

    /// Looks a key up by id, scoped to its owner.
    pub fn find_by_id(&self, id: u64, user_id: u64) -> (r: Option<ApiKey>)
        requires
            self.wf(),
        ensures
            r == (if find_key(self@, id) matches Some(k) && k.user_id == user_id {
                find_key(self@, id)
            } else {
                None
            }),
    {
        let ghost orig = self.keys@;
        proof {
            assert(orig.skip(0) =~= orig);
        }
        let mut i: usize = 0;
        while i < self.keys.len()
            invariant
                0 <= i <= orig.len(),
                self.keys@ == orig,
                self@ == orig,
                find_key(orig, id) == find_key(orig.skip(i as int), id),
            decreases orig.len() - i,
        {
            proof {
                assert(orig.skip(i as int).drop_first() =~= orig.skip(i + 1));
            }
            if self.keys[i].id == id {
                if self.keys[i].user_id == user_id {
                    return Some(self.keys[i].clone());
                } else {
                    return None;
                }
            }
            i = i + 1;
        }
        None
    }
}

/// When no non-revoked row carries the hash, lookup by it fails.
proof fn lemma_find_by_hash_absent(s: Seq<ApiKey>, hash: Seq<char>)
    requires
        forall|i: int|
            0 <= i < s.len() ==> !(!(#[trigger] s[i]).revoked && s[i].token_hash@ == hash),
    ensures
        find_key_by_hash(s, hash) is None,
    decreases s.len(),
{
    if s.len() > 0 {
        assert(forall|i: int| 0 <= i < s.drop_first().len() ==> s.drop_first()[i] == s[i + 1]);
        lemma_find_by_hash_absent(s.drop_first(), hash);
    }
}

/// Revoking a key removes it from authentication at once: after the revoke
/// flip, no lookup by its token hash sees a key, because hashes are unique
/// across rows and the one matching row is now revoked.
pub proof fn lemma_revoke_hides_key(repo: &ApiKeyRepository, id: u64)
    requires
        repo.wf(),
        find_key(repo@, id) is Some,
    ensures
        ({
            let i = key_index(repo@, id);
            find_key_by_hash(
                repo@.update(i, revoked_copy(repo@[i])),
                repo@[i].token_hash@,
            ) is None
        }),
{
    lemma_find_key_index(repo@, id);
    let i = key_index(repo@, id);
    let upd = repo@.update(i, revoked_copy(repo@[i]));
    assert forall|k: int| 0 <= k < upd.len() implies !(!(#[trigger] upd[k]).revoked
        && upd[k].token_hash@ == repo@[i].token_hash@) by {
        if k != i {
            assert(upd[k] == repo@[k]);
            assert(repo@[k].token_hash@ != repo@[i].token_hash@);
        }
    }
    lemma_find_by_hash_absent(upd, repo@[i].token_hash@);
}

/// An id at or above every stored id is not found.
proof fn lemma_find_key_fresh(s: Seq<ApiKey>, id: u64)
    requires
        forall|i: int| 0 <= i < s.len() ==> s[i].id < id,
    ensures
        find_key(s, id) is None,
    decreases s.len(),
{
    if s.len() > 0 {
        assert(forall|i: int| 0 <= i < s.drop_first().len() ==> s.drop_first()[i] == s[i + 1]);
        lemma_find_key_fresh(s.drop_first(), id);
    }
}

/// Relates a find to the indexed element: when present, the found key sits
/// at its index, which is the first occurrence.
pub proof fn lemma_find_key_index(s: Seq<ApiKey>, id: u64)
    ensures
        find_key(s, id) is Some ==> {
            let i = key_index(s, id);
            &&& 0 <= i < s.len()
            &&& s[i] == find_key(s, id)->0
            &&& s[i].id == id
            &&& forall|k: int| 0 <= k < i ==> s[k].id != id
        },
        find_key(s, id) is None ==> key_index(s, id) == s.len() && forall|k: int|
            0 <= k < s.len() ==> s[k].id != id,
    decreases s.len(),
{
    if s.len() == 0 {
    } else if s[0].id == id {
    } else {
        let t = s.drop_first();
        lemma_find_key_index(t, id);
        assert(forall|k: int| 0 <= k < t.len() ==> t[k] == s[k + 1]);
        assert forall|k: int| 1 <= k < s.len() implies s[k] == t[k - 1] by {
            assert(t[k - 1] == s[k]);
        }
        if find_key(t, id) is Some {
            let i = key_index(s, id);
            assert(s[i] == t[i - 1]);
        }
    }
}

} // verus!
