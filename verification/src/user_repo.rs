//! In-memory user store.  It keeps the invariants the database schema
//! enforced: ids are unique (users are never deleted, so an id is its row
//! index) and the identity provider's id is unique across users.

use vstd::prelude::*;

use crate::models::{CreateUser, User};
use crate::strutil::str_eq;

verus! {

/// First user with the given id, if any.
pub open spec fn find_user(s: Seq<User>, id: u64) -> Option<User>
    decreases s.len(),
{
    if s.len() == 0 {
        None
    } else if s[0].id == id {
        Some(s[0])
    } else {
        find_user(s.drop_first(), id)
    }
}

/// First user with the given provider id, if any.
pub open spec fn find_user_by_twitch(s: Seq<User>, twitch_id: Seq<char>) -> Option<User>
    decreases s.len(),
{
    if s.len() == 0 {
        None
    } else if s[0].twitch_id@ == twitch_id {
        Some(s[0])
    } else {
        find_user_by_twitch(s.drop_first(), twitch_id)
    }
}

/// Index of the first user with the given id, or the length when absent.
pub open spec fn user_index(s: Seq<User>, id: u64) -> int
    decreases s.len(),
{
    if s.len() == 0 {
        0
    } else if s[0].id == id {
        0
    } else {
        1 + user_index(s.drop_first(), id)
    }
}

/// Index counterpart of [`find_user_by_twitch`].
pub open spec fn user_index_by_twitch(s: Seq<User>, twitch_id: Seq<char>) -> int
    decreases s.len(),
{
    if s.len() == 0 {
        0
    } else if s[0].twitch_id@ == twitch_id {
        0
    } else {
        1 + user_index_by_twitch(s.drop_first(), twitch_id)
    }
}

/// ASCII lowercasing of one character.
pub open spec fn lower_char(c: char) -> char {
    if 65 <= (c as u32) <= 90 {
        (((c as u32) + 32) as char)
    } else {
        c
    }
}

pub open spec fn lower_seq(s: Seq<char>) -> Seq<char> {
    s.map_values(|c: char| lower_char(c))
}

/// The needle occurs in the haystack starting at `i`.
pub open spec fn matches_at(h: Seq<char>, n: Seq<char>, i: int) -> bool {
    0 <= i && i + n.len() <= h.len() && forall|k: int| 0 <= k < n.len() ==> h[i + k] == n[k]
}

pub open spec fn contains_sub(h: Seq<char>, n: Seq<char>) -> bool {
    exists|i: int| matches_at(h, n, i)
}

/// Whether a user matches a search: the query occurs, ASCII
/// case-insensitively, in the username or the display name.
pub open spec fn user_matches(u: User, q: Seq<char>) -> bool {
    ||| contains_sub(lower_seq(u.username@), lower_seq(q))
    ||| (u.display_name matches Some(d) && contains_sub(lower_seq(d@), lower_seq(q)))
}

/// All matching users other than the excluded one, in store order.
pub open spec fn matching_users(s: Seq<User>, q: Seq<char>, excl: u64) -> Seq<User>
    decreases s.len(),
{
    if s.len() == 0 {
        Seq::empty()
    } else {
        let rest = matching_users(s.drop_last(), q, excl);
        if user_matches(s.last(), q) && s.last().id != excl {
            rest.push(s.last())
        } else {
            rest
        }
    }
}

/// At most the first ten entries.
pub open spec fn take_ten(s: Seq<User>) -> Seq<User> {
    if s.len() < 10 {
        s
    } else {
        s.take(10)
    }
}

proof fn lemma_take_ten_push(s: Seq<User>, x: User)
    ensures
        take_ten(s.push(x)) == (if s.len() < 10 {
            take_ten(s).push(x)
        } else {
            take_ten(s)
        }),
{
    if s.len() < 10 {
        assert(take_ten(s.push(x)) =~= take_ten(s).push(x));
    } else {
        assert(s.push(x).take(10) =~= s.take(10));
    }
}

/// ASCII lowercasing of a string's characters.
fn to_lower_chars(s: &str) -> (r: Vec<char>)
    ensures
        r@ == lower_seq(s@),
{
    let n = s.unicode_len();
    let mut r: Vec<char> = Vec::new();
    let mut i: usize = 0;
    while i < n
        invariant
            0 <= i <= n,
            n == s@.len(),
            r@.len() == i,
            forall|k: int| 0 <= k < i ==> r@[k] == lower_char(s@[k]),
        decreases n - i,
    {
        let c = s.get_char(i);
        let u = c as u32;
        if 65 <= u && u <= 90 {
            r.push(((u + 32) as u8) as char);
        } else {
            r.push(c);
        }
        i = i + 1;
    }
    proof {
        assert(r@ =~= lower_seq(s@));
    }
    r
}

/// Case-insensitive substring test over pre-lowered character vectors.
fn contains_chars(h: &Vec<char>, n: &Vec<char>) -> (r: bool)
    ensures
        r == contains_sub(h@, n@),
{
    if n.len() == 0 {
        proof {
            assert(matches_at(h@, n@, 0));
        }
        return true;
    }
    if n.len() > h.len() {
        proof {
            assert(forall|i: int| !matches_at(h@, n@, i));
        }
        return false;
    }
    let hl: usize = h.len();
    let nl: usize = n.len();
    let last_start = hl - nl;
    let mut i: usize = 0;
    while i <= last_start
        invariant
            0 <= i <= last_start + 1,
            hl == h@.len(),
            nl == n@.len(),
            last_start == hl - nl,
            nl >= 1,
            forall|k: int| 0 <= k < i ==> !matches_at(h@, n@, k),
        decreases last_start + 1 - i,
    {
        let mut j: usize = 0;
        let mut hit = true;
        while j < n.len()
            invariant
                0 <= j <= nl,
                hl == h@.len(),
                nl == n@.len(),
                i + nl <= hl,
                hit == (forall|k: int| 0 <= k < j ==> h@[i + k] == n@[k]),
            decreases nl - j,
        {
            if h[i + j] != n[j] {
                hit = false;
            }
            j = j + 1;
        }
        if hit {
            proof {
                assert(matches_at(h@, n@, i as int));
            }
            return true;
        }
        i = i + 1;
    }
    proof {
        assert forall|k: int| !matches_at(h@, n@, k) by {
            if 0 <= k <= last_start {
            }
        }
    }
    false
}

pub struct UserRepository {
    users: Vec<User>,
}

impl UserRepository {
    /// The stored users, in insertion order.
    pub closed spec fn view(&self) -> Seq<User> {
        self.users@
    }

    /// Store invariant: a user's id is its row index (users are never
    /// deleted), and provider ids are unique.
    pub closed spec fn wf(&self) -> bool {
        &&& forall|i: int| 0 <= i < self.users@.len() ==> self.users@[i].id == i as u64
        &&& forall|i: int, j: int|
            0 <= i < j < self.users@.len() ==> self.users@[i].twitch_id@
                != self.users@[j].twitch_id@
    }

    pub fn new() -> (r: Self)
        ensures
            r.wf(),
            r@ == Seq::<User>::empty(),
    {
        UserRepository { users: Vec::new() }
    }

    pub fn find_by_twitch_id(&self, twitch_id: &str) -> (r: Option<User>)
        requires
            self.wf(),
        ensures
            r == find_user_by_twitch(self@, twitch_id@),
    {
        let ghost orig = self.users@;
        proof {
            assert(orig.skip(0) =~= orig);
        }
        let mut i: usize = 0;
        while i < self.users.len()
            invariant
                0 <= i <= orig.len(),
                self.users@ == orig,
                self@ == orig,
                find_user_by_twitch(orig, twitch_id@) == find_user_by_twitch(
                    orig.skip(i as int),
                    twitch_id@,
                ),
            decreases orig.len() - i,
        {
            proof {
                assert(orig.skip(i as int).drop_first() =~= orig.skip(i + 1));
            }
            if str_eq(self.users[i].twitch_id.as_str(), twitch_id) {
                return Some(self.users[i].clone());
            }
            i = i + 1;
        }
        None
    }

    pub fn find_by_id(&self, id: u64) -> (r: Option<User>)
        requires
            self.wf(),
        ensures
            r == find_user(self@, id),
    {
        let ghost orig = self.users@;
        proof {
            assert(orig.skip(0) =~= orig);
        }
        let mut i: usize = 0;
        while i < self.users.len()
            invariant
                0 <= i <= orig.len(),
                self.users@ == orig,
                self@ == orig,
                find_user(orig, id) == find_user(orig.skip(i as int), id),
            decreases orig.len() - i,
        {
            proof {
                assert(orig.skip(i as int).drop_first() =~= orig.skip(i + 1));
            }
            if self.users[i].id == id {
                return Some(self.users[i].clone());
            }
            i = i + 1;
        }
        None
    }

    /// Inserts a new user with a fresh id; both timestamps are set to `now`.
    /// The caller keeps the provider-id invariant by looking the user up
    /// first, as the login flow does.
    pub fn create(&mut self, user: CreateUser, now: i64) -> (r: User)
        requires
            old(self).wf(),
            find_user_by_twitch(old(self)@, user.twitch_id@) is None,
        ensures
            final(self).wf(),
            final(self)@ == old(self)@.push(r),
            r.id == old(self)@.len(),
            r.twitch_id == user.twitch_id,
            r.username == user.username,
            r.display_name == user.display_name,
            r.profile_image_url == user.profile_image_url,
            r.email == user.email,
            r.created_at == now,
            r.updated_at == now,
            find_user(old(self)@, r.id) is None,
    {
        let id: u64 = self.users.len() as u64;
        proof {
            lemma_find_user_by_twitch_absent(self.users@, user.twitch_id@);
            assert(forall|i: int| 0 <= i < self.users@.len() ==> self.users@[i].id < id);
            lemma_find_user_fresh(self.users@, id);
        }
        let u = User {
            id,
            twitch_id: user.twitch_id,
            username: user.username,
            display_name: user.display_name,
            profile_image_url: user.profile_image_url,
            email: user.email,
            created_at: now,
            updated_at: now,
        };
        let r = u.clone();
        self.users.push(u);
        r
    }

    /// Updates the provider-sourced fields of the user with this provider id,
    /// if present; other users are untouched.
    pub fn update_twitch_info(
        &mut self,
        twitch_id: &str,
        username: &str,
        display_name: &str,
        profile_image_url: &str,
        email: Option<String>,
        now: i64,
    ) -> (r: Option<User>)
        requires
            old(self).wf(),
        ensures
            final(self).wf(),
            (r is Some) <==> (find_user_by_twitch(old(self)@, twitch_id@) is Some),
            r is None ==> final(self)@ == old(self)@,
            r matches Some(u) ==> {
                let i = user_index_by_twitch(old(self)@, twitch_id@);
                &&& 0 <= i < old(self)@.len()
                &&& final(self)@ == old(self)@.update(i, u)
                &&& u.id == old(self)@[i].id
                &&& u.twitch_id == old(self)@[i].twitch_id
                &&& u.username@ == username@
                &&& (u.display_name matches Some(d) && d@ == display_name@)
                &&& (u.profile_image_url matches Some(p) && p@ == profile_image_url@)
                &&& u.email == email
                &&& u.created_at == old(self)@[i].created_at
                &&& u.updated_at == now
            },
    {
        let ghost orig = self.users@;
        proof {
            assert(orig.skip(0) =~= orig);
        }
        let mut i: usize = 0;
        while i < self.users.len()
            invariant
                0 <= i <= orig.len(),
                self.users@ == orig,
                old(self)@ == orig,
                old(self).wf(),
                find_user_by_twitch(orig, twitch_id@) == find_user_by_twitch(
                    orig.skip(i as int),
                    twitch_id@,
                ),
                user_index_by_twitch(orig, twitch_id@) == i + user_index_by_twitch(
                    orig.skip(i as int),
                    twitch_id@,
                ),
            decreases orig.len() - i,
        {
            proof {
                assert(orig.skip(i as int).drop_first() =~= orig.skip(i + 1));
            }
            if str_eq(self.users[i].twitch_id.as_str(), twitch_id) {
                let old_u = &self.users[i];
                let u = User {
                    id: old_u.id,
                    twitch_id: old_u.twitch_id.clone(),
                    username: username.to_owned(),
                    display_name: Some(display_name.to_owned()),
                    profile_image_url: Some(profile_image_url.to_owned()),
                    email: email,
                    created_at: old_u.created_at,
                    updated_at: now,
                };
                let r = u.clone();
                self.users.set(i, u);
                return Some(r);
            }
            i = i + 1;
        }
        None
    }

    /// Updates the user with this id, if present.
    pub fn update_by_id(
        &mut self,
        id: u64,
        username: &str,
        display_name: Option<&str>,
        profile_image_url: Option<&str>,
        email: Option<String>,
        now: i64,
    ) -> (r: Option<User>)
        requires
            old(self).wf(),
        ensures
            final(self).wf(),
            (r is Some) <==> (find_user(old(self)@, id) is Some),
            r is None ==> final(self)@ == old(self)@,
            r matches Some(u) ==> {
                let i = user_index(old(self)@, id);
                &&& 0 <= i < old(self)@.len()
                &&& final(self)@ == old(self)@.update(i, u)
                &&& u.id == id
                &&& u.twitch_id == old(self)@[i].twitch_id
                &&& u.username@ == username@
                &&& (match display_name {
                    Some(d) => u.display_name matches Some(v) && v@ == d@,
                    None => u.display_name is None,
                })
                &&& (match profile_image_url {
                    Some(p) => u.profile_image_url matches Some(v) && v@ == p@,
                    None => u.profile_image_url is None,
                })
                &&& u.email == email
                &&& u.created_at == old(self)@[i].created_at
                &&& u.updated_at == now
            },
    {
        let ghost orig = self.users@;
        proof {
            assert(orig.skip(0) =~= orig);
        }
        let mut i: usize = 0;
        while i < self.users.len()
            invariant
                0 <= i <= orig.len(),
                self.users@ == orig,
                old(self)@ == orig,
                old(self).wf(),
                find_user(orig, id) == find_user(orig.skip(i as int), id),
                user_index(orig, id) == i + user_index(orig.skip(i as int), id),
            decreases orig.len() - i,
        {
            proof {
                assert(orig.skip(i as int).drop_first() =~= orig.skip(i + 1));
            }
            if self.users[i].id == id {
                let old_u = &self.users[i];
                let u = User {
                    id: old_u.id,
                    twitch_id: old_u.twitch_id.clone(),
                    username: username.to_owned(),
                    display_name: match display_name {
                        Some(d) => Some(d.to_owned()),
                        None => None,
                    },
                    profile_image_url: match profile_image_url {
                        Some(p) => Some(p.to_owned()),
                        None => None,
                    },
                    email: email,
                    created_at: old_u.created_at,
                    updated_at: now,
                };
                let r = u.clone();
                self.users.set(i, u);
                return Some(r);
            }
            i = i + 1;
        }
        None
    }

    /// Users matching a query, ASCII case-insensitively, in username or
    /// display name, excluding the caller, at most ten, in store order.
    pub fn search(&self, query: &str, exclude_id: u64) -> (r: Vec<User>)
        requires
            self.wf(),
        ensures
            r@ == take_ten(matching_users(self@, query@, exclude_id)),
    {
        let ghost orig = self.users@;
        let q = to_lower_chars(query);
        let mut r: Vec<User> = Vec::new();
        let mut i: usize = 0;
        while i < self.users.len()
            invariant
                0 <= i <= orig.len(),
                self.users@ == orig,
                self@ == orig,
                self.wf(),
                q@ == lower_seq(query@),
                r@ == take_ten(matching_users(orig.take(i as int), query@, exclude_id)),
                r@.len() == (if matching_users(orig.take(i as int), query@, exclude_id).len()
                    < 10 {
                    matching_users(orig.take(i as int), query@, exclude_id).len() as int
                } else {
                    10int
                }),
            decreases orig.len() - i,
        {
            proof {
                assert(orig.take(i + 1).drop_last() =~= orig.take(i as int));
                assert(orig.take(i + 1).last() == orig[i as int]);
            }
            let u = &self.users[i];
            let uname = to_lower_chars(u.username.as_str());
            let mut hit = contains_chars(&uname, &q);
            if !hit {
                match &u.display_name {
                    Some(d) => {
                        let dn = to_lower_chars(d.as_str());
                        hit = contains_chars(&dn, &q);
                    },
                    None => {},
                }
            }
            proof {
                assert(hit == user_matches(orig[i as int], query@));
            }
            if hit && u.id != exclude_id {
                proof {
                    lemma_take_ten_push(
                        matching_users(orig.take(i as int), query@, exclude_id),
                        orig[i as int],
                    );
                }
                if r.len() < 10 {
                    r.push(u.clone());
                }
            }
            i = i + 1;
        }
        proof {
            assert(orig.take(orig.len() as int) =~= orig);
        }
        r
    }
}

/// When no user carries the provider id, none of the rows does.
proof fn lemma_find_user_by_twitch_absent(s: Seq<User>, twitch_id: Seq<char>)
    requires
        find_user_by_twitch(s, twitch_id) is None,
    ensures
        forall|i: int| 0 <= i < s.len() ==> s[i].twitch_id@ != twitch_id,
    decreases s.len(),
{
    if s.len() > 0 {
        lemma_find_user_by_twitch_absent(s.drop_first(), twitch_id);
        assert(forall|i: int| 1 <= i < s.len() ==> s[i] == s.drop_first()[i - 1]);
    }
}

/// An id at or above every stored id is not found.
proof fn lemma_find_user_fresh(s: Seq<User>, id: u64)
    requires
        forall|i: int| 0 <= i < s.len() ==> s[i].id < id,
    ensures
        find_user(s, id) is None,
    decreases s.len(),
{
    if s.len() > 0 {
        assert(forall|i: int| 0 <= i < s.drop_first().len() ==> s.drop_first()[i] == s[i + 1]);
        lemma_find_user_fresh(s.drop_first(), id);
    }
}

/// Relates a find to the indexed element: when present, the found user sits
/// at its index, which is the first occurrence.
pub proof fn lemma_find_user_index(s: Seq<User>, id: u64)
    ensures
        find_user(s, id) is Some ==> {
            let i = user_index(s, id);
            &&& 0 <= i < s.len()
            &&& s[i] == find_user(s, id)->0
            &&& s[i].id == id
            &&& forall|k: int| 0 <= k < i ==> s[k].id != id
        },
        find_user(s, id) is None ==> user_index(s, id) == s.len() && forall|k: int|
            0 <= k < s.len() ==> s[k].id != id,
    decreases s.len(),
{
    if s.len() == 0 {
    } else if s[0].id == id {
        assert(find_user(s, id) == Some(s[0]));
        assert(user_index(s, id) == 0);
    } else {
        let t = s.drop_first();
        lemma_find_user_index(t, id);
        assert(forall|k: int| 0 <= k < t.len() ==> t[k] == s[k + 1]);
        assert(find_user(s, id) == find_user(t, id));
        assert(user_index(s, id) == 1 + user_index(t, id));
        assert forall|k: int| 1 <= k < s.len() implies s[k] == t[k - 1] by {
            assert(t[k - 1] == s[k]);
        }
        if find_user(t, id) is Some {
            let i = user_index(s, id);
            assert(s[i] == t[i - 1]);
        }
    }
}

/// Relates a provider-id find to the indexed element.
pub proof fn lemma_find_user_by_twitch_index(s: Seq<User>, twitch_id: Seq<char>)
    ensures
        find_user_by_twitch(s, twitch_id) is Some ==> {
            let i = user_index_by_twitch(s, twitch_id);
            &&& 0 <= i < s.len()
            &&& s[i] == find_user_by_twitch(s, twitch_id)->0
            &&& s[i].twitch_id@ == twitch_id
        },
        find_user_by_twitch(s, twitch_id) is None ==> user_index_by_twitch(s, twitch_id)
            == s.len(),
    decreases s.len(),
{
    if s.len() == 0 {
    } else if s[0].twitch_id@ == twitch_id {
    } else {
        let t = s.drop_first();
        lemma_find_user_by_twitch_index(t, twitch_id);
        assert(forall|k: int| 0 <= k < t.len() ==> t[k] == s[k + 1]);
        if find_user_by_twitch(t, twitch_id) is Some {
            let i = user_index_by_twitch(s, twitch_id);
            assert(s[i] == t[i - 1]);
        }
    }
}

} // verus!
