//! In-memory page and permission store.  It keeps the invariants the
//! database schema enforced: unique ids, at most one permission row per
//! (page, user) pair, and unique public slugs.

use vstd::prelude::*;

use crate::error::AppError;
use crate::models::{
    CreatePage, Page, PagePermission, PagePermissionWithUser, PageWithPermission, UpdatePage,
};
use crate::sequtil::rev_filter;
use crate::strutil::str_eq;
use crate::user_repo::{find_user, UserRepository};

verus! {

/// The message a slug-uniqueness conflict is reported with.
pub open spec fn slug_conflict_message() -> Seq<char> {
    "unique constraint violated: pages.public_slug"@
}

/// First page with the given id, if any.
pub open spec fn find_page(s: Seq<Page>, id: u64) -> Option<Page>
    decreases s.len(),
{
    if s.len() == 0 {
        None
    } else if s[0].id == id {
        Some(s[0])
    } else {
        find_page(s.drop_first(), id)
    }
}

/// Index of the first page with the given id, or the length when absent.
pub open spec fn page_index(s: Seq<Page>, id: u64) -> int
    decreases s.len(),
{
    if s.len() == 0 {
        0
    } else if s[0].id == id {
        0
    } else {
        1 + page_index(s.drop_first(), id)
    }
}

/// First page carrying the given public slug, if any.
pub open spec fn find_page_by_slug(s: Seq<Page>, slug: Seq<char>) -> Option<Page>
    decreases s.len(),
{
    if s.len() == 0 {
        None
    } else if s[0].public_slug matches Some(v) && v@ == slug {
        Some(s[0])
    } else {
        find_page_by_slug(s.drop_first(), slug)
    }
}

/// Whether some page other than `excl_id` already carries the slug.
pub open spec fn slug_taken(s: Seq<Page>, slug: Seq<char>, excl_id: u64) -> bool {
    exists|i: int|
        {
            &&& 0 <= i < s.len()
            &&& (#[trigger] s[i].public_slug) matches Some(v)
            &&& v@ == slug
            &&& s[i].id != excl_id
        }
}

/// First permission row with the given id, if any.
pub open spec fn find_perm(s: Seq<PagePermission>, id: u64) -> Option<PagePermission>
    decreases s.len(),
{
    if s.len() == 0 {
        None
    } else if s[0].id == id {
        Some(s[0])
    } else {
        find_perm(s.drop_first(), id)
    }
}

/// Index of the first permission row with the given id.
pub open spec fn perm_index(s: Seq<PagePermission>, id: u64) -> int
    decreases s.len(),
{
    if s.len() == 0 {
        0
    } else if s[0].id == id {
        0
    } else {
        1 + perm_index(s.drop_first(), id)
    }
}

/// The permission row for a (page, user) pair, if any; by the store
/// invariant there is at most one.
pub open spec fn find_perm_pair(s: Seq<PagePermission>, page_id: u64, user_id: u64) -> Option<
    PagePermission,
>
    decreases s.len(),
{
    if s.len() == 0 {
        None
    } else if s[0].page_id == page_id && s[0].user_id == user_id {
        Some(s[0])
    } else {
        find_perm_pair(s.drop_first(), page_id, user_id)
    }
}

/// Read access: the page exists and the user is its creator or holds any
/// permission row for it.
pub open spec fn has_access(
    pages: Seq<Page>,
    perms: Seq<PagePermission>,
    page_id: u64,
    user_id: u64,
) -> bool {
    match find_page(pages, page_id) {
        Some(p) => p.creator_id == user_id || find_perm_pair(perms, page_id, user_id) is Some,
        None => false,
    }
}

/// Write access: the page exists and the user is its creator or holds a
/// permission row with the edit flag.
pub open spec fn has_edit(
    pages: Seq<Page>,
    perms: Seq<PagePermission>,
    page_id: u64,
    user_id: u64,
) -> bool {
    match find_page(pages, page_id) {
        Some(p) => p.creator_id == user_id || (find_perm_pair(perms, page_id, user_id) matches Some(
            q,
        ) && q.can_edit),
        None => false,
    }
}

/// The permission rows that do not belong to the given page, in row order:
/// what a page delete leaves behind.
pub open spec fn perms_without_page(s: Seq<PagePermission>, page_id: u64) -> Seq<PagePermission>
    decreases s.len(),
{
    if s.len() == 0 {
        Seq::empty()
    } else if s.last().page_id == page_id {
        perms_without_page(s.drop_last(), page_id)
    } else {
        perms_without_page(s.drop_last(), page_id).push(s.last())
    }
}

/// Pages shared with the user by an explicit permission row, in row order,
/// skipping rows whose page no longer exists.
pub open spec fn shared_entries(
    pages: Seq<Page>,
    perms: Seq<PagePermission>,
    user_id: u64,
) -> Seq<PageWithPermission>
    decreases perms.len(),
{
    if perms.len() == 0 {
        Seq::empty()
    } else {
        let rest = shared_entries(pages, perms.drop_first(), user_id);
        if perms[0].user_id == user_id && find_page(pages, perms[0].page_id) is Some {
            seq![
                PageWithPermission {
                    page: find_page(pages, perms[0].page_id)->0,
                    is_creator: false,
                    can_edit: perms[0].can_edit,
                },
            ] + rest
        } else {
            rest
        }
    }
}

/// Pages with unique ids below the bound and unique public slugs.
pub open spec fn pages_ok(s: Seq<Page>, bound: u64) -> bool {
    &&& forall|i: int, j: int| 0 <= i < j < s.len() ==> s[i].id != s[j].id
    &&& forall|i: int| 0 <= i < s.len() ==> s[i].id < bound
    &&& forall|i: int, j: int|
        #![trigger s[i].public_slug, s[j].public_slug]
        0 <= i < j < s.len() ==> !(s[i].public_slug matches Some(a) && s[j].public_slug
            matches Some(b) && a@ == b@)
}

/// Permission rows with unique ids below the bound and unique
/// (page, user) pairs.
pub open spec fn perms_ok(s: Seq<PagePermission>, bound: u64) -> bool {
    &&& forall|i: int, j: int| 0 <= i < j < s.len() ==> s[i].id != s[j].id
    &&& forall|i: int| 0 <= i < s.len() ==> s[i].id < bound
    &&& forall|i: int, j: int|
        0 <= i < j < s.len() ==> !(s[i].page_id == s[j].page_id && s[i].user_id == s[j].user_id)
}

pub struct PageRepository {
    pages: Vec<Page>,
    permissions: Vec<PagePermission>,
    next_page_id: u64,
    next_perm_id: u64,
}

impl PageRepository {
    /// The stored pages, in insertion order.
    pub closed spec fn pages_view(&self) -> Seq<Page> {
        self.pages@
    }

    /// The stored permission rows, in insertion order.
    pub closed spec fn perms_view(&self) -> Seq<PagePermission> {
        self.permissions@
    }

    pub closed spec fn can_allocate_page(&self) -> bool {
        self.next_page_id < u64::MAX
    }

    pub closed spec fn can_allocate_perm(&self) -> bool {
        self.next_perm_id < u64::MAX
    }

    /// Store invariant: unique page ids below the counter, unique permission
    /// ids below the counter, one permission row per (page, user) pair, and
    /// unique public slugs.
    pub closed spec fn wf(&self) -> bool {
        &&& pages_ok(self.pages@, self.next_page_id)
        &&& perms_ok(self.permissions@, self.next_perm_id)
    }

    pub fn new() -> (r: Self)
        ensures
            r.wf(),
            r.can_allocate_page(),
            r.can_allocate_perm(),
            r.pages_view() == Seq::<Page>::empty(),
            r.perms_view() == Seq::<PagePermission>::empty(),
    {
        PageRepository {
            pages: Vec::new(),
            permissions: Vec::new(),
            next_page_id: 0,
            next_perm_id: 0,
        }
    }

    pub fn find_by_id(&self, id: u64) -> (r: Option<Page>)
        requires
            self.wf(),
        ensures
            r == find_page(self.pages_view(), id),
    {
        let ghost orig = self.pages@;
        proof {
            assert(orig.skip(0) =~= orig);
        }
        let mut i: usize = 0;
        while i < self.pages.len()
            invariant
                0 <= i <= orig.len(),
                self.pages@ == orig,
                find_page(orig, id) == find_page(orig.skip(i as int), id),
            decreases orig.len() - i,
        {
            proof {
                assert(orig.skip(i as int).drop_first() =~= orig.skip(i + 1));
            }
            if self.pages[i].id == id {
                return Some(self.pages[i].clone());
            }
            i = i + 1;
        }
        None
    }

    pub fn find_by_public_slug(&self, slug: &str) -> (r: Option<Page>)
        requires
            self.wf(),
        ensures
            r == find_page_by_slug(self.pages_view(), slug@),
    {
        let ghost orig = self.pages@;
        proof {
            assert(orig.skip(0) =~= orig);
        }
        let mut i: usize = 0;
        while i < self.pages.len()
            invariant
                0 <= i <= orig.len(),
                self.pages@ == orig,
                find_page_by_slug(orig, slug@) == find_page_by_slug(orig.skip(i as int), slug@),
            decreases orig.len() - i,
        {
            proof {
                assert(orig.skip(i as int).drop_first() =~= orig.skip(i + 1));
            }
            let hit = match &self.pages[i].public_slug {
                Some(v) => str_eq(v.as_str(), slug),
                None => false,
            };
            if hit {
                return Some(self.pages[i].clone());
            }
            i = i + 1;
        }
        None
    }

    /// Inserts a new page owned by `creator_id`, with no public slug.
    pub fn create(&mut self, creator_id: u64, data: CreatePage, now: i64) -> (r: Result<
        Page,
        AppError,
    >)
        requires
            old(self).wf(),
        ensures
            final(self).wf(),
            final(self).perms_view() == old(self).perms_view(),
            !old(self).can_allocate_page() ==> (r is Err && final(self).pages_view() == old(self).pages_view()),
            old(self).can_allocate_page() ==> (r matches Ok(p) && {
                &&& final(self).pages_view() == old(self).pages_view().push(p)
                &&& p.title == data.title
                &&& p.description == data.description
                &&& p.creator_id == creator_id
                &&& p.public_slug is None
                &&& p.created_at == now
                &&& p.updated_at == now
                &&& find_page(old(self).pages_view(), p.id) is None
            }),
    {
        if self.next_page_id == u64::MAX {
            return Err(AppError::Internal("id space exhausted".to_owned()));
        }
        let p = Page {
            id: self.next_page_id,
            title: data.title,
            description: data.description,
            creator_id,
            public_slug: None,
            created_at: now,
            updated_at: now,
        };
        proof {
            lemma_find_page_fresh(self.pages@, self.next_page_id);
        }
        let r = p.clone();
        self.pages.push(p);
        self.next_page_id = self.next_page_id + 1;
        Ok(r)
    }

    /// Patches title and description; giving neither returns the stored row
    /// unchanged, as a patch with no fields does.
    pub fn update(&mut self, id: u64, data: UpdatePage, now: i64) -> (r: Option<Page>)
        requires
            old(self).wf(),
        ensures
            final(self).wf(),
            final(self).perms_view() == old(self).perms_view(),
            (r is Some) <==> (find_page(old(self).pages_view(), id) is Some),
            r is None ==> final(self).pages_view() == old(self).pages_view(),
            data.title is None && data.description is None ==> (final(self).pages_view() == old(self).pages_view() && r == find_page(old(self).pages_view(), id)),
            !(data.title is None && data.description is None) ==> (r matches Some(p) ==> {
                let i = page_index(old(self).pages_view(), id);
                let orig = old(self).pages_view()[i];
                &&& 0 <= i < old(self).pages_view().len()
                &&& final(self).pages_view() == old(self).pages_view().update(i, p)
                &&& p.id == id
                &&& p.title == (if data.title is Some {
                    data.title->0
                } else {
                    orig.title
                })
                &&& p.description == (if data.description is Some {
                    data.description
                } else {
                    orig.description
                })
                &&& p.creator_id == orig.creator_id
                &&& p.public_slug == orig.public_slug
                &&& p.created_at == orig.created_at
                &&& p.updated_at == now
            }),
    {
        if data.title.is_none() && data.description.is_none() {
            return self.find_by_id(id);
        }
        let ghost orig = self.pages@;
        proof {
            assert(orig.skip(0) =~= orig);
        }
        let mut i: usize = 0;
        while i < self.pages.len()
            invariant
                0 <= i <= orig.len(),
                self.pages@ == orig,
                *self == *old(self),
                old(self).wf(),
                !(data.title is None && data.description is None),
                find_page(orig, id) == find_page(orig.skip(i as int), id),
                page_index(orig, id) == i + page_index(orig.skip(i as int), id),
            decreases orig.len() - i,
        {
            proof {
                assert(orig.skip(i as int).drop_first() =~= orig.skip(i + 1));
            }
            if self.pages[i].id == id {
                let old_p = &self.pages[i];
                let p = Page {
                    id: old_p.id,
                    title: match &data.title {
                        Some(t) => t.clone(),
                        None => old_p.title.clone(),
                    },
                    description: match &data.description {
                        Some(d) => Some(d.clone()),
                        None => crate::models::clone_opt_string(&old_p.description),
                    },
                    creator_id: old_p.creator_id,
                    public_slug: crate::models::clone_opt_string(&old_p.public_slug),
                    created_at: old_p.created_at,
                    updated_at: now,
                };
                let r = p.clone();
                self.pages.set(i, p);
                return Some(r);
            }
            i = i + 1;
        }
        None
    }

    /// Index of the page with this id, when present.
    fn page_pos(&self, id: u64) -> (r: Option<usize>)
        requires
            self.wf(),
        ensures
            (r is Some) <==> (find_page(self.pages_view(), id) is Some),
            r matches Some(i) ==> i == page_index(self.pages_view(), id) && i
                < self.pages_view().len() && self.pages_view()[i as int].id == id,
    {
        let ghost orig = self.pages@;
        proof {
            assert(orig.skip(0) =~= orig);
        }
        let mut i: usize = 0;
        while i < self.pages.len()
            invariant
                0 <= i <= orig.len(),
                self.pages@ == orig,
                find_page(orig, id) == find_page(orig.skip(i as int), id),
                page_index(orig, id) == i + page_index(orig.skip(i as int), id),
            decreases orig.len() - i,
        {
            proof {
                assert(orig.skip(i as int).drop_first() =~= orig.skip(i + 1));
            }
            if self.pages[i].id == id {
                return Some(i);
            }
            i = i + 1;
        }
        None
    }

    /// Removes a page and every permission row granted on it; removing an
    /// absent page changes nothing.
    pub fn delete(&mut self, id: u64)
        requires
            old(self).wf(),
        ensures
            final(self).wf(),
            find_page(old(self).pages_view(), id) is None ==> final(self).pages_view() == old(self).pages_view(),
            find_page(old(self).pages_view(), id) is Some ==> final(self).pages_view() == old(self).pages_view().remove(page_index(old(self).pages_view(), id)),
            final(self).perms_view() == perms_without_page(old(self).perms_view(), id),
    {
        let ghost opages = self.pages@;
        let ghost operms = self.permissions@;
        match self.page_pos(id) {
            Some(i) => {
                self.pages.remove(i);
                proof {
                    lemma_remove_keeps_page_wf(opages, i as int);
                }
            },
            None => {},
        }
        let ghost pages_after = self.pages@;
        let mut kept: Vec<PagePermission> = Vec::new();
        let mut j: usize = 0;
        proof {
            assert(operms.take(0) =~= Seq::<PagePermission>::empty());
        }
        while j < self.permissions.len()
            invariant
                0 <= j <= operms.len(),
                self.permissions@ == operms,
                self.pages@ == pages_after,
                pages_ok(pages_after, self.next_page_id),
                perms_ok(operms, self.next_perm_id),
                kept@ == perms_without_page(operms.take(j as int), id),
            decreases operms.len() - j,
        {
            proof {
                assert(operms.take(j + 1).drop_last() =~= operms.take(j as int));
                assert(operms.take(j + 1).last() == operms[j as int]);
            }
            if self.permissions[j].page_id != id {
                kept.push(self.permissions[j].clone());
            }
            j = j + 1;
        }
        proof {
            assert(operms.take(operms.len() as int) =~= operms);
        }
        self.permissions = kept;
        proof {
            lemma_without_page_wf(operms, id);
            let w = perms_without_page(operms, id);
            assert forall|k: int| 0 <= k < w.len() implies w[k].id < self.next_perm_id by {
                let jj = choose|jj: int| #![auto] 0 <= jj < operms.len() && w[k] == operms[jj];
            }
        }
    }

    /// Sets or clears the public slug of a page.  A slug already carried by
    /// another page is refused with the uniqueness-conflict message; a
    /// missing page is a storage error.
    pub fn set_public_slug(&mut self, id: u64, slug: Option<String>, now: i64) -> (r: Result<
        Page,
        AppError,
    >)
        requires
            old(self).wf(),
        ensures
            final(self).wf(),
            final(self).perms_view() == old(self).perms_view(),
            find_page(old(self).pages_view(), id) is None ==> (r is Err && final(self).pages_view() == old(self).pages_view()),
            find_page(old(self).pages_view(), id) is Some && (slug matches Some(v) && slug_taken(
                old(self).pages_view(),
                v@,
                id,
            )) ==> (r matches Err(e) && (e matches AppError::Database(m) && m@
                == slug_conflict_message()) && final(self).pages_view() == old(self).pages_view()),
            find_page(old(self).pages_view(), id) is Some && !(slug matches Some(v) && slug_taken(
                old(self).pages_view(),
                v@,
                id,
            )) ==> (r matches Ok(p) && {
                let i = page_index(old(self).pages_view(), id);
                let orig = old(self).pages_view()[i];
                &&& 0 <= i < old(self).pages_view().len()
                &&& final(self).pages_view() == old(self).pages_view().update(i, p)
                &&& p.id == id
                &&& p.title == orig.title
                &&& p.description == orig.description
                &&& p.creator_id == orig.creator_id
                &&& p.public_slug == slug
                &&& p.created_at == orig.created_at
                &&& p.updated_at == now
            }),
    {
        let ghost orig = self.pages@;
        if let Some(v) = &slug {
            let mut i: usize = 0;
            while i < self.pages.len()
                invariant
                    0 <= i <= orig.len(),
                    self.pages@ == orig,
                    *self == *old(self),
                    old(self).wf(),
                    slug matches Some(s0) && s0 == *v,
                    forall|k: int|
                        0 <= k < i ==> !((#[trigger] orig[k].public_slug) matches Some(w) && w@
                            == v@ && orig[k].id != id),
                decreases orig.len() - i,
            {
                let other = &self.pages[i];
                let hit = match &other.public_slug {
                    Some(w) => str_eq(w.as_str(), v.as_str()),
                    None => false,
                };
                if hit && other.id != id {
                    proof {
                        assert(orig[i as int].public_slug matches Some(w) && w@ == v@
                            && orig[i as int].id != id);
                        assert(slug_taken(orig, v@, id));
                    }
                    return Err(AppError::Database(
                        "unique constraint violated: pages.public_slug".to_owned(),
                    ));
                }
                i = i + 1;
            }
        }
        proof {
            assert(orig.skip(0) =~= orig);
        }
        let mut i: usize = 0;
        while i < self.pages.len()
            invariant
                0 <= i <= orig.len(),
                self.pages@ == orig,
                *self == *old(self),
                old(self).wf(),
                slug matches Some(v) ==> !slug_taken(orig, v@, id),
                find_page(orig, id) == find_page(orig.skip(i as int), id),
                page_index(orig, id) == i + page_index(orig.skip(i as int), id),
            decreases orig.len() - i,
        {
            proof {
                assert(orig.skip(i as int).drop_first() =~= orig.skip(i + 1));
            }
            if self.pages[i].id == id {
                let old_p = &self.pages[i];
                let p = Page {
                    id: old_p.id,
                    title: old_p.title.clone(),
                    description: crate::models::clone_opt_string(&old_p.description),
                    creator_id: old_p.creator_id,
                    public_slug: slug,
                    created_at: old_p.created_at,
                    updated_at: now,
                };
                let r = p.clone();
                self.pages.set(i, p);
                proof {
                    let upd = self.pages@;
                    assert forall|a: int, b: int|
                        #![trigger upd[a].public_slug, upd[b].public_slug]
                        0 <= a < b < upd.len() implies !(upd[a].public_slug matches Some(x)
                        && upd[b].public_slug matches Some(y) && x@ == y@) by {
                        if a != i as int && b != i as int {
                            assert(upd[a] == orig[a] && upd[b] == orig[b]);
                        } else if a == i as int {
                            assert(upd[b] == orig[b]);
                        } else {
                            assert(upd[a] == orig[a]);
                        }
                    }
                }
                return Ok(r);
            }
            i = i + 1;
        }
        Err(AppError::Database("page not found".to_owned()))
    }

    /// The permission rows of a page, newest first, each joined with its
    /// user; a row whose user is missing is a storage error.
    pub fn get_permissions(&self, page_id: u64, users: &UserRepository) -> (r: Result<
        Vec<PagePermissionWithUser>,
        AppError,
    >)
        requires
            self.wf(),
            users.wf(),
        ensures
            (r is Err) <==> (exists|j: int|
                0 <= j < self.perms_view().len() && (#[trigger] self.perms_view()[j]).page_id
                    == page_id && find_user(users@, self.perms_view()[j].user_id) is None),
            r matches Ok(v) ==> {
                let rf = rev_filter(self.perms_view(), |q: PagePermission| q.page_id == page_id);
                &&& v@.len() == rf.len()
                &&& forall|k: int|
                    0 <= k < v@.len() ==> (#[trigger] v@[k]).permission == rf[k] && find_user(
                        users@,
                        rf[k].user_id,
                    ) == Some(v@[k].user)
            },
    {
        let ghost operms = self.permissions@;
        let ghost pred = |q: PagePermission| q.page_id == page_id;
        let mut r: Vec<PagePermissionWithUser> = Vec::new();
        let mut i: usize = 0;
        while i < self.permissions.len()
            invariant
                0 <= i <= operms.len(),
                self.permissions@ == operms,
                self.perms_view() == operms,
                users.wf(),
                pred == (|q: PagePermission| q.page_id == page_id),
                r@.len() == rev_filter(operms.take(i as int), pred).len(),
                forall|k: int|
                    0 <= k < r@.len() ==> (#[trigger] r@[k]).permission == rev_filter(
                        operms.take(i as int),
                        pred,
                    )[k] && find_user(users@, rev_filter(operms.take(i as int), pred)[k].user_id)
                        == Some(r@[k].user),
                forall|j: int|
                    0 <= j < i ==> !((#[trigger] operms[j]).page_id == page_id && find_user(
                        users@,
                        operms[j].user_id,
                    ) is None),
            decreases operms.len() - i,
        {
            proof {
                assert(operms.take(i + 1).drop_last() =~= operms.take(i as int));
                assert(operms.take(i + 1).last() == operms[i as int]);
            }
            if self.permissions[i].page_id == page_id {
                match users.find_by_id(self.permissions[i].user_id) {
                    Some(u) => {
                        let entry = PagePermissionWithUser {
                            permission: self.permissions[i].clone(),
                            user: u,
                        };
                        r.insert(0, entry);
                        proof {
                            assert(rev_filter(operms.take(i + 1), pred) =~= seq![
                                operms[i as int],
                            ] + rev_filter(operms.take(i as int), pred));
                        }
                    },
                    None => {
                        return Err(AppError::Database("user not found".to_owned()));
                    },
                }
            }
            i = i + 1;
        }
        proof {
            assert(operms.take(operms.len() as int) =~= operms);
        }
        Ok(r)
    }

    /// Grants a permission on a page.  A second grant for the same
    /// (page, user) pair is refused as a bad request, never stored twice.
    pub fn grant_permission(
        &mut self,
        page_id: u64,
        user_id: u64,
        can_edit: bool,
        granted_by: u64,
        now: i64,
    ) -> (r: Result<PagePermission, AppError>)
        requires
            old(self).wf(),
        ensures
            final(self).wf(),
            final(self).pages_view() == old(self).pages_view(),
            find_perm_pair(old(self).perms_view(), page_id, user_id) is Some ==> (r matches Err(e)
                && (e matches AppError::BadRequest(m) && m@ == "Permission already exists"@)
                && final(self).perms_view() == old(self).perms_view()),
            find_perm_pair(old(self).perms_view(), page_id, user_id) is None && !old(self).can_allocate_perm() ==> (r is Err && final(self).perms_view() == old(self).perms_view()),
            find_perm_pair(old(self).perms_view(), page_id, user_id) is None && old(self).can_allocate_perm() ==> (r matches Ok(q) && {
                &&& final(self).perms_view() == old(self).perms_view().push(q)
                &&& q.page_id == page_id
                &&& q.user_id == user_id
                &&& q.can_edit == can_edit
                &&& q.granted_by == granted_by
                &&& q.created_at == now
                &&& find_perm(old(self).perms_view(), q.id) is None
            }),
    {
        let ghost operms = self.permissions@;
        proof {
            assert(operms.skip(0) =~= operms);
        }
        let mut i: usize = 0;
        while i < self.permissions.len()
            invariant
                0 <= i <= operms.len(),
                self.permissions@ == operms,
                *self == *old(self),
                old(self).wf(),
                find_perm_pair(operms, page_id, user_id) == find_perm_pair(
                    operms.skip(i as int),
                    page_id,
                    user_id,
                ),
            decreases operms.len() - i,
        {
            proof {
                assert(operms.skip(i as int).drop_first() =~= operms.skip(i + 1));
            }
            if self.permissions[i].page_id == page_id && self.permissions[i].user_id == user_id {
                return Err(AppError::BadRequest("Permission already exists".to_owned()));
            }
            i = i + 1;
        }
        if self.next_perm_id == u64::MAX {
            return Err(AppError::Internal("id space exhausted".to_owned()));
        }
        let q = PagePermission {
            id: self.next_perm_id,
            page_id,
            user_id,
            can_edit,
            granted_by,
            created_at: now,
        };
        proof {
            lemma_find_perm_fresh(self.permissions@, self.next_perm_id);
            lemma_find_perm_pair_absent(self.permissions@, page_id, user_id);
        }
        let r = q.clone();
        self.permissions.push(q);
        self.next_perm_id = self.next_perm_id + 1;
        Ok(r)
    }

    /// Changes the edit flag of a permission row, addressed by id and page.
    pub fn update_permission(&mut self, page_id: u64, permission_id: u64, can_edit: bool) -> (r:
        Option<PagePermission>)
        requires
            old(self).wf(),
        ensures
            final(self).wf(),
            final(self).pages_view() == old(self).pages_view(),
            (r is Some) <==> (find_perm(old(self).perms_view(), permission_id) matches Some(q)
                && q.page_id == page_id),
            r is None ==> final(self).perms_view() == old(self).perms_view(),
            r matches Some(q) ==> {
                let i = perm_index(old(self).perms_view(), permission_id);
                let orig = old(self).perms_view()[i];
                &&& 0 <= i < old(self).perms_view().len()
                &&& final(self).perms_view() == old(self).perms_view().update(i, q)
                &&& q.id == permission_id
                &&& q.page_id == orig.page_id
                &&& q.user_id == orig.user_id
                &&& q.can_edit == can_edit
                &&& q.granted_by == orig.granted_by
                &&& q.created_at == orig.created_at
            },
    {
        let ghost operms = self.permissions@;
        proof {
            assert(operms.skip(0) =~= operms);
        }
        let mut i: usize = 0;
        while i < self.permissions.len()
            invariant
                0 <= i <= operms.len(),
                self.permissions@ == operms,
                *self == *old(self),
                old(self).wf(),
                find_perm(operms, permission_id) == find_perm(operms.skip(i as int), permission_id),
                perm_index(operms, permission_id) == i + perm_index(
                    operms.skip(i as int),
                    permission_id,
                ),
            decreases operms.len() - i,
        {
            proof {
                assert(operms.skip(i as int).drop_first() =~= operms.skip(i + 1));
            }
            if self.permissions[i].id == permission_id {
                if self.permissions[i].page_id == page_id {
                    let old_q = &self.permissions[i];
                    let q = PagePermission {
                        id: old_q.id,
                        page_id: old_q.page_id,
                        user_id: old_q.user_id,
                        can_edit,
                        granted_by: old_q.granted_by,
                        created_at: old_q.created_at,
                    };
                    let r = q.clone();
                    self.permissions.set(i, q);
                    return Some(r);
                } else {
                    return None;
                }
            }
            i = i + 1;
        }
        None
    }

    /// Removes a permission row, addressed by id and page; removing an
    /// absent row is not an error.
    pub fn revoke_permission(&mut self, page_id: u64, permission_id: u64)
        requires
            old(self).wf(),
        ensures
            final(self).wf(),
            final(self).pages_view() == old(self).pages_view(),
            find_perm(old(self).perms_view(), permission_id) matches Some(q) && q.page_id
                == page_id ==> final(self).perms_view() == old(self).perms_view().remove(
                perm_index(old(self).perms_view(), permission_id),
            ),
            !(find_perm(old(self).perms_view(), permission_id) matches Some(q) && q.page_id
                == page_id) ==> final(self).perms_view() == old(self).perms_view(),
    {
        let ghost operms = self.permissions@;
        proof {
            assert(operms.skip(0) =~= operms);
        }
        let mut i: usize = 0;
        while i < self.permissions.len()
            invariant
                0 <= i <= operms.len(),
                self.permissions@ == operms,
                *self == *old(self),
                old(self).wf(),
                find_perm(operms, permission_id) == find_perm(operms.skip(i as int), permission_id),
                perm_index(operms, permission_id) == i + perm_index(
                    operms.skip(i as int),
                    permission_id,
                ),
            decreases operms.len() - i,
        {
            proof {
                assert(operms.skip(i as int).drop_first() =~= operms.skip(i + 1));
            }
            if self.permissions[i].id == permission_id {
                if self.permissions[i].page_id == page_id {
                    self.permissions.remove(i);
                    proof {
                        lemma_remove_keeps_perm_wf(operms, i as int);
                    }
                }
                return ;
            }
            i = i + 1;
        }
    }

    /// A permission row addressed by id and page, if present.
    pub fn find_permission(&self, page_id: u64, permission_id: u64) -> (r: Option<PagePermission>)
        requires
            self.wf(),
        ensures
            r == (if find_perm(self.perms_view(), permission_id) matches Some(q) && q.page_id
                == page_id {
                find_perm(self.perms_view(), permission_id)
            } else {
                None
            }),
    {
        let ghost operms = self.permissions@;
        proof {
            assert(operms.skip(0) =~= operms);
        }
        let mut i: usize = 0;
        while i < self.permissions.len()
            invariant
                0 <= i <= operms.len(),
                self.permissions@ == operms,
                self.perms_view() == operms,
                find_perm(operms, permission_id) == find_perm(operms.skip(i as int), permission_id),
            decreases operms.len() - i,
        {
            proof {
                assert(operms.skip(i as int).drop_first() =~= operms.skip(i + 1));
            }
            if self.permissions[i].id == permission_id {
                if self.permissions[i].page_id == page_id {
                    return Some(self.permissions[i].clone());
                } else {
                    return None;
                }
            }
            i = i + 1;
        }
        None
    }

    /// The permission row of a (page, user) pair, if any.
    pub fn get_user_permission(&self, page_id: u64, user_id: u64) -> (r: Option<PagePermission>)
        requires
            self.wf(),
        ensures
            r == find_perm_pair(self.perms_view(), page_id, user_id),
    {
        let ghost operms = self.permissions@;
        proof {
            assert(operms.skip(0) =~= operms);
        }
        let mut i: usize = 0;
        while i < self.permissions.len()
            invariant
                0 <= i <= operms.len(),
                self.permissions@ == operms,
                self.perms_view() == operms,
                find_perm_pair(operms, page_id, user_id) == find_perm_pair(
                    operms.skip(i as int),
                    page_id,
                    user_id,
                ),
            decreases operms.len() - i,
        {
            proof {
                assert(operms.skip(i as int).drop_first() =~= operms.skip(i + 1));
            }
            if self.permissions[i].page_id == page_id && self.permissions[i].user_id == user_id {
                return Some(self.permissions[i].clone());
            }
            i = i + 1;
        }
        None
    }

    /// Read access: creator, or any permission row on the page.
    pub fn check_access(&self, page_id: u64, user_id: u64) -> (r: bool)
        requires
            self.wf(),
        ensures
            r == has_access(self.pages_view(), self.perms_view(), page_id, user_id),
    {
        match self.find_by_id(page_id) {
            Some(page) => {
                if page.creator_id == user_id {
                    true
                } else {
                    self.get_user_permission(page_id, user_id).is_some()
                }
            },
            None => false,
        }
    }

    /// Write access: creator, or a permission row with the edit flag.
    pub fn check_edit_permission(&self, page_id: u64, user_id: u64) -> (r: bool)
        requires
            self.wf(),
        ensures
            r == has_edit(self.pages_view(), self.perms_view(), page_id, user_id),
    {
        match self.find_by_id(page_id) {
            Some(page) => {
                if page.creator_id == user_id {
                    true
                } else {
                    match self.get_user_permission(page_id, user_id) {
                        Some(q) => q.can_edit,
                        None => false,
                    }
                }
            },
            None => false,
        }
    }

    /// Every page the user can see: own pages newest first, then pages
    /// shared through a permission row.  A creator never holds a permission
    /// row for an own page, so no entry repeats.
    pub fn list_for_user(&self, user_id: u64) -> (r: Vec<PageWithPermission>)
        requires
            self.wf(),
        ensures
            r@ == rev_filter(self.pages_view(), |p: Page| p.creator_id == user_id).map_values(
                |p: Page| PageWithPermission { page: p, is_creator: true, can_edit: true },
            ) + shared_entries(self.pages_view(), self.perms_view(), user_id),
    {
        let ghost opages = self.pages@;
        let ghost operms = self.permissions@;
        let ghost pred = |p: Page| p.creator_id == user_id;
        let ghost f = |p: Page| PageWithPermission { page: p, is_creator: true, can_edit: true };
        let mut r: Vec<PageWithPermission> = Vec::new();
        let mut i: usize = 0;
        while i < self.pages.len()
            invariant
                0 <= i <= opages.len(),
                self.pages@ == opages,
                r@ == rev_filter(opages.take(i as int), pred).map_values(f),
                pred == (|p: Page| p.creator_id == user_id),
                f == (|p: Page|
                    PageWithPermission { page: p, is_creator: true, can_edit: true }),
            decreases opages.len() - i,
        {
            proof {
                assert(opages.take(i + 1).drop_last() =~= opages.take(i as int));
                assert(opages.take(i + 1).last() == opages[i as int]);
            }
            if self.pages[i].creator_id == user_id {
                let entry = PageWithPermission {
                    page: self.pages[i].clone(),
                    is_creator: true,
                    can_edit: true,
                };
                r.insert(0, entry);
                proof {
                    assert(r@ =~= rev_filter(opages.take(i + 1), pred).map_values(f));
                }
            } else {
                proof {
                    assert(r@ =~= rev_filter(opages.take(i + 1), pred).map_values(f));
                }
            }
            i = i + 1;
        }
        proof {
            assert(opages.take(opages.len() as int) =~= opages);
        }
        let ghost created = rev_filter(opages, pred).map_values(f);
        let mut j: usize = 0;
        proof {
            assert(operms.skip(0) =~= operms);
        }
        while j < self.permissions.len()
            invariant
                0 <= j <= operms.len(),
                self.pages@ == opages,
                self.permissions@ == operms,
                self.wf(),
                created + shared_entries(opages, operms, user_id) =~= r@ + shared_entries(
                    opages,
                    operms.skip(j as int),
                    user_id,
                ),
            decreases operms.len() - j,
        {
            proof {
                assert(operms.skip(j as int).drop_first() =~= operms.skip(j + 1));
            }
            if self.permissions[j].user_id == user_id {
                match self.find_by_id(self.permissions[j].page_id) {
                    Some(page) => {
                        let entry = PageWithPermission {
                            page,
                            is_creator: false,
                            can_edit: self.permissions[j].can_edit,
                        };
                        r.push(entry);
                    },
                    None => {},
                }
            }
            j = j + 1;
        }
        proof {
            assert(r@ =~= created + shared_entries(opages, operms, user_id));
        }
        r
    }
}

/// An id at or above every stored page id is not found.
proof fn lemma_find_page_fresh(s: Seq<Page>, id: u64)
    requires
        forall|i: int| 0 <= i < s.len() ==> s[i].id < id,
    ensures
        find_page(s, id) is None,
    decreases s.len(),
{
    if s.len() > 0 {
        assert(forall|i: int| 0 <= i < s.drop_first().len() ==> s.drop_first()[i] == s[i + 1]);
        lemma_find_page_fresh(s.drop_first(), id);
    }
}

/// An id at or above every stored permission id is not found.
proof fn lemma_find_perm_fresh(s: Seq<PagePermission>, id: u64)
    requires
        forall|i: int| 0 <= i < s.len() ==> s[i].id < id,
    ensures
        find_perm(s, id) is None,
    decreases s.len(),
{
    if s.len() > 0 {
        assert(forall|i: int| 0 <= i < s.drop_first().len() ==> s.drop_first()[i] == s[i + 1]);
        lemma_find_perm_fresh(s.drop_first(), id);
    }
}

/// Relates a page find to the indexed element.
pub proof fn lemma_find_page_index(s: Seq<Page>, id: u64)
    ensures
        find_page(s, id) is Some ==> {
            let i = page_index(s, id);
            &&& 0 <= i < s.len()
            &&& s[i] == find_page(s, id)->0
            &&& s[i].id == id
            &&& forall|k: int| 0 <= k < i ==> s[k].id != id
        },
        find_page(s, id) is None ==> page_index(s, id) == s.len() && forall|k: int|
            0 <= k < s.len() ==> s[k].id != id,
    decreases s.len(),
{
    if s.len() == 0 {
    } else if s[0].id == id {
    } else {
        let t = s.drop_first();
        lemma_find_page_index(t, id);
        assert(forall|k: int| 0 <= k < t.len() ==> t[k] == s[k + 1]);
        assert forall|k: int| 1 <= k < s.len() implies s[k] == t[k - 1] by {
            assert(t[k - 1] == s[k]);
        }
        if find_page(t, id) is Some {
            let i = page_index(s, id);
            assert(s[i] == t[i - 1]);
        }
    }
}

/// Relates a permission find to the indexed element.
pub proof fn lemma_find_perm_index(s: Seq<PagePermission>, id: u64)
    ensures
        find_perm(s, id) is Some ==> {
            let i = perm_index(s, id);
            &&& 0 <= i < s.len()
            &&& s[i] == find_perm(s, id)->0
            &&& s[i].id == id
            &&& forall|k: int| 0 <= k < i ==> s[k].id != id
        },
        find_perm(s, id) is None ==> perm_index(s, id) == s.len() && forall|k: int|
            0 <= k < s.len() ==> s[k].id != id,
    decreases s.len(),
{
    if s.len() == 0 {
    } else if s[0].id == id {
    } else {
        let t = s.drop_first();
        lemma_find_perm_index(t, id);
        assert(forall|k: int| 0 <= k < t.len() ==> t[k] == s[k + 1]);
        assert forall|k: int| 1 <= k < s.len() implies s[k] == t[k - 1] by {
            assert(t[k - 1] == s[k]);
        }
        if find_perm(t, id) is Some {
            let i = perm_index(s, id);
            assert(s[i] == t[i - 1]);
        }
    }
}

/// Removing one row keeps ids and (page, user) pairs unique.
proof fn lemma_remove_keeps_perm_wf(s: Seq<PagePermission>, i: int)
    requires
        0 <= i < s.len(),
        forall|a: int, b: int| 0 <= a < b < s.len() ==> s[a].id != s[b].id,
        forall|a: int, b: int|
            0 <= a < b < s.len() ==> !(s[a].page_id == s[b].page_id && s[a].user_id
                == s[b].user_id),
    ensures
        forall|a: int, b: int|
            0 <= a < b < s.remove(i).len() ==> s.remove(i)[a].id != s.remove(i)[b].id,
        forall|a: int, b: int|
            0 <= a < b < s.remove(i).len() ==> !(s.remove(i)[a].page_id == s.remove(i)[b].page_id
                && s.remove(i)[a].user_id == s.remove(i)[b].user_id),
{
    let t = s.remove(i);
    assert forall|a: int, b: int| 0 <= a < b < t.len() implies t[a].id != t[b].id && !(t[a].page_id
        == t[b].page_id && t[a].user_id == t[b].user_id) by {
        let oa = if a < i {
            a
        } else {
            a + 1
        };
        let ob = if b < i {
            b
        } else {
            b + 1
        };
        assert(t[a] == s[oa]);
        assert(t[b] == s[ob]);
    }
}

/// When no row carries the (page, user) pair, none of the rows does.
proof fn lemma_find_perm_pair_absent(s: Seq<PagePermission>, page_id: u64, user_id: u64)
    requires
        find_perm_pair(s, page_id, user_id) is None,
    ensures
        forall|i: int|
            0 <= i < s.len() ==> !((#[trigger] s[i]).page_id == page_id && s[i].user_id
                == user_id),
    decreases s.len(),
{
    if s.len() > 0 {
        lemma_find_perm_pair_absent(s.drop_first(), page_id, user_id);
        assert(forall|i: int| 1 <= i < s.len() ==> s[i] == s.drop_first()[i - 1]);
    }
}

/// Like [`lemma_find_perm_pair_absent`], in the other direction.
proof fn lemma_pair_absent_find(s: Seq<PagePermission>, page_id: u64, user_id: u64)
    requires
        forall|i: int|
            0 <= i < s.len() ==> !((#[trigger] s[i]).page_id == page_id && s[i].user_id
                == user_id),
    ensures
        find_perm_pair(s, page_id, user_id) is None,
    decreases s.len(),
{
    if s.len() > 0 {
        assert(forall|i: int| 0 <= i < s.drop_first().len() ==> s.drop_first()[i] == s[i + 1]);
        lemma_pair_absent_find(s.drop_first(), page_id, user_id);
    }
}

/// Relates a pair find to an index: the row found for a pair sits at the
/// index its id addresses, since ids are unique.
proof fn lemma_find_perm_pair_somewhere(s: Seq<PagePermission>, page_id: u64, user_id: u64)
    requires
        find_perm_pair(s, page_id, user_id) is Some,
    ensures
        exists|i: int|
            0 <= i < s.len() && #[trigger] s[i] == find_perm_pair(s, page_id, user_id)->0,
        find_perm_pair(s, page_id, user_id)->0.page_id == page_id,
        find_perm_pair(s, page_id, user_id)->0.user_id == user_id,
    decreases s.len(),
{
    if s.len() > 0 {
        if s[0].page_id == page_id && s[0].user_id == user_id {
            assert(s[0] == find_perm_pair(s, page_id, user_id)->0);
        } else {
            lemma_find_perm_pair_somewhere(s.drop_first(), page_id, user_id);
            let i = choose|i: int|
                0 <= i < s.drop_first().len() && #[trigger] s.drop_first()[i] == find_perm_pair(
                    s.drop_first(),
                    page_id,
                    user_id,
                )->0;
            assert(s[i + 1] == find_perm_pair(s, page_id, user_id)->0);
        }
    }
}

/// Revoking a user's permission row removes their access at once: after
/// the row found for the (page, user) pair is removed, no permission row
/// matches the pair any more, so a user who is not the creator loses read
/// access.
pub proof fn lemma_revoke_removes_access(repo: &PageRepository, page_id: u64, user_id: u64)
    requires
        repo.wf(),
        find_perm_pair(repo.perms_view(), page_id, user_id) is Some,
    ensures
        ({
            let q = find_perm_pair(repo.perms_view(), page_id, user_id)->0;
            let after = repo.perms_view().remove(perm_index(repo.perms_view(), q.id));
            &&& find_perm_pair(after, page_id, user_id) is None
            &&& (find_page(repo.pages_view(), page_id) matches Some(p) && p.creator_id != user_id
                ==> !has_access(repo.pages_view(), after, page_id, user_id))
        }),
{
    let s = repo.perms_view();
    let q = find_perm_pair(s, page_id, user_id)->0;
    lemma_find_perm_pair_somewhere(s, page_id, user_id);
    let w = choose|i: int| 0 <= i < s.len() && #[trigger] s[i] == q;
    lemma_find_perm_index(s, q.id);
    if find_perm(s, q.id) is None {
        assert(s[w].id != q.id);
        assert(false);
    }
    let i = perm_index(s, q.id);
    assert(s[i].id == q.id);
    assert(s[i] == q) by {
        if i != w {
            assert(s[i].id != s[w].id);
        }
    }
    let after = s.remove(i);
    assert forall|k: int| 0 <= k < after.len() implies !((#[trigger] after[k]).page_id == page_id
        && after[k].user_id == user_id) by {
        let ok = if k < i {
            k
        } else {
            k + 1
        };
        assert(after[k] == s[ok]);
        if ok < i {
            assert(!(s[ok].page_id == s[i].page_id && s[ok].user_id == s[i].user_id));
        } else {
            assert(!(s[i].page_id == s[ok].page_id && s[i].user_id == s[ok].user_id));
        }
    }
    lemma_pair_absent_find(after, page_id, user_id);
}

/// Removing one page keeps page ids and slugs unique.
proof fn lemma_remove_keeps_page_wf(s: Seq<Page>, i: int)
    requires
        0 <= i < s.len(),
        forall|a: int, b: int| 0 <= a < b < s.len() ==> s[a].id != s[b].id,
        forall|a: int, b: int|
            #![trigger s[a].public_slug, s[b].public_slug]
            0 <= a < b < s.len() ==> !(s[a].public_slug matches Some(x) && s[b].public_slug
                matches Some(y) && x@ == y@),
    ensures
        forall|a: int, b: int|
            0 <= a < b < s.remove(i).len() ==> s.remove(i)[a].id != s.remove(i)[b].id,
        forall|a: int, b: int|
            #![trigger s.remove(i)[a].public_slug, s.remove(i)[b].public_slug]
            0 <= a < b < s.remove(i).len() ==> !(s.remove(i)[a].public_slug matches Some(x)
                && s.remove(i)[b].public_slug matches Some(y) && x@ == y@),
{
    let t = s.remove(i);
    assert forall|a: int, b: int| 0 <= a < b < t.len() implies t[a].id != t[b].id && !(
    t[a].public_slug matches Some(x) && t[b].public_slug matches Some(y) && x@ == y@) by {
        let oa = if a < i {
            a
        } else {
            a + 1
        };
        let ob = if b < i {
            b
        } else {
            b + 1
        };
        assert(t[a] == s[oa]);
        assert(t[b] == s[ob]);
    }
}

/// What a page delete keeps: ids and (page, user) pairs stay unique, every
/// kept row comes from the original store, and no kept row belongs to the
/// deleted page.
proof fn lemma_without_page_wf(s: Seq<PagePermission>, page_id: u64)
    requires
        forall|a: int, b: int| 0 <= a < b < s.len() ==> s[a].id != s[b].id,
        forall|a: int, b: int|
            0 <= a < b < s.len() ==> !(s[a].page_id == s[b].page_id && s[a].user_id
                == s[b].user_id),
    ensures
        forall|k: int|
            #![trigger perms_without_page(s, page_id)[k]]
            0 <= k < perms_without_page(s, page_id).len() ==> exists|j: int|
                #![auto]
                0 <= j < s.len() && perms_without_page(s, page_id)[k] == s[j],
        forall|a: int, b: int|
            0 <= a < b < perms_without_page(s, page_id).len() ==> perms_without_page(
                s,
                page_id,
            )[a].id != perms_without_page(s, page_id)[b].id,
        forall|a: int, b: int|
            0 <= a < b < perms_without_page(s, page_id).len() ==> !(perms_without_page(
                s,
                page_id,
            )[a].page_id == perms_without_page(s, page_id)[b].page_id && perms_without_page(
                s,
                page_id,
            )[a].user_id == perms_without_page(s, page_id)[b].user_id),
        forall|k: int|
            0 <= k < perms_without_page(s, page_id).len() ==> (#[trigger] perms_without_page(
                s,
                page_id,
            )[k]).page_id != page_id,
    decreases s.len(),
{
    if s.len() > 0 {
        let t = s.drop_last();
        assert(forall|k: int| 0 <= k < t.len() ==> t[k] == s[k]);
        lemma_without_page_wf(t, page_id);
        let wt = perms_without_page(t, page_id);
        let w = perms_without_page(s, page_id);
        assert forall|k: int| #![trigger wt[k]] 0 <= k < wt.len() implies exists|j: int|
            #![auto]
            0 <= j < s.len() && wt[k] == s[j] by {
            let j = choose|j: int| #![auto] 0 <= j < t.len() && wt[k] == t[j];
            assert(wt[k] == s[j]);
        }
        if s.last().page_id == page_id {
            assert(w == wt);
        } else {
            assert(w == wt.push(s.last()));
            assert forall|k: int| 0 <= k < wt.len() implies wt[k].id != s.last().id && !(
            wt[k].page_id == s.last().page_id && wt[k].user_id == s.last().user_id) by {
                let j = choose|j: int| #![auto] 0 <= j < s.len() && wt[k] == s[j];
                assert(s[j].id != s[s.len() - 1].id);
                assert(!(s[j].page_id == s[s.len() - 1].page_id && s[j].user_id == s[s.len()
                    - 1].user_id));
            }
            assert forall|k: int| #![trigger w[k]] 0 <= k < w.len() implies exists|j: int|
                #![auto]
                0 <= j < s.len() && w[k] == s[j] by {
                if k < wt.len() {
                    let j = choose|j: int| #![auto] 0 <= j < s.len() && wt[k] == s[j];
                    assert(w[k] == s[j]);
                } else {
                    assert(w[k] == s[s.len() - 1]);
                }
            }
        }
    }
}

} // verus!
