//! Page endpoints: listing, CRUD, the public slug, and sharing.  Only the
//! creator manages sharing, the slug, and deletion; editors may write
//! content; viewers may only read.

use vstd::prelude::*;

use crate::error::{AppError, FieldError};
use crate::models::{
    CreatePage, GrantPermission, Page, PagePermission, PagePermissionWithUser, PageWithPermission,
    SetPublicSlug, UpdatePage, UpdatePermission,
};
use crate::page_repo::{
    find_page, find_perm, find_perm_pair, has_access, has_edit, page_index, perm_index,
    slug_conflict_message, slug_taken, PageRepository,
};
use crate::sequtil::rev_filter;
use crate::user_repo::{find_user, UserRepository};
use crate::validators::{
    description_ok, is_single_validation, slug_ok, title_ok, trim_spec, validate_description,
    validate_public_slug, validate_title,
};

verus! {

/// The creator of an existing page passes both the access and the edit
/// check, whatever permission rows exist.
pub proof fn lemma_creator_always_allowed(
    pages: Seq<Page>,
    perms: Seq<PagePermission>,
    page_id: u64,
    user_id: u64,
)
    requires
        find_page(pages, page_id) matches Some(p) && p.creator_id == user_id,
    ensures
        has_access(pages, perms, page_id, user_id),
        has_edit(pages, perms, page_id, user_id),
{
}

/// A user who is neither the creator nor named by any permission row has
/// neither read nor write access.
pub proof fn lemma_stranger_denied(
    pages: Seq<Page>,
    perms: Seq<PagePermission>,
    page_id: u64,
    user_id: u64,
)
    requires
        find_page(pages, page_id) matches Some(p) ==> p.creator_id != user_id,
        find_perm_pair(perms, page_id, user_id) is None,
    ensures
        !has_access(pages, perms, page_id, user_id),
        !has_edit(pages, perms, page_id, user_id),
{
}

/// Aggregated validation outcome for a page payload: an entry for the
/// title when it is bad, then one for the description.
pub open spec fn page_validation_errors(v: Seq<FieldError>, title_bad: bool, desc_bad: bool) -> bool {
    &&& v.len() == (if title_bad {
        1int
    } else {
        0int
    }) + (if desc_bad {
        1int
    } else {
        0int
    })
    &&& (title_bad ==> v[0].field@ == "title"@ && v[0].message@
        == "Title must be between 1 and 200 characters"@)
    &&& (desc_bad ==> v[v.len() - 1].field@ == "description"@ && v[v.len() - 1].message@
        == "Description must be at most 2000 characters"@)
}

/// Every page the caller can see.
pub fn list_pages(pages: &PageRepository, user_id: u64) -> (r: Vec<PageWithPermission>)
    requires
        pages.wf(),
    ensures
        r@ == rev_filter(pages.pages_view(), |p: Page| p.creator_id == user_id).map_values(
            |p: Page| PageWithPermission { page: p, is_creator: true, can_edit: true },
        ) + crate::page_repo::shared_entries(pages.pages_view(), pages.perms_view(), user_id),
{
    pages.list_for_user(user_id)
}

/// Creates a page after validating title and description; field errors are
/// aggregated, title first.
pub fn create_page(pages: &mut PageRepository, user_id: u64, payload: CreatePage, now: i64) -> (r:
    Result<Page, AppError>)
    requires
        old(pages).wf(),
    ensures
        final(pages).wf(),
        final(pages).perms_view() == old(pages).perms_view(),
        r is Err ==> final(pages).pages_view() == old(pages).pages_view(),
        !(title_ok(payload.title@) && (payload.description matches Some(d) ==> description_ok(d@)))
            ==> (r matches Err(e) && e matches AppError::Validation(v) && page_validation_errors(
            v@,
            !title_ok(payload.title@),
            !(payload.description matches Some(d) ==> description_ok(d@)),
        )),
        title_ok(payload.title@) && (payload.description matches Some(d) ==> description_ok(d@))
            && old(pages).can_allocate_page() ==> (r matches Ok(p) && {
            &&& final(pages).pages_view() == old(pages).pages_view().push(p)
            &&& p.title@ == trim_spec(payload.title@)
            &&& (payload.description matches Some(d) ==> (p.description matches Some(v) && v@
                == trim_spec(d@)))
            &&& (payload.description is None ==> p.description is None)
            &&& p.creator_id == user_id
            &&& p.public_slug is None
            &&& p.created_at == now
            &&& find_page(old(pages).pages_view(), p.id) is None
        }),
{
    let mut errors: Vec<FieldError> = Vec::new();
    let title_res = validate_title(payload.title.as_str());
    let title = match title_res {
        Ok(t) => Some(t),
        Err(e) => {
            match e {
                AppError::Validation(mut es) => {
                    let mut es2 = es;
                    errors.append(&mut es2);
                },
                _ => {},
            }
            None
        },
    };
    let desc_res = validate_description(&payload.description);
    let description = match desc_res {
        Ok(d) => Some(d),
        Err(e) => {
            match e {
                AppError::Validation(mut es) => {
                    let mut es2 = es;
                    errors.append(&mut es2);
                },
                _ => {},
            }
            None
        },
    };
    if errors.len() > 0 {
        return Err(AppError::Validation(errors));
    }
    let title = match title {
        Some(t) => t,
        None => {
            return Err(AppError::Internal("validation state lost".to_owned()));
        },
    };
    let description = match description {
        Some(d) => d,
        None => {
            return Err(AppError::Internal("validation state lost".to_owned()));
        },
    };
    pages.create(user_id, CreatePage { title, description }, now)
}

/// Reads a page together with the caller's role; strangers are refused.
pub fn get_page(pages: &PageRepository, user_id: u64, page_id: u64) -> (r: Result<
    PageWithPermission,
    AppError,
>)
    requires
        pages.wf(),
    ensures
        find_page(pages.pages_view(), page_id) is None ==> (r matches Err(e) && e is NotFound),
        find_page(pages.pages_view(), page_id) is Some && !has_access(
            pages.pages_view(),
            pages.perms_view(),
            page_id,
            user_id,
        ) ==> (r matches Err(e) && e is Forbidden),
        has_access(pages.pages_view(), pages.perms_view(), page_id, user_id) ==> (r matches Ok(pw)
            && {
            &&& Some(pw.page) == find_page(pages.pages_view(), page_id)
            &&& pw.is_creator == (find_page(pages.pages_view(), page_id)->0.creator_id == user_id)
            &&& pw.can_edit == has_edit(pages.pages_view(), pages.perms_view(), page_id, user_id)
        }),
{
    let page = match pages.find_by_id(page_id) {
        Some(p) => p,
        None => {
            return Err(AppError::NotFound);
        },
    };
    let is_creator = page.creator_id == user_id;
    let permission = pages.get_user_permission(page_id, user_id);
    let can_edit = is_creator || (match &permission {
        Some(q) => q.can_edit,
        None => false,
    });
    if !is_creator && permission.is_none() {
        return Err(AppError::Forbidden);
    }
    Ok(PageWithPermission { page, is_creator, can_edit })
}

/// Patches a page; only users with edit access may, and field errors are
/// aggregated, title first.
pub fn update_page(
    pages: &mut PageRepository,
    user_id: u64,
    page_id: u64,
    payload: UpdatePage,
    now: i64,
) -> (r: Result<Page, AppError>)
    requires
        old(pages).wf(),
    ensures
        final(pages).wf(),
        final(pages).perms_view() == old(pages).perms_view(),
        r is Err ==> final(pages).pages_view() == old(pages).pages_view(),
        !has_edit(old(pages).pages_view(), old(pages).perms_view(), page_id, user_id) ==> (r
            matches Err(e) && e is Forbidden),
        has_edit(old(pages).pages_view(), old(pages).perms_view(), page_id, user_id) && !((
        payload.title matches Some(t) ==> title_ok(t@)) && (payload.description matches Some(d)
            ==> description_ok(d@))) ==> (r matches Err(e) && e matches AppError::Validation(v)
            && page_validation_errors(
            v@,
            !(payload.title matches Some(t) ==> title_ok(t@)),
            !(payload.description matches Some(d) ==> description_ok(d@)),
        )),
        has_edit(old(pages).pages_view(), old(pages).perms_view(), page_id, user_id) && (
        payload.title matches Some(t) ==> title_ok(t@)) && (payload.description matches Some(d)
            ==> description_ok(d@)) ==> (r matches Ok(p) && {
            let i = page_index(old(pages).pages_view(), page_id);
            let orig = old(pages).pages_view()[i];
            &&& p.id == page_id
            &&& (payload.title matches Some(t) ==> p.title@ == trim_spec(t@))
            &&& (payload.title is None ==> p.title == orig.title)
            &&& (payload.description matches Some(d) ==> (p.description matches Some(v) && v@
                == trim_spec(d@)))
            &&& (payload.description is None ==> p.description == orig.description)
            &&& p.creator_id == orig.creator_id
            &&& p.public_slug == orig.public_slug
            &&& (!(payload.title is None && payload.description is None) ==> final(pages).pages_view() == old(pages).pages_view().update(i, p))
            &&& (payload.title is None && payload.description is None ==> final(pages).pages_view() == old(pages).pages_view())
        }),
{
    if !pages.check_edit_permission(page_id, user_id) {
        return Err(AppError::Forbidden);
    }
    let mut errors: Vec<FieldError> = Vec::new();
    let title: Option<String> = match &payload.title {
        Some(t) => {
            match validate_title(t.as_str()) {
                Ok(v) => Some(v),
                Err(e) => {
                    match e {
                        AppError::Validation(es) => {
                            let mut es2 = es;
                            errors.append(&mut es2);
                        },
                        _ => {},
                    }
                    None
                },
            }
        },
        None => None,
    };
    let description: Option<String> = match &payload.description {
        Some(d) => {
            match validate_description(&Some(d.clone())) {
                Ok(v) => v,
                Err(e) => {
                    match e {
                        AppError::Validation(es) => {
                            let mut es2 = es;
                            errors.append(&mut es2);
                        },
                        _ => {},
                    }
                    None
                },
            }
        },
        None => None,
    };
    if errors.len() > 0 {
        return Err(AppError::Validation(errors));
    }
    proof {
        crate::page_repo::lemma_find_page_index(pages.pages_view(), page_id);
    }
    match pages.update(page_id, UpdatePage { title, description }, now) {
        Some(p) => Ok(p),
        None => Err(AppError::NotFound),
    }
}

/// Deletes a page with everything granted on it; only the creator may.
pub fn delete_page(pages: &mut PageRepository, user_id: u64, page_id: u64) -> (r: Result<
    (),
    AppError,
>)
    requires
        old(pages).wf(),
    ensures
        final(pages).wf(),
        find_page(old(pages).pages_view(), page_id) is None ==> (r matches Err(e) && e is NotFound
            && final(pages).pages_view() == old(pages).pages_view() && final(pages).perms_view()
            == old(pages).perms_view()),
        find_page(old(pages).pages_view(), page_id) matches Some(p) && p.creator_id != user_id
            ==> (r matches Err(e) && e is Forbidden && final(pages).pages_view() == old(pages).pages_view() && final(pages).perms_view() == old(pages).perms_view()),
        find_page(old(pages).pages_view(), page_id) matches Some(p) && p.creator_id == user_id
            ==> (r is Ok && final(pages).pages_view() == old(pages).pages_view().remove(
            page_index(old(pages).pages_view(), page_id),
        ) && final(pages).perms_view() == crate::page_repo::perms_without_page(
            old(pages).perms_view(),
            page_id,
        )),
{
    let page = match pages.find_by_id(page_id) {
        Some(p) => p,
        None => {
            return Err(AppError::NotFound);
        },
    };
    if page.creator_id != user_id {
        return Err(AppError::Forbidden);
    }
    pages.delete(page_id);
    Ok(())
}

/// Sets or clears the public slug; only the creator may, the slug must be
/// well formed, and a slug already in use is refused as a bad request.
pub fn set_public_slug(
    pages: &mut PageRepository,
    user_id: u64,
    page_id: u64,
    payload: SetPublicSlug,
    now: i64,
) -> (r: Result<Page, AppError>)
    requires
        old(pages).wf(),
    ensures
        final(pages).wf(),
        final(pages).perms_view() == old(pages).perms_view(),
        r is Err ==> final(pages).pages_view() == old(pages).pages_view(),
        find_page(old(pages).pages_view(), page_id) is None ==> (r matches Err(e) && e
            is NotFound),
        find_page(old(pages).pages_view(), page_id) matches Some(p) && p.creator_id != user_id
            ==> (r matches Err(e) && e is Forbidden),
        find_page(old(pages).pages_view(), page_id) matches Some(p) && p.creator_id == user_id
            ==> {
            &&& (payload.public_slug matches Some(s) ==> {
                &&& (!slug_ok(s@) ==> (r matches Err(e) && is_single_validation(
                    e,
                    "public_slug"@,
                    "Slug must be 3-50 characters, lowercase letters, numbers, and hyphens only"@,
                )))
                &&& (slug_ok(s@) && slug_taken(old(pages).pages_view(), trim_spec(s@), page_id)
                    ==> (r matches Err(e) && e matches AppError::BadRequest(m) && m@
                    == "This slug is already in use"@))
                &&& (slug_ok(s@) && !slug_taken(old(pages).pages_view(), trim_spec(s@), page_id)
                    ==> (r matches Ok(q) && q.id == page_id && (q.public_slug matches Some(v)
                    && v@ == trim_spec(s@)) && final(pages).pages_view() == old(pages).pages_view().update(page_index(old(pages).pages_view(), page_id), q)))
            })
            &&& (payload.public_slug is None ==> (r matches Ok(q) && q.id == page_id
                && q.public_slug is None && final(pages).pages_view() == old(pages).pages_view().update(page_index(old(pages).pages_view(), page_id), q)))
        },
{
    let page = match pages.find_by_id(page_id) {
        Some(p) => p,
        None => {
            return Err(AppError::NotFound);
        },
    };
    if page.creator_id != user_id {
        return Err(AppError::Forbidden);
    }
    let slug: Option<String> = match &payload.public_slug {
        Some(s) => {
            match validate_public_slug(s.as_str()) {
                Ok(v) => Some(v),
                Err(e) => {
                    return Err(e);
                },
            }
        },
        None => None,
    };
    match pages.set_public_slug(page_id, slug, now) {
        Ok(p) => Ok(p),
        Err(e) => {
            let is_conflict = match &e {
                AppError::Database(m) => crate::strutil::str_eq(
                    m.as_str(),
                    "unique constraint violated: pages.public_slug",
                ),
                _ => false,
            };
            if is_conflict {
                Err(AppError::BadRequest("This slug is already in use".to_owned()))
            } else {
                Err(e)
            }
        },
    }
}

/// Lists the permission rows of a page; only the creator may.
pub fn list_permissions(
    pages: &PageRepository,
    users: &UserRepository,
    user_id: u64,
    page_id: u64,
) -> (r: Result<Vec<PagePermissionWithUser>, AppError>)
    requires
        pages.wf(),
        users.wf(),
    ensures
        find_page(pages.pages_view(), page_id) is None ==> (r matches Err(e) && e is NotFound),
        find_page(pages.pages_view(), page_id) matches Some(p) && p.creator_id != user_id ==> (r
            matches Err(e) && e is Forbidden),
        find_page(pages.pages_view(), page_id) matches Some(p) && p.creator_id == user_id ==> {
            &&& ((r is Err) <==> (exists|j: int|
                0 <= j < pages.perms_view().len() && (#[trigger] pages.perms_view()[j]).page_id
                    == page_id && find_user(users@, pages.perms_view()[j].user_id) is None))
            &&& (r matches Ok(v) ==> {
                let rf = rev_filter(pages.perms_view(), |q: PagePermission| q.page_id == page_id);
                &&& v@.len() == rf.len()
                &&& forall|k: int|
                    0 <= k < v@.len() ==> (#[trigger] v@[k]).permission == rf[k] && find_user(
                        users@,
                        rf[k].user_id,
                    ) == Some(v@[k].user)
            })
        },
{
    let page = match pages.find_by_id(page_id) {
        Some(p) => p,
        None => {
            return Err(AppError::NotFound);
        },
    };
    if page.creator_id != user_id {
        return Err(AppError::Forbidden);
    }
    pages.get_permissions(page_id, users)
}

/// Grants a permission; only the creator may, a second grant for the same
/// pair is a bad request, and the creator never grants to themselves
/// through this check flow.
pub fn grant_permission(
    pages: &mut PageRepository,
    users: &UserRepository,
    user_id: u64,
    page_id: u64,
    payload: GrantPermission,
    now: i64,
) -> (r: Result<PagePermissionWithUser, AppError>)
    requires
        old(pages).wf(),
        users.wf(),
    ensures
        final(pages).wf(),
        final(pages).pages_view() == old(pages).pages_view(),
        r is Err ==> final(pages).perms_view() == old(pages).perms_view(),
        find_page(old(pages).pages_view(), page_id) is None ==> (r matches Err(e) && e
            is NotFound),
        find_page(old(pages).pages_view(), page_id) matches Some(p) && p.creator_id != user_id
            ==> (r matches Err(e) && e is Forbidden),
        find_page(old(pages).pages_view(), page_id) matches Some(p) && p.creator_id == user_id
            ==> {
            &&& (find_perm_pair(old(pages).perms_view(), page_id, payload.user_id) is Some ==> (r
                matches Err(e) && e matches AppError::BadRequest(m) && m@
                == "Permission already exists"@))
            &&& (find_perm_pair(old(pages).perms_view(), page_id, payload.user_id) is None
                && find_user(users@, payload.user_id) is None ==> (r matches Err(e) && e
                is Database))
            &&& (find_perm_pair(old(pages).perms_view(), page_id, payload.user_id) is None
                && find_user(users@, payload.user_id) is Some && old(pages).can_allocate_perm()
                ==> (r matches Ok(pw) && {
                &&& final(pages).perms_view() == old(pages).perms_view().push(pw.permission)
                &&& pw.permission.page_id == page_id
                &&& pw.permission.user_id == payload.user_id
                &&& pw.permission.can_edit == payload.can_edit
                &&& pw.permission.granted_by == user_id
                &&& Some(pw.user) == find_user(users@, payload.user_id)
            }))
        },
{
    let page = match pages.find_by_id(page_id) {
        Some(p) => p,
        None => {
            return Err(AppError::NotFound);
        },
    };
    if page.creator_id != user_id {
        return Err(AppError::Forbidden);
    }
    let existing = pages.get_user_permission(page_id, payload.user_id);
    if existing.is_some() {
        return Err(AppError::BadRequest("Permission already exists".to_owned()));
    }
    let user = match users.find_by_id(payload.user_id) {
        Some(u) => u,
        None => {
            return Err(AppError::Database("user not found".to_owned()));
        },
    };
    let permission = match pages.grant_permission(
        page_id,
        payload.user_id,
        payload.can_edit,
        user_id,
        now,
    ) {
        Ok(q) => q,
        Err(e) => {
            return Err(e);
        },
    };
    Ok(PagePermissionWithUser { permission, user })
}

/// Changes the edit flag of a grant; only the creator may.
pub fn update_permission(
    pages: &mut PageRepository,
    users: &UserRepository,
    user_id: u64,
    page_id: u64,
    permission_id: u64,
    payload: UpdatePermission,
) -> (r: Result<PagePermissionWithUser, AppError>)
    requires
        old(pages).wf(),
        users.wf(),
    ensures
        final(pages).wf(),
        final(pages).pages_view() == old(pages).pages_view(),
        r is Err ==> final(pages).perms_view() == old(pages).perms_view(),
        find_page(old(pages).pages_view(), page_id) is None ==> (r matches Err(e) && e
            is NotFound),
        find_page(old(pages).pages_view(), page_id) matches Some(p) && p.creator_id != user_id
            ==> (r matches Err(e) && e is Forbidden),
        find_page(old(pages).pages_view(), page_id) matches Some(p) && p.creator_id == user_id
            ==> {
            &&& (!(find_perm(old(pages).perms_view(), permission_id) matches Some(q) && q.page_id
                == page_id) ==> (r matches Err(e) && e is NotFound))
            &&& ((find_perm(old(pages).perms_view(), permission_id) matches Some(q) && q.page_id
                == page_id && find_user(users@, q.user_id) is None) ==> (r matches Err(e) && e
                is Database))
            &&& ((find_perm(old(pages).perms_view(), permission_id) matches Some(q) && q.page_id
                == page_id && find_user(users@, q.user_id) is Some) ==> (r matches Ok(pw) && {
                let i = perm_index(old(pages).perms_view(), permission_id);
                &&& final(pages).perms_view() == old(pages).perms_view().update(i, pw.permission)
                &&& pw.permission.id == permission_id
                &&& pw.permission.can_edit == payload.can_edit
                &&& pw.permission.user_id == old(pages).perms_view()[i].user_id
                &&& Some(pw.user) == find_user(users@, pw.permission.user_id)
            }))
        },
{
    let page = match pages.find_by_id(page_id) {
        Some(p) => p,
        None => {
            return Err(AppError::NotFound);
        },
    };
    if page.creator_id != user_id {
        return Err(AppError::Forbidden);
    }
    let row = match pages.find_permission(page_id, permission_id) {
        Some(q) => q,
        None => {
            return Err(AppError::NotFound);
        },
    };
    let user = match users.find_by_id(row.user_id) {
        Some(u) => u,
        None => {
            return Err(AppError::Database("user not found".to_owned()));
        },
    };
    proof {
        crate::page_repo::lemma_find_perm_index(pages.perms_view(), permission_id);
    }
    let permission = match pages.update_permission(page_id, permission_id, payload.can_edit) {
        Some(q) => q,
        None => {
            return Err(AppError::NotFound);
        },
    };
    Ok(PagePermissionWithUser { permission, user })
}

/// Removes a grant; only the creator may, and removing an absent grant is
/// not an error.
pub fn revoke_permission(
    pages: &mut PageRepository,
    user_id: u64,
    page_id: u64,
    permission_id: u64,
) -> (r: Result<(), AppError>)
    requires
        old(pages).wf(),
    ensures
        final(pages).wf(),
        final(pages).pages_view() == old(pages).pages_view(),
        find_page(old(pages).pages_view(), page_id) is None ==> (r matches Err(e) && e is NotFound
            && final(pages).perms_view() == old(pages).perms_view()),
        find_page(old(pages).pages_view(), page_id) matches Some(p) && p.creator_id != user_id
            ==> (r matches Err(e) && e is Forbidden && final(pages).perms_view() == old(pages).perms_view()),
        find_page(old(pages).pages_view(), page_id) matches Some(p) && p.creator_id == user_id
            ==> (r is Ok && {
            &&& (find_perm(old(pages).perms_view(), permission_id) matches Some(q) && q.page_id
                == page_id ==> final(pages).perms_view() == old(pages).perms_view().remove(
                perm_index(old(pages).perms_view(), permission_id),
            ))
            &&& (!(find_perm(old(pages).perms_view(), permission_id) matches Some(q) && q.page_id
                == page_id) ==> final(pages).perms_view() == old(pages).perms_view())
        }),
{
    let page = match pages.find_by_id(page_id) {
        Some(p) => p,
        None => {
            return Err(AppError::NotFound);
        },
    };
    if page.creator_id != user_id {
        return Err(AppError::Forbidden);
    }
    pages.revoke_permission(page_id, permission_id);
    Ok(())
}

} // verus!
