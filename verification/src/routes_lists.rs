//! List and item endpoints.  A list or item carries no permission of its
//! own: every operation first resolves the owning page and checks the
//! caller's access there; a missing owning list is reported as not found,
//! distinct from a forbidden page.

use vstd::prelude::*;

use crate::error::{AppError, FieldError};
use crate::list_repo::{
    find_item, find_list, item_index, items_of_list_ordered, list_index, lists_of_page_ordered,
    ListRepository,
};
use crate::models::{CreateList, CreateListItem, List, ListItem, ListWithItems, UpdateList,
    UpdateListItem};
use crate::page_repo::{has_access, has_edit, PageRepository};
use crate::validators::{
    is_single_validation, item_content_ok, title_ok, trim_spec, validate_item_content,
    validate_title,
};

verus! {

/// Lists of a page, for any caller with read access.
pub fn list_lists(lists: &ListRepository, pages: &PageRepository, user_id: u64, page_id: u64) -> (r:
    Result<Vec<List>, AppError>)
    requires
        lists.wf(),
        pages.wf(),
    ensures
        !has_access(pages.pages_view(), pages.perms_view(), page_id, user_id) ==> (r
            matches Err(e) && e is Forbidden),
        has_access(pages.pages_view(), pages.perms_view(), page_id, user_id) ==> (r matches Ok(v)
            && v@ == lists_of_page_ordered(lists.lists_view(), page_id)),
{
    if !pages.check_access(page_id, user_id) {
        return Err(AppError::Forbidden);
    }
    Ok(lists.list_by_page_id(page_id))
}

/// Creates a list on a page, for callers with edit access.
pub fn create_list(
    lists: &mut ListRepository,
    pages: &PageRepository,
    user_id: u64,
    page_id: u64,
    payload: CreateList,
    now: i64,
) -> (r: Result<List, AppError>)
    requires
        old(lists).wf(),
        pages.wf(),
    ensures
        final(lists).wf(),
        final(lists).items_view() == old(lists).items_view(),
        r is Err ==> final(lists).lists_view() == old(lists).lists_view(),
        !has_edit(pages.pages_view(), pages.perms_view(), page_id, user_id) ==> (r matches Err(e)
            && e is Forbidden),
        has_edit(pages.pages_view(), pages.perms_view(), page_id, user_id) && !title_ok(
            payload.title@,
        ) ==> (r matches Err(e) && is_single_validation(
            e,
            "title"@,
            "Title must be between 1 and 200 characters"@,
        )),
        has_edit(pages.pages_view(), pages.perms_view(), page_id, user_id) && title_ok(
            payload.title@,
        ) && old(lists).can_allocate_list() ==> (r matches Ok(l) && {
            &&& final(lists).lists_view() == old(lists).lists_view().push(l)
            &&& l.page_id == page_id
            &&& l.title@ == trim_spec(payload.title@)
            &&& l.created_at == now
        }),
{
    if !pages.check_edit_permission(page_id, user_id) {
        return Err(AppError::Forbidden);
    }
    let title = match validate_title(payload.title.as_str()) {
        Ok(t) => t,
        Err(e) => {
            return Err(e);
        },
    };
    lists.create_list(
        page_id,
        CreateList {
            title,
            position: payload.position,
            show_checkboxes: payload.show_checkboxes,
            show_progress: payload.show_progress,
        },
        now,
    )
}

/// Reads one list with its items, for callers with read access.
pub fn get_list(
    lists: &ListRepository,
    pages: &PageRepository,
    user_id: u64,
    page_id: u64,
    list_id: u64,
) -> (r: Result<ListWithItems, AppError>)
    requires
        lists.wf(),
        pages.wf(),
    ensures
        !has_access(pages.pages_view(), pages.perms_view(), page_id, user_id) ==> (r
            matches Err(e) && e is Forbidden),
        has_access(pages.pages_view(), pages.perms_view(), page_id, user_id) && !(find_list(
            lists.lists_view(),
            list_id,
        ) matches Some(l) && l.page_id == page_id) ==> (r matches Err(e) && e is NotFound),
        has_access(pages.pages_view(), pages.perms_view(), page_id, user_id) && (find_list(
            lists.lists_view(),
            list_id,
        ) matches Some(l) && l.page_id == page_id) ==> (r matches Ok(lw) && Some(lw.list)
            == find_list(lists.lists_view(), list_id) && lw.items@ == items_of_list_ordered(
            lists.items_view(),
            list_id,
        )),
{
    if !pages.check_access(page_id, user_id) {
        return Err(AppError::Forbidden);
    }
    let list = match lists.find_by_id(list_id, page_id) {
        Some(l) => l,
        None => {
            return Err(AppError::NotFound);
        },
    };
    let items = lists.list_items_by_list_id(list_id);
    Ok(ListWithItems { list, items })
}

/// Patches a list's title and position, for callers with edit access.
pub fn update_list(
    lists: &mut ListRepository,
    pages: &PageRepository,
    user_id: u64,
    page_id: u64,
    list_id: u64,
    payload: UpdateList,
    now: i64,
) -> (r: Result<List, AppError>)
    requires
        old(lists).wf(),
        pages.wf(),
    ensures
        final(lists).wf(),
        final(lists).items_view() == old(lists).items_view(),
        r is Err ==> final(lists).lists_view() == old(lists).lists_view(),
        !has_edit(pages.pages_view(), pages.perms_view(), page_id, user_id) ==> (r matches Err(e)
            && e is Forbidden),
        has_edit(pages.pages_view(), pages.perms_view(), page_id, user_id) ==> {
            &&& (payload.title matches Some(t) && !title_ok(t@) ==> (r matches Err(e)
                && is_single_validation(
                e,
                "title"@,
                "Title must be between 1 and 200 characters"@,
            )))
            &&& ((payload.title matches Some(t) ==> title_ok(t@)) && !(find_list(
                old(lists).lists_view(),
                list_id,
            ) matches Some(l) && l.page_id == page_id) ==> (r matches Err(e) && e is NotFound))
            &&& ((payload.title matches Some(t) ==> title_ok(t@)) && (find_list(
                old(lists).lists_view(),
                list_id,
            ) matches Some(l) && l.page_id == page_id) ==> (r matches Ok(nl) && {
                &&& nl.id == list_id
                &&& (payload.title matches Some(t) ==> nl.title@ == trim_spec(t@))
                &&& (payload.position matches Some(p) ==> nl.position == p)
                &&& (!(payload.title is None && payload.position is None) ==> final(lists).lists_view() == old(lists).lists_view().update(
                    list_index(old(lists).lists_view(), list_id),
                    nl,
                ))
                &&& (payload.title is None && payload.position is None ==> final(lists).lists_view() == old(lists).lists_view())
            }))
        },
{
    if !pages.check_edit_permission(page_id, user_id) {
        return Err(AppError::Forbidden);
    }
    let title: Option<String> = match &payload.title {
        Some(t) => {
            match validate_title(t.as_str()) {
                Ok(v) => Some(v),
                Err(e) => {
                    return Err(e);
                },
            }
        },
        None => None,
    };
    proof {
        crate::list_repo::lemma_find_list_index(lists.lists_view(), list_id);
    }
    match lists.update_list(
        list_id,
        page_id,
        UpdateList {
            title,
            position: payload.position,
            show_checkboxes: payload.show_checkboxes,
            show_progress: payload.show_progress,
        },
        now,
    ) {
        Some(l) => Ok(l),
        None => Err(AppError::NotFound),
    }
}

/// Deletes a list and its items, for callers with edit access.
pub fn delete_list(
    lists: &mut ListRepository,
    pages: &PageRepository,
    user_id: u64,
    page_id: u64,
    list_id: u64,
) -> (r: Result<(), AppError>)
    requires
        old(lists).wf(),
        pages.wf(),
    ensures
        final(lists).wf(),
        !has_edit(pages.pages_view(), pages.perms_view(), page_id, user_id) ==> (r matches Err(e)
            && e is Forbidden && final(lists).lists_view() == old(lists).lists_view() && final(lists).items_view() == old(lists).items_view()),
        has_edit(pages.pages_view(), pages.perms_view(), page_id, user_id) ==> (r is Ok && {
            &&& (find_list(old(lists).lists_view(), list_id) matches Some(l) && l.page_id
                == page_id ==> (final(lists).lists_view() == old(lists).lists_view().remove(
                list_index(old(lists).lists_view(), list_id),
            ) && final(lists).items_view() == crate::list_repo::items_without_list(
                old(lists).items_view(),
                list_id,
            )))
            &&& (!(find_list(old(lists).lists_view(), list_id) matches Some(l) && l.page_id
                == page_id) ==> (final(lists).lists_view() == old(lists).lists_view() && final(lists).items_view() == old(lists).items_view()))
        }),
{
    if !pages.check_edit_permission(page_id, user_id) {
        return Err(AppError::Forbidden);
    }
    lists.delete_list(list_id, page_id);
    Ok(())
}

/// Items of a list, for callers with read access to the owning page; a
/// missing list is not found.
pub fn list_items(lists: &ListRepository, pages: &PageRepository, user_id: u64, list_id: u64) -> (r:
    Result<Vec<ListItem>, AppError>)
    requires
        lists.wf(),
        pages.wf(),
    ensures
        find_list(lists.lists_view(), list_id) is None ==> (r matches Err(e) && e is NotFound),
        find_list(lists.lists_view(), list_id) matches Some(l) && !has_access(
            pages.pages_view(),
            pages.perms_view(),
            l.page_id,
            user_id,
        ) ==> (r matches Err(e) && e is Forbidden),
        find_list(lists.lists_view(), list_id) matches Some(l) && has_access(
            pages.pages_view(),
            pages.perms_view(),
            l.page_id,
            user_id,
        ) ==> (r matches Ok(v) && v@ == items_of_list_ordered(lists.items_view(), list_id)),
{
    let page_id = match lists.get_page_id_for_list(list_id) {
        Some(p) => p,
        None => {
            return Err(AppError::NotFound);
        },
    };
    if !pages.check_access(page_id, user_id) {
        return Err(AppError::Forbidden);
    }
    Ok(lists.list_items_by_list_id(list_id))
}

/// Creates an item, for callers with edit access to the owning page.
pub fn create_item(
    lists: &mut ListRepository,
    pages: &PageRepository,
    user_id: u64,
    list_id: u64,
    payload: CreateListItem,
    now: i64,
) -> (r: Result<ListItem, AppError>)
    requires
        old(lists).wf(),
        pages.wf(),
    ensures
        final(lists).wf(),
        final(lists).lists_view() == old(lists).lists_view(),
        r is Err ==> final(lists).items_view() == old(lists).items_view(),
        find_list(old(lists).lists_view(), list_id) is None ==> (r matches Err(e) && e
            is NotFound),
        find_list(old(lists).lists_view(), list_id) matches Some(l) && !has_edit(
            pages.pages_view(),
            pages.perms_view(),
            l.page_id,
            user_id,
        ) ==> (r matches Err(e) && e is Forbidden),
        find_list(old(lists).lists_view(), list_id) matches Some(l) && has_edit(
            pages.pages_view(),
            pages.perms_view(),
            l.page_id,
            user_id,
        ) ==> {
            &&& (!item_content_ok(payload.content@) ==> (r matches Err(e) && is_single_validation(
                e,
                "content"@,
                "Item content must be between 1 and 2000 characters"@,
            )))
            &&& (item_content_ok(payload.content@) && old(lists).can_allocate_item() ==> (r
                matches Ok(t) && {
                &&& final(lists).items_view() == old(lists).items_view().push(t)
                &&& t.list_id == list_id
                &&& t.content@ == trim_spec(payload.content@)
                &&& !t.checked
                &&& t.created_at == now
            }))
        },
{
    let page_id = match lists.get_page_id_for_list(list_id) {
        Some(p) => p,
        None => {
            return Err(AppError::NotFound);
        },
    };
    if !pages.check_edit_permission(page_id, user_id) {
        return Err(AppError::Forbidden);
    }
    let content = match validate_item_content(payload.content.as_str()) {
        Ok(c) => c,
        Err(e) => {
            return Err(e);
        },
    };
    lists.create_item(list_id, CreateListItem { content, position: payload.position }, now)
}

/// Reads one item, for callers with read access to the owning page.
pub fn get_item(
    lists: &ListRepository,
    pages: &PageRepository,
    user_id: u64,
    list_id: u64,
    item_id: u64,
) -> (r: Result<ListItem, AppError>)
    requires
        lists.wf(),
        pages.wf(),
    ensures
        find_list(lists.lists_view(), list_id) is None ==> (r matches Err(e) && e is NotFound),
        find_list(lists.lists_view(), list_id) matches Some(l) && !has_access(
            pages.pages_view(),
            pages.perms_view(),
            l.page_id,
            user_id,
        ) ==> (r matches Err(e) && e is Forbidden),
        find_list(lists.lists_view(), list_id) matches Some(l) && has_access(
            pages.pages_view(),
            pages.perms_view(),
            l.page_id,
            user_id,
        ) ==> {
            &&& (!(find_item(lists.items_view(), item_id) matches Some(t) && t.list_id == list_id)
                ==> (r matches Err(e) && e is NotFound))
            &&& (find_item(lists.items_view(), item_id) matches Some(t) ==> (t.list_id == list_id
                ==> r == Ok::<ListItem, AppError>(t)))
        },
{
    let page_id = match lists.get_page_id_for_list(list_id) {
        Some(p) => p,
        None => {
            return Err(AppError::NotFound);
        },
    };
    if !pages.check_access(page_id, user_id) {
        return Err(AppError::Forbidden);
    }
    match lists.find_item_by_id(item_id, list_id) {
        Some(t) => Ok(t),
        None => Err(AppError::NotFound),
    }
}

/// Patches an item, for callers with edit access to the owning page.
pub fn update_item(
    lists: &mut ListRepository,
    pages: &PageRepository,
    user_id: u64,
    list_id: u64,
    item_id: u64,
    payload: UpdateListItem,
    now: i64,
) -> (r: Result<ListItem, AppError>)
    requires
        old(lists).wf(),
        pages.wf(),
    ensures
        final(lists).wf(),
        final(lists).lists_view() == old(lists).lists_view(),
        r is Err ==> final(lists).items_view() == old(lists).items_view(),
        find_list(old(lists).lists_view(), list_id) is None ==> (r matches Err(e) && e
            is NotFound),
        find_list(old(lists).lists_view(), list_id) matches Some(l) && !has_edit(
            pages.pages_view(),
            pages.perms_view(),
            l.page_id,
            user_id,
        ) ==> (r matches Err(e) && e is Forbidden),
        find_list(old(lists).lists_view(), list_id) matches Some(l) && has_edit(
            pages.pages_view(),
            pages.perms_view(),
            l.page_id,
            user_id,
        ) ==> {
            &&& (payload.content matches Some(c) && !item_content_ok(c@) ==> (r matches Err(e)
                && is_single_validation(
                e,
                "content"@,
                "Item content must be between 1 and 2000 characters"@,
            )))
            &&& ((payload.content matches Some(c) ==> item_content_ok(c@)) && !(find_item(
                old(lists).items_view(),
                item_id,
            ) matches Some(t) && t.list_id == list_id) ==> (r matches Err(e) && e is NotFound))
            &&& ((payload.content matches Some(c) ==> item_content_ok(c@)) && (find_item(
                old(lists).items_view(),
                item_id,
            ) matches Some(t) && t.list_id == list_id) ==> (r matches Ok(nt) && {
                &&& nt.id == item_id
                &&& (payload.content matches Some(c) ==> nt.content@ == trim_spec(c@))
                &&& (payload.checked matches Some(b) ==> nt.checked == b)
                &&& (payload.position matches Some(p) ==> nt.position == p)
                &&& (!(payload.content is None && payload.checked is None && payload.position
                    is None) ==> final(lists).items_view() == old(lists).items_view().update(
                    item_index(old(lists).items_view(), item_id),
                    nt,
                ))
                &&& (payload.content is None && payload.checked is None && payload.position
                    is None ==> final(lists).items_view() == old(lists).items_view())
            }))
        },
{
    let page_id = match lists.get_page_id_for_list(list_id) {
        Some(p) => p,
        None => {
            return Err(AppError::NotFound);
        },
    };
    if !pages.check_edit_permission(page_id, user_id) {
        return Err(AppError::Forbidden);
    }
    let content: Option<String> = match &payload.content {
        Some(c) => {
            match validate_item_content(c.as_str()) {
                Ok(v) => Some(v),
                Err(e) => {
                    return Err(e);
                },
            }
        },
        None => None,
    };
    proof {
        crate::list_repo::lemma_find_item_index(lists.items_view(), item_id);
    }
    match lists.update_item(
        item_id,
        list_id,
        UpdateListItem { content, checked: payload.checked, position: payload.position },
        now,
    ) {
        Some(t) => Ok(t),
        None => Err(AppError::NotFound),
    }
}

/// Deletes an item, for callers with edit access to the owning page.
pub fn delete_item(
    lists: &mut ListRepository,
    pages: &PageRepository,
    user_id: u64,
    list_id: u64,
    item_id: u64,
) -> (r: Result<(), AppError>)
    requires
        old(lists).wf(),
        pages.wf(),
    ensures
        final(lists).wf(),
        final(lists).lists_view() == old(lists).lists_view(),
        find_list(old(lists).lists_view(), list_id) is None ==> (r matches Err(e) && e is NotFound
            && final(lists).items_view() == old(lists).items_view()),
        find_list(old(lists).lists_view(), list_id) matches Some(l) && !has_edit(
            pages.pages_view(),
            pages.perms_view(),
            l.page_id,
            user_id,
        ) ==> (r matches Err(e) && e is Forbidden && final(lists).items_view() == old(lists).items_view()),
        find_list(old(lists).lists_view(), list_id) matches Some(l) && has_edit(
            pages.pages_view(),
            pages.perms_view(),
            l.page_id,
            user_id,
        ) ==> (r is Ok && {
            &&& (find_item(old(lists).items_view(), item_id) matches Some(t) && t.list_id
                == list_id ==> final(lists).items_view() == old(lists).items_view().remove(
                item_index(old(lists).items_view(), item_id),
            ))
            &&& (!(find_item(old(lists).items_view(), item_id) matches Some(t) && t.list_id
                == list_id) ==> final(lists).items_view() == old(lists).items_view())
        }),
{
    let page_id = match lists.get_page_id_for_list(list_id) {
        Some(p) => p,
        None => {
            return Err(AppError::NotFound);
        },
    };
    if !pages.check_edit_permission(page_id, user_id) {
        return Err(AppError::Forbidden);
    }
    lists.delete_item(item_id, list_id);
    Ok(())
}

} // verus!
