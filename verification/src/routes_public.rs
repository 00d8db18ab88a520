//! The anonymous endpoint: a page published under a public slug is read
//! without authentication, with all its lists and items.

use vstd::prelude::*;

use crate::error::AppError;
use crate::list_repo::{items_of_list_ordered, lists_of_page_ordered, ListRepository};
use crate::models::{ListWithItems, PublicPageData};
use crate::page_repo::{find_page_by_slug, PageRepository};

verus! {

/// Reads a page by its public slug, with its lists in order and each
/// list's items in order; an unknown slug is not found.
pub fn get_public_page(pages: &PageRepository, lists: &ListRepository, slug: &str) -> (r: Result<
    PublicPageData,
    AppError,
>)
    requires
        pages.wf(),
        lists.wf(),
    ensures
        find_page_by_slug(pages.pages_view(), slug@) is None ==> (r matches Err(e) && e
            is NotFound),
        find_page_by_slug(pages.pages_view(), slug@) matches Some(p) ==> (r matches Ok(d) && {
            let ls = lists_of_page_ordered(lists.lists_view(), p.id);
            &&& d.page == p
            &&& d.lists@.len() == ls.len()
            &&& forall|k: int|
                0 <= k < d.lists@.len() ==> (#[trigger] d.lists@[k]).list == ls[k]
                    && d.lists@[k].items@ == items_of_list_ordered(lists.items_view(), ls[k].id)
        }),
{
    let page = match pages.find_by_public_slug(slug) {
        Some(p) => p,
        None => {
            return Err(AppError::NotFound);
        },
    };
    let page_lists = lists.list_by_page_id(page.id);
    let ghost ls = lists_of_page_ordered(lists.lists_view(), page.id);
    let mut lists_with_items: Vec<ListWithItems> = Vec::new();
    let mut i: usize = 0;
    while i < page_lists.len()
        invariant
            0 <= i <= page_lists@.len(),
            lists.wf(),
            page_lists@ == ls,
            lists_with_items@.len() == i,
            forall|k: int|
                0 <= k < i ==> (#[trigger] lists_with_items@[k]).list == ls[k]
                    && lists_with_items@[k].items@ == items_of_list_ordered(
                    lists.items_view(),
                    ls[k].id,
                ),
        decreases page_lists@.len() - i,
    {
        let list = page_lists[i].clone();
        let items = lists.list_items_by_list_id(list.id);
        lists_with_items.push(ListWithItems { list, items });
        i = i + 1;
    }
    Ok(PublicPageData { page, lists: lists_with_items })
}

} // verus!
