//! In-memory list and item store.  Ids are unique and assigned by counters;
//! reads ordered by position use a stable ordering, so equal positions keep
//! creation order, as the database's ordering by position and creation time
//! did.

use vstd::prelude::*;

use crate::error::AppError;
use crate::models::{CreateList, CreateListItem, List, ListItem, UpdateList, UpdateListItem};
use crate::sequtil::{
    insert_by_key, lemma_insert_by_key_at, lemma_insert_by_key_ordered, ordered_by_key, ordered_of,
};

verus! {

/// First list with the given id, if any.
pub open spec fn find_list(s: Seq<List>, id: u64) -> Option<List>
    decreases s.len(),
{
    if s.len() == 0 {
        None
    } else if s[0].id == id {
        Some(s[0])
    } else {
        find_list(s.drop_first(), id)
    }
}

/// Index of the first list with the given id, or the length when absent.
pub open spec fn list_index(s: Seq<List>, id: u64) -> int
    decreases s.len(),
{
    if s.len() == 0 {
        0
    } else if s[0].id == id {
        0
    } else {
        1 + list_index(s.drop_first(), id)
    }
}

/// First item with the given id, if any.
pub open spec fn find_item(s: Seq<ListItem>, id: u64) -> Option<ListItem>
    decreases s.len(),
{
    if s.len() == 0 {
        None
    } else if s[0].id == id {
        Some(s[0])
    } else {
        find_item(s.drop_first(), id)
    }
}

/// Index of the first item with the given id, or the length when absent.
pub open spec fn item_index(s: Seq<ListItem>, id: u64) -> int
    decreases s.len(),
{
    if s.len() == 0 {
        0
    } else if s[0].id == id {
        0
    } else {
        1 + item_index(s.drop_first(), id)
    }
}

/// The lists of a page, ordered by position, creation order breaking ties.
pub open spec fn lists_of_page_ordered(s: Seq<List>, page_id: u64) -> Seq<List> {
    ordered_of(s, |l: List| l.page_id == page_id, |l: List| l.position as int)
}

/// The items of a list, ordered by position, creation order breaking ties.
pub open spec fn items_of_list_ordered(s: Seq<ListItem>, list_id: u64) -> Seq<ListItem> {
    ordered_of(s, |t: ListItem| t.list_id == list_id, |t: ListItem| t.position as int)
}

/// The items that do not belong to the given list: what a list delete
/// leaves behind.
pub open spec fn items_without_list(s: Seq<ListItem>, list_id: u64) -> Seq<ListItem>
    decreases s.len(),
{
    if s.len() == 0 {
        Seq::empty()
    } else if s.last().list_id == list_id {
        items_without_list(s.drop_last(), list_id)
    } else {
        items_without_list(s.drop_last(), list_id).push(s.last())
    }
}

/// Greatest position among the page's lists, or -1 when it has none.
pub open spec fn max_list_pos(s: Seq<List>, page_id: u64) -> int
    decreases s.len(),
{
    if s.len() == 0 {
        -1
    } else {
        let rest = max_list_pos(s.drop_last(), page_id);
        if s.last().page_id == page_id && s.last().position as int > rest {
            s.last().position as int
        } else {
            rest
        }
    }
}

/// Greatest position among the list's items, or -1 when it has none.
pub open spec fn max_item_pos(s: Seq<ListItem>, list_id: u64) -> int
    decreases s.len(),
{
    if s.len() == 0 {
        -1
    } else {
        let rest = max_item_pos(s.drop_last(), list_id);
        if s.last().list_id == list_id && s.last().position as int > rest {
            s.last().position as int
        } else {
            rest
        }
    }
}

/// One past the maximum, kept inside the position range.
pub open spec fn next_pos(m: int) -> int {
    if m >= i32::MAX {
        i32::MAX as int
    } else {
        m + 1
    }
}

pub struct ListRepository {
    lists: Vec<List>,
    items: Vec<ListItem>,
    next_list_id: u64,
    next_item_id: u64,
}

impl ListRepository {
    /// The stored lists, in insertion order.
    pub closed spec fn lists_view(&self) -> Seq<List> {
        self.lists@
    }

    /// The stored items, in insertion order.
    pub closed spec fn items_view(&self) -> Seq<ListItem> {
        self.items@
    }

    pub closed spec fn can_allocate_list(&self) -> bool {
        self.next_list_id < u64::MAX
    }

    pub closed spec fn can_allocate_item(&self) -> bool {
        self.next_item_id < u64::MAX
    }

    /// Store invariant: unique list and item ids, each below its counter.
    pub closed spec fn wf(&self) -> bool {
        &&& forall|i: int, j: int|
            0 <= i < j < self.lists@.len() ==> self.lists@[i].id != self.lists@[j].id
        &&& forall|i: int| 0 <= i < self.lists@.len() ==> self.lists@[i].id < self.next_list_id
        &&& forall|i: int, j: int|
            0 <= i < j < self.items@.len() ==> self.items@[i].id != self.items@[j].id
        &&& forall|i: int| 0 <= i < self.items@.len() ==> self.items@[i].id < self.next_item_id
    }

    pub fn new() -> (r: Self)
        ensures
            r.wf(),
            r.can_allocate_list(),
            r.can_allocate_item(),
            r.lists_view() == Seq::<List>::empty(),
            r.items_view() == Seq::<ListItem>::empty(),
    {
        ListRepository { lists: Vec::new(), items: Vec::new(), next_list_id: 0, next_item_id: 0 }
    }

    /// The lists of a page, ordered by position, creation order breaking
    /// ties.
    pub fn list_by_page_id(&self, page_id: u64) -> (r: Vec<List>)
        requires
            self.wf(),
        ensures
            r@ == lists_of_page_ordered(self.lists_view(), page_id),
            ordered_by_key(r@, |l: List| l.position as int),
    {
        let ghost olists = self.lists@;
        let ghost pred = |l: List| l.page_id == page_id;
        let ghost key = |l: List| l.position as int;
        let mut r: Vec<List> = Vec::new();
        let mut i: usize = 0;
        while i < self.lists.len()
            invariant
                0 <= i <= olists.len(),
                self.lists@ == olists,
                r@ == ordered_of(olists.take(i as int), pred, key),
                ordered_by_key(r@, key),
                pred == (|l: List| l.page_id == page_id),
                key == (|l: List| l.position as int),
            decreases olists.len() - i,
        {
            proof {
                assert(olists.take(i + 1).drop_last() =~= olists.take(i as int));
                assert(olists.take(i + 1).last() == olists[i as int]);
            }
            if self.lists[i].page_id == page_id {
                let x = self.lists[i].clone();
                let ghost before = r@;
                let mut idx: usize = 0;
                while idx < r.len() && r[idx].position <= x.position
                    invariant
                        0 <= idx <= r@.len(),
                        r@ == before,
                        x == olists[i as int],
                        key == (|l: List| l.position as int),
                        ordered_by_key(r@, key),
                        forall|k: int| 0 <= k < idx ==> key(#[trigger] r@[k]) <= key(x),
                    decreases r@.len() - idx,
                {
                    idx = idx + 1;
                }
                proof {
                    assert forall|k: int| idx <= k < r@.len() implies key(#[trigger] r@[k]) > key(
                        x,
                    ) by {
                        if k > idx {
                            assert(key(r@[idx as int]) <= key(r@[k]));
                        }
                    }
                    lemma_insert_by_key_at(r@, x, key, idx as int);
                    lemma_insert_by_key_ordered(r@, x, key, idx as int);
                }
                r.insert(idx, x);
            }
            i = i + 1;
        }
        proof {
            assert(olists.take(olists.len() as int) =~= olists);
        }
        r
    }

    /// Looks a list up by id, scoped to its page.
    pub fn find_by_id(&self, id: u64, page_id: u64) -> (r: Option<List>)
        requires
            self.wf(),
        ensures
            r == (if find_list(self.lists_view(), id) matches Some(l) && l.page_id == page_id {
                find_list(self.lists_view(), id)
            } else {
                None
            }),
    {
        let ghost olists = self.lists@;
        proof {
            assert(olists.skip(0) =~= olists);
        }
        let mut i: usize = 0;
        while i < self.lists.len()
            invariant
                0 <= i <= olists.len(),
                self.lists@ == olists,
                find_list(olists, id) == find_list(olists.skip(i as int), id),
            decreases olists.len() - i,
        {
            proof {
                assert(olists.skip(i as int).drop_first() =~= olists.skip(i + 1));
            }
            if self.lists[i].id == id {
                if self.lists[i].page_id == page_id {
                    return Some(self.lists[i].clone());
                } else {
                    return None;
                }
            }
            i = i + 1;
        }
        None
    }

    /// Inserts a new list; without a given position it goes after the page's
    /// current last position.
    pub fn create_list(&mut self, page_id: u64, data: CreateList, now: i64) -> (r: Result<
        List,
        AppError,
    >)
        requires
            old(self).wf(),
        ensures
            final(self).wf(),
            final(self).items_view() == old(self).items_view(),
            !old(self).can_allocate_list() ==> (r is Err && final(self).lists_view() == old(self).lists_view()),
            old(self).can_allocate_list() ==> (r matches Ok(l) && {
                &&& final(self).lists_view() == old(self).lists_view().push(l)
                &&& l.page_id == page_id
                &&& l.title == data.title
                &&& l.position as int == (if data.position is Some {
                    data.position->0 as int
                } else {
                    next_pos(max_list_pos(old(self).lists_view(), page_id))
                })
                &&& l.show_checkboxes == (if data.show_checkboxes is Some {
                    data.show_checkboxes->0
                } else {
                    true
                })
                &&& l.show_progress == (if data.show_progress is Some {
                    data.show_progress->0
                } else {
                    true
                })
                &&& l.created_at == now
                &&& l.updated_at == now
                &&& find_list(old(self).lists_view(), l.id) is None
            }),
    {
        if self.next_list_id == u64::MAX {
            return Err(AppError::Internal("id space exhausted".to_owned()));
        }
        let position: i32 = match data.position {
            Some(p) => p,
            None => {
                let ghost olists = self.lists@;
                let mut m: i32 = -1;
                let mut i: usize = 0;
                while i < self.lists.len()
                    invariant
                        0 <= i <= olists.len(),
                        self.lists@ == olists,
                        *self == *old(self),
                        old(self).wf(),
                        data.position is None,
                        self.next_list_id < u64::MAX,
                        m as int == max_list_pos(olists.take(i as int), page_id),
                    decreases olists.len() - i,
                {
                    proof {
                        assert(olists.take(i + 1).drop_last() =~= olists.take(i as int));
                        assert(olists.take(i + 1).last() == olists[i as int]);
                    }
                    if self.lists[i].page_id == page_id && self.lists[i].position > m {
                        m = self.lists[i].position;
                    }
                    i = i + 1;
                }
                proof {
                    assert(olists.take(olists.len() as int) =~= olists);
                }
                if m == i32::MAX {
                    m
                } else {
                    m + 1
                }
            },
        };
        let l = List {
            id: self.next_list_id,
            page_id,
            title: data.title,
            position,
            show_checkboxes: match data.show_checkboxes {
                Some(b) => b,
                None => true,
            },
            show_progress: match data.show_progress {
                Some(b) => b,
                None => true,
            },
            created_at: now,
            updated_at: now,
        };
        proof {
            lemma_find_list_fresh(self.lists@, self.next_list_id);
        }
        let r = l.clone();
        self.lists.push(l);
        self.next_list_id = self.next_list_id + 1;
        Ok(r)
    }

    /// Patches title and position of a list; giving neither returns the
    /// stored row unchanged.  Other fields are not patched here.
    pub fn update_list(&mut self, id: u64, page_id: u64, data: UpdateList, now: i64) -> (r: Option<
        List,
    >)
        requires
            old(self).wf(),
        ensures
            final(self).wf(),
            final(self).items_view() == old(self).items_view(),
            (r is Some) <==> (find_list(old(self).lists_view(), id) matches Some(l) && l.page_id
                == page_id),
            r is None ==> final(self).lists_view() == old(self).lists_view(),
            data.title is None && data.position is None ==> (final(self).lists_view() == old(self).lists_view() && r == (
            if find_list(old(self).lists_view(), id) matches Some(l) && l.page_id == page_id {
                find_list(old(self).lists_view(), id)
            } else {
                None
            })),
            !(data.title is None && data.position is None) ==> (r matches Some(l) ==> {
                let i = list_index(old(self).lists_view(), id);
                let orig = old(self).lists_view()[i];
                &&& 0 <= i < old(self).lists_view().len()
                &&& final(self).lists_view() == old(self).lists_view().update(i, l)
                &&& l.id == id
                &&& l.page_id == orig.page_id
                &&& l.title == (if data.title is Some {
                    data.title->0
                } else {
                    orig.title
                })
                &&& l.position == (if data.position is Some {
                    data.position->0
                } else {
                    orig.position
                })
                &&& l.show_checkboxes == orig.show_checkboxes
                &&& l.show_progress == orig.show_progress
                &&& l.created_at == orig.created_at
                &&& l.updated_at == now
            }),
    {
        if data.title.is_none() && data.position.is_none() {
            return self.find_by_id(id, page_id);
        }
        let ghost olists = self.lists@;
        proof {
            assert(olists.skip(0) =~= olists);
        }
        let mut i: usize = 0;
        while i < self.lists.len()
            invariant
                0 <= i <= olists.len(),
                self.lists@ == olists,
                *self == *old(self),
                old(self).wf(),
                !(data.title is None && data.position is None),
                find_list(olists, id) == find_list(olists.skip(i as int), id),
                list_index(olists, id) == i + list_index(olists.skip(i as int), id),
            decreases olists.len() - i,
        {
            proof {
                assert(olists.skip(i as int).drop_first() =~= olists.skip(i + 1));
            }
            if self.lists[i].id == id {
                if self.lists[i].page_id != page_id {
                    return None;
                }
                let old_l = &self.lists[i];
                let l = List {
                    id: old_l.id,
                    page_id: old_l.page_id,
                    title: match &data.title {
                        Some(t) => t.clone(),
                        None => old_l.title.clone(),
                    },
                    position: match data.position {
                        Some(p) => p,
                        None => old_l.position,
                    },
                    show_checkboxes: old_l.show_checkboxes,
                    show_progress: old_l.show_progress,
                    created_at: old_l.created_at,
                    updated_at: now,
                };
                let r = l.clone();
                self.lists.set(i, l);
                return Some(r);
            }
            i = i + 1;
        }
        None
    }

    /// Removes a list and its items; removing an absent list changes
    /// nothing but still drops items that reference the id.
    pub fn delete_list(&mut self, id: u64, page_id: u64)
        requires
            old(self).wf(),
        ensures
            final(self).wf(),
            find_list(old(self).lists_view(), id) matches Some(l) && l.page_id == page_id ==> (
            final(self).lists_view() == old(self).lists_view().remove(
                list_index(old(self).lists_view(), id),
            ) && final(self).items_view() == items_without_list(old(self).items_view(), id)),
            !(find_list(old(self).lists_view(), id) matches Some(l) && l.page_id == page_id) ==> (
            final(self).lists_view() == old(self).lists_view() && final(self).items_view() == old(self).items_view()),
    {
        let ghost olists = self.lists@;
        let ghost oitems = self.items@;
        match self.list_pos_of(id) {
            Some(i) => {
                if self.lists[i].page_id == page_id {
                    self.lists.remove(i);
                    proof {
                        lemma_remove_keeps_list_ids(olists, i as int);
                    }
                    let ghost lists_after = self.lists@;
                    let mut kept: Vec<ListItem> = Vec::new();
                    let mut j: usize = 0;
                    proof {
                        assert(oitems.take(0) =~= Seq::<ListItem>::empty());
                    }
                    while j < self.items.len()
                        invariant
                            0 <= j <= oitems.len(),
                            self.items@ == oitems,
                            self.lists@ == lists_after,
                            self.next_list_id == old(self).next_list_id,
                            self.next_item_id == old(self).next_item_id,
                            forall|a: int, b: int|
                                0 <= a < b < lists_after.len() ==> lists_after[a].id
                                    != lists_after[b].id,
                            forall|a: int|
                                0 <= a < lists_after.len() ==> lists_after[a].id
                                    < self.next_list_id,
                            forall|a: int, b: int|
                                0 <= a < b < oitems.len() ==> oitems[a].id != oitems[b].id,
                            forall|a: int| 0 <= a < oitems.len() ==> oitems[a].id
                                < self.next_item_id,
                            kept@ == items_without_list(oitems.take(j as int), id),
                        decreases oitems.len() - j,
                    {
                        proof {
                            assert(oitems.take(j + 1).drop_last() =~= oitems.take(j as int));
                            assert(oitems.take(j + 1).last() == oitems[j as int]);
                        }
                        if self.items[j].list_id != id {
                            kept.push(self.items[j].clone());
                        }
                        j = j + 1;
                    }
                    proof {
                        assert(oitems.take(oitems.len() as int) =~= oitems);
                    }
                    self.items = kept;
                    proof {
                        lemma_without_list_wf(oitems, id);
                        let w = items_without_list(oitems, id);
                        assert forall|k: int| 0 <= k < w.len() implies w[k].id
                            < self.next_item_id by {
                            let jj = choose|jj: int|
                                #![auto]
                                0 <= jj < oitems.len() && w[k] == oitems[jj];
                        }
                    }
                }
            },
            None => {},
        }
    }

    /// Index of the list with this id, when present.
    fn list_pos_of(&self, id: u64) -> (r: Option<usize>)
        requires
            self.wf(),
        ensures
            (r is Some) <==> (find_list(self.lists_view(), id) is Some),
            r matches Some(i) ==> i == list_index(self.lists_view(), id) && i
                < self.lists_view().len() && self.lists_view()[i as int].id == id
                && find_list(self.lists_view(), id) == Some(self.lists_view()[i as int]),
    {
        let ghost olists = self.lists@;
        proof {
            assert(olists.skip(0) =~= olists);
        }
        let mut i: usize = 0;
        while i < self.lists.len()
            invariant
                0 <= i <= olists.len(),
                self.lists@ == olists,
                find_list(olists, id) == find_list(olists.skip(i as int), id),
                list_index(olists, id) == i + list_index(olists.skip(i as int), id),
            decreases olists.len() - i,
        {
            proof {
                assert(olists.skip(i as int).drop_first() =~= olists.skip(i + 1));
            }
            if self.lists[i].id == id {
                return Some(i);
            }
            i = i + 1;
        }
        None
    }

    /// The items of a list, ordered by position, creation order breaking
    /// ties.
    pub fn list_items_by_list_id(&self, list_id: u64) -> (r: Vec<ListItem>)
        requires
            self.wf(),
        ensures
            r@ == items_of_list_ordered(self.items_view(), list_id),
            ordered_by_key(r@, |t: ListItem| t.position as int),
    {
        let ghost oitems = self.items@;
        let ghost pred = |t: ListItem| t.list_id == list_id;
        let ghost key = |t: ListItem| t.position as int;
        let mut r: Vec<ListItem> = Vec::new();
        let mut i: usize = 0;
        while i < self.items.len()
            invariant
                0 <= i <= oitems.len(),
                self.items@ == oitems,
                r@ == ordered_of(oitems.take(i as int), pred, key),
                ordered_by_key(r@, key),
                pred == (|t: ListItem| t.list_id == list_id),
                key == (|t: ListItem| t.position as int),
            decreases oitems.len() - i,
        {
            proof {
                assert(oitems.take(i + 1).drop_last() =~= oitems.take(i as int));
                assert(oitems.take(i + 1).last() == oitems[i as int]);
            }
            if self.items[i].list_id == list_id {
                let x = self.items[i].clone();
                let ghost before = r@;
                let mut idx: usize = 0;
                while idx < r.len() && r[idx].position <= x.position
                    invariant
                        0 <= idx <= r@.len(),
                        r@ == before,
                        x == oitems[i as int],
                        key == (|t: ListItem| t.position as int),
                        ordered_by_key(r@, key),
                        forall|k: int| 0 <= k < idx ==> key(#[trigger] r@[k]) <= key(x),
                    decreases r@.len() - idx,
                {
                    idx = idx + 1;
                }
                proof {
                    assert forall|k: int| idx <= k < r@.len() implies key(#[trigger] r@[k]) > key(
                        x,
                    ) by {
                        if k > idx {
                            assert(key(r@[idx as int]) <= key(r@[k]));
                        }
                    }
                    lemma_insert_by_key_at(r@, x, key, idx as int);
                    lemma_insert_by_key_ordered(r@, x, key, idx as int);
                }
                r.insert(idx, x);
            }
            i = i + 1;
        }
        proof {
            assert(oitems.take(oitems.len() as int) =~= oitems);
        }
        r
    }

    /// Looks an item up by id, scoped to its list.
    pub fn find_item_by_id(&self, id: u64, list_id: u64) -> (r: Option<ListItem>)
        requires
            self.wf(),
        ensures
            r == (if find_item(self.items_view(), id) matches Some(t) && t.list_id == list_id {
                find_item(self.items_view(), id)
            } else {
                None
            }),
    {
        let ghost oitems = self.items@;
        proof {
            assert(oitems.skip(0) =~= oitems);
        }
        let mut i: usize = 0;
        while i < self.items.len()
            invariant
                0 <= i <= oitems.len(),
                self.items@ == oitems,
                find_item(oitems, id) == find_item(oitems.skip(i as int), id),
            decreases oitems.len() - i,
        {
            proof {
                assert(oitems.skip(i as int).drop_first() =~= oitems.skip(i + 1));
            }
            if self.items[i].id == id {
                if self.items[i].list_id == list_id {
                    return Some(self.items[i].clone());
                } else {
                    return None;
                }
            }
            i = i + 1;
        }
        None
    }

    /// Inserts a new unchecked item; without a given position it goes after
    /// the list's current last position.
    pub fn create_item(&mut self, list_id: u64, data: CreateListItem, now: i64) -> (r: Result<
        ListItem,
        AppError,
    >)
        requires
            old(self).wf(),
        ensures
            final(self).wf(),
            final(self).lists_view() == old(self).lists_view(),
            !old(self).can_allocate_item() ==> (r is Err && final(self).items_view() == old(self).items_view()),
            old(self).can_allocate_item() ==> (r matches Ok(t) && {
                &&& final(self).items_view() == old(self).items_view().push(t)
                &&& t.list_id == list_id
                &&& t.content == data.content
                &&& !t.checked
                &&& t.position as int == (if data.position is Some {
                    data.position->0 as int
                } else {
                    next_pos(max_item_pos(old(self).items_view(), list_id))
                })
                &&& t.created_at == now
                &&& t.updated_at == now
                &&& find_item(old(self).items_view(), t.id) is None
            }),
    {
        if self.next_item_id == u64::MAX {
            return Err(AppError::Internal("id space exhausted".to_owned()));
        }
        let position: i32 = match data.position {
            Some(p) => p,
            None => {
                let ghost oitems = self.items@;
                let mut m: i32 = -1;
                let mut i: usize = 0;
                while i < self.items.len()
                    invariant
                        0 <= i <= oitems.len(),
                        self.items@ == oitems,
                        *self == *old(self),
                        old(self).wf(),
                        data.position is None,
                        self.next_item_id < u64::MAX,
                        m as int == max_item_pos(oitems.take(i as int), list_id),
                    decreases oitems.len() - i,
                {
                    proof {
                        assert(oitems.take(i + 1).drop_last() =~= oitems.take(i as int));
                        assert(oitems.take(i + 1).last() == oitems[i as int]);
                    }
                    if self.items[i].list_id == list_id && self.items[i].position > m {
                        m = self.items[i].position;
                    }
                    i = i + 1;
                }
                proof {
                    assert(oitems.take(oitems.len() as int) =~= oitems);
                }
                if m == i32::MAX {
                    m
                } else {
                    m + 1
                }
            },
        };
        let t = ListItem {
            id: self.next_item_id,
            list_id,
            content: data.content,
            checked: false,
            position,
            created_at: now,
            updated_at: now,
        };
        proof {
            lemma_find_item_fresh(self.items@, self.next_item_id);
        }
        let r = t.clone();
        self.items.push(t);
        self.next_item_id = self.next_item_id + 1;
        Ok(r)
    }

    /// Patches content, checked flag and position of an item; giving none of
    /// them returns the stored row unchanged.
    pub fn update_item(&mut self, id: u64, list_id: u64, data: UpdateListItem, now: i64) -> (r:
        Option<ListItem>)
        requires
            old(self).wf(),
        ensures
            final(self).wf(),
            final(self).lists_view() == old(self).lists_view(),
            (r is Some) <==> (find_item(old(self).items_view(), id) matches Some(t) && t.list_id
                == list_id),
            r is None ==> final(self).items_view() == old(self).items_view(),
            data.content is None && data.checked is None && data.position is None ==> (final(self).items_view() == old(self).items_view() && r == (
            if find_item(old(self).items_view(), id) matches Some(t) && t.list_id == list_id {
                find_item(old(self).items_view(), id)
            } else {
                None
            })),
            !(data.content is None && data.checked is None && data.position is None) ==> (r
                matches Some(t) ==> {
                let i = item_index(old(self).items_view(), id);
                let orig = old(self).items_view()[i];
                &&& 0 <= i < old(self).items_view().len()
                &&& final(self).items_view() == old(self).items_view().update(i, t)
                &&& t.id == id
                &&& t.list_id == orig.list_id
                &&& t.content == (if data.content is Some {
                    data.content->0
                } else {
                    orig.content
                })
                &&& t.checked == (if data.checked is Some {
                    data.checked->0
                } else {
                    orig.checked
                })
                &&& t.position == (if data.position is Some {
                    data.position->0
                } else {
                    orig.position
                })
                &&& t.created_at == orig.created_at
                &&& t.updated_at == now
            }),
    {
        if data.content.is_none() && data.checked.is_none() && data.position.is_none() {
            return self.find_item_by_id(id, list_id);
        }
        let ghost oitems = self.items@;
        proof {
            assert(oitems.skip(0) =~= oitems);
        }
        let mut i: usize = 0;
        while i < self.items.len()
            invariant
                0 <= i <= oitems.len(),
                self.items@ == oitems,
                *self == *old(self),
                old(self).wf(),
                !(data.content is None && data.checked is None && data.position is None),
                find_item(oitems, id) == find_item(oitems.skip(i as int), id),
                item_index(oitems, id) == i + item_index(oitems.skip(i as int), id),
            decreases oitems.len() - i,
        {
            proof {
                assert(oitems.skip(i as int).drop_first() =~= oitems.skip(i + 1));
            }
            if self.items[i].id == id {
                if self.items[i].list_id != list_id {
                    return None;
                }
                let old_t = &self.items[i];
                let t = ListItem {
                    id: old_t.id,
                    list_id: old_t.list_id,
                    content: match &data.content {
                        Some(c) => c.clone(),
                        None => old_t.content.clone(),
                    },
                    checked: match data.checked {
                        Some(c) => c,
                        None => old_t.checked,
                    },
                    position: match data.position {
                        Some(p) => p,
                        None => old_t.position,
                    },
                    created_at: old_t.created_at,
                    updated_at: now,
                };
                let r = t.clone();
                self.items.set(i, t);
                return Some(r);
            }
            i = i + 1;
        }
        None
    }

    /// Removes an item, addressed by id and list; removing an absent item
    /// changes nothing.
    pub fn delete_item(&mut self, id: u64, list_id: u64)
        requires
            old(self).wf(),
        ensures
            final(self).wf(),
            final(self).lists_view() == old(self).lists_view(),
            find_item(old(self).items_view(), id) matches Some(t) && t.list_id == list_id ==>
                final(self).items_view() == old(self).items_view().remove(
                item_index(old(self).items_view(), id),
            ),
            !(find_item(old(self).items_view(), id) matches Some(t) && t.list_id == list_id) ==>
                final(self).items_view() == old(self).items_view(),
    {
        let ghost oitems = self.items@;
        proof {
            assert(oitems.skip(0) =~= oitems);
        }
        let mut i: usize = 0;
        while i < self.items.len()
            invariant
                0 <= i <= oitems.len(),
                self.items@ == oitems,
                *self == *old(self),
                old(self).wf(),
                find_item(oitems, id) == find_item(oitems.skip(i as int), id),
                item_index(oitems, id) == i + item_index(oitems.skip(i as int), id),
            decreases oitems.len() - i,
        {
            proof {
                assert(oitems.skip(i as int).drop_first() =~= oitems.skip(i + 1));
            }
            if self.items[i].id == id {
                if self.items[i].list_id == list_id {
                    self.items.remove(i);
                    proof {
                        lemma_remove_keeps_item_ids(oitems, i as int);
                    }
                }
                return ;
            }
            i = i + 1;
        }
    }

    /// The page a list belongs to, if the list exists.
    pub fn get_page_id_for_list(&self, list_id: u64) -> (r: Option<u64>)
        requires
            self.wf(),
        ensures
            r == (match find_list(self.lists_view(), list_id) {
                Some(l) => Some(l.page_id),
                None => None,
            }),
    {
        match self.list_pos_of(list_id) {
            Some(i) => Some(self.lists[i].page_id),
            None => None,
        }
    }
}

/// Relates a list find to the indexed element.
pub proof fn lemma_find_list_index(s: Seq<List>, id: u64)
    ensures
        find_list(s, id) is Some ==> {
            let i = list_index(s, id);
            &&& 0 <= i < s.len()
            &&& s[i] == find_list(s, id)->0
            &&& s[i].id == id
        },
        find_list(s, id) is None ==> list_index(s, id) == s.len(),
    decreases s.len(),
{
    if s.len() == 0 {
    } else if s[0].id == id {
    } else {
        let t = s.drop_first();
        lemma_find_list_index(t, id);
        assert(forall|k: int| 0 <= k < t.len() ==> t[k] == s[k + 1]);
        if find_list(t, id) is Some {
            let i = list_index(s, id);
            assert(s[i] == t[i - 1]);
        }
    }
}

/// Relates an item find to the indexed element.
pub proof fn lemma_find_item_index(s: Seq<ListItem>, id: u64)
    ensures
        find_item(s, id) is Some ==> {
            let i = item_index(s, id);
            &&& 0 <= i < s.len()
            &&& s[i] == find_item(s, id)->0
            &&& s[i].id == id
        },
        find_item(s, id) is None ==> item_index(s, id) == s.len(),
    decreases s.len(),
{
    if s.len() == 0 {
    } else if s[0].id == id {
    } else {
        let t = s.drop_first();
        lemma_find_item_index(t, id);
        assert(forall|k: int| 0 <= k < t.len() ==> t[k] == s[k + 1]);
        if find_item(t, id) is Some {
            let i = item_index(s, id);
            assert(s[i] == t[i - 1]);
        }
    }
}

/// An id at or above every stored list id is not found.
proof fn lemma_find_list_fresh(s: Seq<List>, id: u64)
    requires
        forall|i: int| 0 <= i < s.len() ==> s[i].id < id,
    ensures
        find_list(s, id) is None,
    decreases s.len(),
{
    if s.len() > 0 {
        assert(forall|i: int| 0 <= i < s.drop_first().len() ==> s.drop_first()[i] == s[i + 1]);
        lemma_find_list_fresh(s.drop_first(), id);
    }
}

/// An id at or above every stored item id is not found.
proof fn lemma_find_item_fresh(s: Seq<ListItem>, id: u64)
    requires
        forall|i: int| 0 <= i < s.len() ==> s[i].id < id,
    ensures
        find_item(s, id) is None,
    decreases s.len(),
{
    if s.len() > 0 {
        assert(forall|i: int| 0 <= i < s.drop_first().len() ==> s.drop_first()[i] == s[i + 1]);
        lemma_find_item_fresh(s.drop_first(), id);
    }
}

/// Removing one list keeps list ids unique.
proof fn lemma_remove_keeps_list_ids(s: Seq<List>, i: int)
    requires
        0 <= i < s.len(),
        forall|a: int, b: int| 0 <= a < b < s.len() ==> s[a].id != s[b].id,
    ensures
        forall|a: int, b: int|
            0 <= a < b < s.remove(i).len() ==> s.remove(i)[a].id != s.remove(i)[b].id,
{
    let t = s.remove(i);
    assert forall|a: int, b: int| 0 <= a < b < t.len() implies t[a].id != t[b].id by {
        let oa = if a < i {
            a
        } else {
            a + 1
        };
        let ob = if b < i {
            b
        } else {
            b + 1
        };
        assert(t[a] == s[oa]);
        assert(t[b] == s[ob]);
    }
}

/// Removing one item keeps item ids unique.
proof fn lemma_remove_keeps_item_ids(s: Seq<ListItem>, i: int)
    requires
        0 <= i < s.len(),
        forall|a: int, b: int| 0 <= a < b < s.len() ==> s[a].id != s[b].id,
    ensures
        forall|a: int, b: int|
            0 <= a < b < s.remove(i).len() ==> s.remove(i)[a].id != s.remove(i)[b].id,
{
    let t = s.remove(i);
    assert forall|a: int, b: int| 0 <= a < b < t.len() implies t[a].id != t[b].id by {
        let oa = if a < i {
            a
        } else {
            a + 1
        };
        let ob = if b < i {
            b
        } else {
            b + 1
        };
        assert(t[a] == s[oa]);
        assert(t[b] == s[ob]);
    }
}

/// What a list delete keeps: item ids stay unique, every kept item comes
/// from the original store, and none belongs to the deleted list.
proof fn lemma_without_list_wf(s: Seq<ListItem>, list_id: u64)
    requires
        forall|a: int, b: int| 0 <= a < b < s.len() ==> s[a].id != s[b].id,
    ensures
        forall|k: int|
            #![trigger items_without_list(s, list_id)[k]]
            0 <= k < items_without_list(s, list_id).len() ==> exists|j: int|
                #![auto]
                0 <= j < s.len() && items_without_list(s, list_id)[k] == s[j],
        forall|a: int, b: int|
            0 <= a < b < items_without_list(s, list_id).len() ==> items_without_list(
                s,
                list_id,
            )[a].id != items_without_list(s, list_id)[b].id,
        forall|k: int|
            0 <= k < items_without_list(s, list_id).len() ==> (#[trigger] items_without_list(
                s,
                list_id,
            )[k]).list_id != list_id,
    decreases s.len(),
{
    if s.len() > 0 {
        let t = s.drop_last();
        assert(forall|k: int| 0 <= k < t.len() ==> t[k] == s[k]);
        lemma_without_list_wf(t, list_id);
        let wt = items_without_list(t, list_id);
        let w = items_without_list(s, list_id);
        assert forall|k: int| #![trigger wt[k]] 0 <= k < wt.len() implies exists|j: int|
            #![auto]
            0 <= j < s.len() && wt[k] == s[j] by {
            let j = choose|j: int| #![auto] 0 <= j < t.len() && wt[k] == t[j];
            assert(wt[k] == s[j]);
        }
        if s.last().list_id == list_id {
            assert(w == wt);
        } else {
            assert(w == wt.push(s.last()));
            assert forall|k: int| 0 <= k < wt.len() implies wt[k].id != s.last().id by {
                let j = choose|j: int| #![auto] 0 <= j < s.len() && wt[k] == s[j];
                assert(s[j].id != s[s.len() - 1].id);
            }
            assert forall|k: int| #![trigger w[k]] 0 <= k < w.len() implies exists|j: int|
                #![auto]
                0 <= j < s.len() && w[k] == s[j] by {
                if k < wt.len() {
                    let j = choose|j: int| #![auto] 0 <= j < s.len() && wt[k] == s[j];
                    assert(w[k] == s[j]);
                } else {
                    assert(w[k] == s[s.len() - 1]);
                }
            }
        }
    }
}

} // verus!
