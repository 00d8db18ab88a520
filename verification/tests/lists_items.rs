use listshare::error::AppError;
use listshare::list_repo::ListRepository;
use listshare::models::{
    CreateList, CreateListItem, CreatePage, CreateUser, UpdateList, UpdateListItem,
};
use listshare::page_repo::PageRepository;
use listshare::routes_lists as lists_api;
use listshare::user_repo::UserRepository;

fn make_user(repo: &mut UserRepository, twitch_id: &str, username: &str) -> listshare::models::User {
    repo.create(
        CreateUser {
            twitch_id: twitch_id.to_string(),
            username: username.to_string(),
            display_name: None,
            profile_image_url: None,
            email: None,
        },
        1000,
    )
}

fn new_list(title: &str) -> CreateList {
    CreateList {
        title: title.to_string(),
        position: None,
        show_checkboxes: None,
        show_progress: None,
    }
}

#[test]
fn test_list_and_items_crud() {
    let mut lists = ListRepository::new();

    let list = lists.create_list(1, new_list("L"), 1000).unwrap();
    let updated = lists
        .update_list(
            list.id,
            1,
            UpdateList {
                title: Some("L2-new".to_string()),
                position: None,
                show_checkboxes: None,
                show_progress: None,
            },
            1001,
        )
        .expect("list exists");
    assert_eq!(updated.title, "L2-new");

    let item = lists
        .create_item(list.id, CreateListItem { content: "a".to_string(), position: None }, 1002)
        .unwrap();
    assert!(!item.checked);
    assert_eq!(item.position, 0);

    let updated_item = lists
        .update_item(
            item.id,
            list.id,
            UpdateListItem {
                content: Some("a-up".to_string()),
                checked: Some(true),
                position: None,
            },
            1003,
        )
        .expect("item exists");
    assert_eq!(updated_item.content, "a-up");
    assert!(updated_item.checked);

    let items = lists.list_items_by_list_id(list.id);
    assert_eq!(items.len(), 1);

    lists.delete_item(item.id, list.id);
    assert_eq!(lists.list_items_by_list_id(list.id).len(), 0);

    lists.delete_list(list.id, 1);
    assert!(lists.find_by_id(list.id, 1).is_none());
}

#[test]
fn test_positions_order_lists_and_ties_keep_creation_order() {
    let mut lists = ListRepository::new();
    let a = lists
        .create_list(
            1,
            CreateList {
                title: "a".to_string(),
                position: Some(5),
                show_checkboxes: None,
                show_progress: None,
            },
            1000,
        )
        .unwrap();
    let b = lists
        .create_list(
            1,
            CreateList {
                title: "b".to_string(),
                position: Some(1),
                show_checkboxes: None,
                show_progress: None,
            },
            1001,
        )
        .unwrap();
    let c = lists
        .create_list(
            1,
            CreateList {
                title: "c".to_string(),
                position: Some(5),
                show_checkboxes: None,
                show_progress: None,
            },
            1002,
        )
        .unwrap();
    let ordered = lists.list_by_page_id(1);
    let ids: Vec<u64> = ordered.iter().map(|l| l.id).collect();
    assert_eq!(ids, vec![b.id, a.id, c.id]);
}

#[test]
fn test_default_position_appends() {
    let mut lists = ListRepository::new();
    let first = lists.create_list(1, new_list("one"), 1000).unwrap();
    let second = lists.create_list(1, new_list("two"), 1001).unwrap();
    assert_eq!(first.position, 0);
    assert_eq!(second.position, 1);
    let item1 = lists
        .create_item(first.id, CreateListItem { content: "i1".to_string(), position: None }, 1002)
        .unwrap();
    let item2 = lists
        .create_item(first.id, CreateListItem { content: "i2".to_string(), position: None }, 1003)
        .unwrap();
    assert_eq!(item1.position, 0);
    assert_eq!(item2.position, 1);
}

#[test]
fn test_create_and_list_lists() {
    let mut users = UserRepository::new();
    let mut pages = PageRepository::new();
    let mut lists = ListRepository::new();
    let user = make_user(&mut users, "tw1", "user1");
    let page = pages
        .create(user.id, CreatePage { title: "Test Page".to_string(), description: None }, 1000)
        .unwrap();

    let created = lists_api::create_list(
        &mut lists,
        &pages,
        user.id,
        page.id,
        new_list("Shopping List"),
        1001,
    )
    .unwrap();
    assert_eq!(created.title, "Shopping List");
    assert_eq!(created.position, 0);

    let listing = lists_api::list_lists(&lists, &pages, user.id, page.id).unwrap();
    assert_eq!(listing.len(), 1);
    assert_eq!(listing[0].title, "Shopping List");
}

#[test]
fn test_update_and_delete_list() {
    let mut users = UserRepository::new();
    let mut pages = PageRepository::new();
    let mut lists = ListRepository::new();
    let user = make_user(&mut users, "tw2", "user2");
    let page = pages
        .create(user.id, CreatePage { title: "Page".to_string(), description: None }, 1000)
        .unwrap();
    let list = lists_api::create_list(
        &mut lists,
        &pages,
        user.id,
        page.id,
        new_list("Old Title"),
        1001,
    )
    .unwrap();

    let updated = lists_api::update_list(
        &mut lists,
        &pages,
        user.id,
        page.id,
        list.id,
        UpdateList {
            title: Some("New Title".to_string()),
            position: None,
            show_checkboxes: None,
            show_progress: None,
        },
        1002,
    )
    .unwrap();
    assert_eq!(updated.title, "New Title");

    lists_api::delete_list(&mut lists, &pages, user.id, page.id, list.id).unwrap();
    assert_eq!(lists_api::list_lists(&lists, &pages, user.id, page.id).unwrap().len(), 0);
}

#[test]
fn test_items_crud() {
    let mut users = UserRepository::new();
    let mut pages = PageRepository::new();
    let mut lists = ListRepository::new();
    let user = make_user(&mut users, "tw3", "user3");
    let page = pages
        .create(user.id, CreatePage { title: "Page".to_string(), description: None }, 1000)
        .unwrap();
    let list =
        lists_api::create_list(&mut lists, &pages, user.id, page.id, new_list("List"), 1001)
            .unwrap();

    let item = lists_api::create_item(
        &mut lists,
        &pages,
        user.id,
        list.id,
        CreateListItem { content: "Buy milk".to_string(), position: None },
        1002,
    )
    .unwrap();
    assert_eq!(item.content, "Buy milk");
    assert!(!item.checked);

    let fetched = lists_api::get_item(&lists, &pages, user.id, list.id, item.id).unwrap();
    assert_eq!(fetched.content, "Buy milk");

    let updated = lists_api::update_item(
        &mut lists,
        &pages,
        user.id,
        list.id,
        item.id,
        UpdateListItem {
            content: Some("Buy bread".to_string()),
            checked: Some(true),
            position: None,
        },
        1003,
    )
    .unwrap();
    assert_eq!(updated.content, "Buy bread");
    assert!(updated.checked);

    let items = lists_api::list_items(&lists, &pages, user.id, list.id).unwrap();
    assert_eq!(items.len(), 1);

    lists_api::delete_item(&mut lists, &pages, user.id, list.id, item.id).unwrap();
    assert_eq!(lists_api::list_items(&lists, &pages, user.id, list.id).unwrap().len(), 0);
}

#[test]
fn test_access_control() {
    let mut users = UserRepository::new();
    let mut pages = PageRepository::new();
    let mut lists = ListRepository::new();
    let owner = make_user(&mut users, "c1", "owner");
    let other = make_user(&mut users, "u1", "other");
    let page = pages
        .create(
            owner.id,
            CreatePage { title: "Private Page".to_string(), description: None },
            1000,
        )
        .unwrap();
    lists_api::create_list(&mut lists, &pages, owner.id, page.id, new_list("List"), 1001)
        .unwrap();

    let denied = lists_api::list_lists(&lists, &pages, other.id, page.id);
    assert!(matches!(denied, Err(AppError::Forbidden)));
}

#[test]
fn test_nested_permission_scenario() {
    let mut users = UserRepository::new();
    let mut pages = PageRepository::new();
    let mut lists = ListRepository::new();
    let u1 = make_user(&mut users, "s1", "scenario1");
    let u2 = make_user(&mut users, "s2", "scenario2");

    let page = pages
        .create(u1.id, CreatePage { title: "P".to_string(), description: None }, 1000)
        .unwrap();
    let list = lists_api::create_list(&mut lists, &pages, u1.id, page.id, new_list("L"), 1001)
        .unwrap();
    lists_api::create_item(
        &mut lists,
        &pages,
        u1.id,
        list.id,
        CreateListItem { content: "I".to_string(), position: None },
        1002,
    )
    .unwrap();

    assert!(matches!(
        lists_api::list_lists(&lists, &pages, u2.id, page.id),
        Err(AppError::Forbidden)
    ));

    let perm = pages.grant_permission(page.id, u2.id, false, u1.id, 1003).unwrap();
    assert!(lists_api::list_lists(&lists, &pages, u2.id, page.id).is_ok());
    assert!(matches!(
        lists_api::create_list(&mut lists, &pages, u2.id, page.id, new_list("M"), 1004),
        Err(AppError::Forbidden)
    ));
    assert!(matches!(
        lists_api::create_item(
            &mut lists,
            &pages,
            u2.id,
            list.id,
            CreateListItem { content: "J".to_string(), position: None },
            1005,
        ),
        Err(AppError::Forbidden)
    ));

    pages.update_permission(page.id, perm.id, true).unwrap();
    assert!(
        lists_api::create_list(&mut lists, &pages, u2.id, page.id, new_list("M"), 1006).is_ok()
    );

    pages.revoke_permission(page.id, perm.id);
    assert!(matches!(
        lists_api::list_lists(&lists, &pages, u2.id, page.id),
        Err(AppError::Forbidden)
    ));
}

#[test]
fn test_missing_list_is_not_found_not_forbidden() {
    let mut users = UserRepository::new();
    let pages = PageRepository::new();
    let mut lists = ListRepository::new();
    let user = make_user(&mut users, "nf", "nfuser");

    let r = lists_api::list_items(&lists, &pages, user.id, 999);
    assert!(matches!(r, Err(AppError::NotFound)));
    let r = lists_api::create_item(
        &mut lists,
        &pages,
        user.id,
        999,
        CreateListItem { content: "x".to_string(), position: None },
        1000,
    );
    assert!(matches!(r, Err(AppError::NotFound)));
}
