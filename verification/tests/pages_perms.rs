use listshare::error::AppError;
use listshare::models::{CreatePage, CreateUser, GrantPermission, SetPublicSlug, UpdatePage,
    UpdatePermission};
use listshare::page_repo::PageRepository;
use listshare::routes_pages as pages_api;
use listshare::user_repo::UserRepository;

fn make_user(repo: &mut UserRepository, twitch_id: &str, username: &str) -> listshare::models::User {
    repo.create(
        CreateUser {
            twitch_id: twitch_id.to_string(),
            username: username.to_string(),
            display_name: None,
            profile_image_url: None,
            email: None,
        },
        1000,
    )
}

#[test]
fn test_page_lifecycle_and_permissions() {
    let mut users = UserRepository::new();
    let mut pages = PageRepository::new();

    let creator = make_user(&mut users, "c1", "creator");
    let other = make_user(&mut users, "u2", "other");

    let page = pages
        .create(
            creator.id,
            CreatePage { title: "Page 1".to_string(), description: Some("Desc".to_string()) },
            1000,
        )
        .unwrap();
    assert_eq!(page.title, "Page 1");

    let page = pages.set_public_slug(page.id, Some("slug-1".to_string()), 1001).unwrap();
    assert_eq!(page.public_slug.as_deref(), Some("slug-1"));

    let perm = pages.grant_permission(page.id, other.id, true, creator.id, 1002).unwrap();
    assert_eq!(perm.user_id, other.id);
    assert!(perm.can_edit);

    let perms = pages.get_permissions(page.id, &users).unwrap();
    assert_eq!(perms.len(), 1);
    assert_eq!(perms[0].user.id, other.id);

    assert!(pages.check_access(page.id, creator.id));
    assert!(pages.check_access(page.id, other.id));
    assert!(pages.check_edit_permission(page.id, other.id));

    let updated_perm = pages
        .update_permission(page.id, perm.id, false)
        .expect("permission should exist");
    assert!(!updated_perm.can_edit);
    assert!(!pages.check_edit_permission(page.id, other.id));

    pages.revoke_permission(page.id, perm.id);
    assert!(!pages.check_access(page.id, other.id));
}

#[test]
fn test_create_and_list_pages() {
    let mut users = UserRepository::new();
    let mut pages = PageRepository::new();
    let user = make_user(&mut users, "tw1", "user1");

    let created = pages_api::create_page(
        &mut pages,
        user.id,
        CreatePage {
            title: "Test Page".to_string(),
            description: Some("A test page".to_string()),
        },
        1000,
    )
    .unwrap();
    assert_eq!(created.title, "Test Page");
    assert_eq!(created.description.as_deref(), Some("A test page"));

    let listing = pages_api::list_pages(&pages, user.id);
    assert_eq!(listing.len(), 1);
    assert!(listing[0].is_creator);
    assert!(listing[0].can_edit);
    assert_eq!(listing[0].page.id, created.id);
}

#[test]
fn test_update_and_delete_page() {
    let mut users = UserRepository::new();
    let mut pages = PageRepository::new();
    let user = make_user(&mut users, "tw2", "user2");

    let page = pages_api::create_page(
        &mut pages,
        user.id,
        CreatePage { title: "Original".to_string(), description: None },
        1000,
    )
    .unwrap();

    let updated = pages_api::update_page(
        &mut pages,
        user.id,
        page.id,
        UpdatePage { title: Some("Updated Title".to_string()), description: None },
        1001,
    )
    .unwrap();
    assert_eq!(updated.title, "Updated Title");

    pages_api::delete_page(&mut pages, user.id, page.id).unwrap();
    assert!(pages.find_by_id(page.id).is_none());
    assert!(matches!(
        pages_api::update_page(
            &mut pages,
            user.id,
            page.id,
            UpdatePage { title: Some("X".to_string()), description: None },
            1002,
        ),
        Err(AppError::Forbidden)
    ));
}

#[test]
fn test_set_public_slug() {
    let mut users = UserRepository::new();
    let mut pages = PageRepository::new();
    let user = make_user(&mut users, "tw3", "user3");

    let page = pages_api::create_page(
        &mut pages,
        user.id,
        CreatePage { title: "Public Page".to_string(), description: None },
        1000,
    )
    .unwrap();

    let with_slug = pages_api::set_public_slug(
        &mut pages,
        user.id,
        page.id,
        SetPublicSlug { public_slug: Some("my-public-page".to_string()) },
        1001,
    )
    .unwrap();
    assert_eq!(with_slug.public_slug.as_deref(), Some("my-public-page"));

    let bad = pages_api::set_public_slug(
        &mut pages,
        user.id,
        page.id,
        SetPublicSlug { public_slug: Some("INVALID_SLUG".to_string()) },
        1002,
    );
    assert!(matches!(bad, Err(AppError::Validation(_))));

    let cleared = pages_api::set_public_slug(
        &mut pages,
        user.id,
        page.id,
        SetPublicSlug { public_slug: None },
        1003,
    )
    .unwrap();
    assert!(cleared.public_slug.is_none());
}

#[test]
fn test_slug_conflict_is_bad_request() {
    let mut users = UserRepository::new();
    let mut pages = PageRepository::new();
    let user = make_user(&mut users, "tw4", "user4");

    let p1 = pages
        .create(user.id, CreatePage { title: "One".to_string(), description: None }, 1000)
        .unwrap();
    let p2 = pages
        .create(user.id, CreatePage { title: "Two".to_string(), description: None }, 1000)
        .unwrap();
    pages.set_public_slug(p1.id, Some("taken".to_string()), 1001).unwrap();

    let conflict = pages_api::set_public_slug(
        &mut pages,
        user.id,
        p2.id,
        SetPublicSlug { public_slug: Some("taken".to_string()) },
        1002,
    );
    match conflict {
        Err(AppError::BadRequest(msg)) => assert_eq!(msg, "This slug is already in use"),
        _ => panic!("expected a bad request"),
    }
}

#[test]
fn test_create_page_validation_json() {
    let mut users = UserRepository::new();
    let mut pages = PageRepository::new();
    let user = make_user(&mut users, "twv", "userv");

    let err = pages_api::create_page(
        &mut pages,
        user.id,
        CreatePage { title: "".to_string(), description: Some("A test page".to_string()) },
        1000,
    )
    .unwrap_err();
    match err {
        AppError::Validation(fields) => {
            assert_eq!(fields.len(), 1);
            assert_eq!(fields[0].field, "title");
            assert!(fields[0].message.starts_with("Title must be between"));
        },
        _ => panic!("expected a validation error"),
    }
    assert_eq!(pages_api::list_pages(&pages, user.id).len(), 0);
}

#[test]
fn test_permissions_workflow() {
    let mut users = UserRepository::new();
    let mut pages = PageRepository::new();
    let owner = make_user(&mut users, "c9", "owner");
    let other = make_user(&mut users, "u9", "other");

    let page = pages_api::create_page(
        &mut pages,
        owner.id,
        CreatePage { title: "Shared Page".to_string(), description: None },
        1000,
    )
    .unwrap();

    let granted = pages_api::grant_permission(
        &mut pages,
        &users,
        owner.id,
        page.id,
        GrantPermission { user_id: other.id, can_edit: false },
        1001,
    )
    .unwrap();
    assert_eq!(granted.permission.user_id, other.id);
    assert!(!granted.permission.can_edit);
    assert_eq!(granted.user.id, other.id);

    let listed = pages_api::list_permissions(&pages, &users, owner.id, page.id).unwrap();
    assert_eq!(listed.len(), 1);

    let updated = pages_api::update_permission(
        &mut pages,
        &users,
        owner.id,
        page.id,
        granted.permission.id,
        UpdatePermission { can_edit: true },
    )
    .unwrap();
    assert!(updated.permission.can_edit);

    pages_api::revoke_permission(&mut pages, owner.id, page.id, granted.permission.id).unwrap();
    assert_eq!(pages_api::list_permissions(&pages, &users, owner.id, page.id).unwrap().len(), 0);

    assert!(matches!(
        pages_api::list_permissions(&pages, &users, other.id, page.id),
        Err(AppError::Forbidden)
    ));
}

#[test]
fn test_second_grant_for_same_pair_is_bad_request() {
    let mut users = UserRepository::new();
    let mut pages = PageRepository::new();
    let owner = make_user(&mut users, "cA", "ownera");
    let other = make_user(&mut users, "uA", "othera");

    let page = pages
        .create(owner.id, CreatePage { title: "P".to_string(), description: None }, 1000)
        .unwrap();
    pages.grant_permission(page.id, other.id, false, owner.id, 1001).unwrap();

    let second = pages.grant_permission(page.id, other.id, true, owner.id, 1002);
    match second {
        Err(AppError::BadRequest(msg)) => assert_eq!(msg, "Permission already exists"),
        _ => panic!("expected a bad request"),
    }
    let perms = pages.get_permissions(page.id, &users).unwrap();
    assert_eq!(perms.len(), 1);
    assert!(!perms[0].permission.can_edit);
}

#[test]
fn test_revoking_permission_removes_read_access() {
    let mut users = UserRepository::new();
    let mut pages = PageRepository::new();
    let owner = make_user(&mut users, "cB", "ownerb");
    let other = make_user(&mut users, "uB", "otherb");

    let page = pages
        .create(owner.id, CreatePage { title: "P".to_string(), description: None }, 1000)
        .unwrap();
    let perm = pages.grant_permission(page.id, other.id, true, owner.id, 1001).unwrap();
    assert!(pages.check_access(page.id, other.id));

    pages.revoke_permission(page.id, perm.id);
    assert!(!pages.check_access(page.id, other.id));
    assert!(pages.check_access(page.id, owner.id));
}

#[test]
fn test_list_for_user_orders_own_pages_newest_first() {
    let mut users = UserRepository::new();
    let mut pages = PageRepository::new();
    let me = make_user(&mut users, "cO", "orderuser");
    let friend = make_user(&mut users, "uO", "orderfriend");

    let p1 = pages
        .create(me.id, CreatePage { title: "first".to_string(), description: None }, 1000)
        .unwrap();
    let p2 = pages
        .create(me.id, CreatePage { title: "second".to_string(), description: None }, 1001)
        .unwrap();
    let shared = pages
        .create(friend.id, CreatePage { title: "theirs".to_string(), description: None }, 1002)
        .unwrap();
    pages.grant_permission(shared.id, me.id, false, friend.id, 1003).unwrap();

    let listing = pages.list_for_user(me.id);
    assert_eq!(listing.len(), 3);
    assert_eq!(listing[0].page.id, p2.id);
    assert!(listing[0].is_creator);
    assert_eq!(listing[1].page.id, p1.id);
    assert_eq!(listing[2].page.id, shared.id);
    assert!(!listing[2].is_creator);
    assert!(!listing[2].can_edit);
}

#[test]
fn test_listing_fails_when_a_granted_user_is_missing() {
    let mut users = UserRepository::new();
    let mut pages = PageRepository::new();
    let owner = make_user(&mut users, "cC", "ownerc");

    let page = pages
        .create(owner.id, CreatePage { title: "P".to_string(), description: None }, 1000)
        .unwrap();
    pages.grant_permission(page.id, 999, false, owner.id, 1001).unwrap();

    let r = pages_api::list_permissions(&pages, &users, owner.id, page.id);
    assert!(matches!(r, Err(AppError::Database(_))));
}
