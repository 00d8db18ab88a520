use listshare::error::AppError;
use listshare::models::CreateUser;
use listshare::routes_users::{
    get_current_user, search_users, update_current_user, SearchQuery, UpdateUserRequest,
};
use listshare::user_repo::UserRepository;

fn make_user(
    repo: &mut UserRepository,
    twitch_id: &str,
    username: &str,
    display_name: Option<&str>,
) -> listshare::models::User {
    repo.create(
        CreateUser {
            twitch_id: twitch_id.to_string(),
            username: username.to_string(),
            display_name: display_name.map(|d| d.to_string()),
            profile_image_url: None,
            email: None,
        },
        1000,
    )
}

#[test]
fn test_create_find_update_search_user() {
    let mut repo = UserRepository::new();

    let user = repo.create(
        CreateUser {
            twitch_id: "t123".to_string(),
            username: "tester".to_string(),
            display_name: Some("Test User".to_string()),
            profile_image_url: None,
            email: Some("test@example.com".to_string()),
        },
        1000,
    );
    assert_eq!(user.twitch_id, "t123");
    assert_eq!(user.username, "tester");

    let found = repo.find_by_twitch_id("t123").expect("user should be found");
    assert_eq!(found.id, user.id);

    let updated = repo
        .update_twitch_info("t123", "tester2", "Tester 2", "http://image", None, 1001)
        .expect("user exists");
    assert_eq!(updated.username, "tester2");
    assert_eq!(updated.display_name.as_deref(), Some("Tester 2"));

    let results = repo.search("tester2", user.id);
    assert!(results.is_empty());
}

#[test]
fn test_search_users() {
    let mut repo = UserRepository::new();
    let caller = make_user(&mut repo, "tw0", "caller", None);
    make_user(&mut repo, "tw1", "alice", Some("Alice"));
    let bob = make_user(&mut repo, "tw2", "bob", Some("Bob"));
    make_user(&mut repo, "tw3", "charlie", Some("Charlie"));

    let hits = search_users(&repo, caller.id, &SearchQuery { q: "bob".to_string() });
    assert_eq!(hits.len(), 1);
    assert_eq!(hits[0].id, bob.id);
    assert_eq!(hits[0].username, "bob");

    let short = search_users(&repo, caller.id, &SearchQuery { q: "a".to_string() });
    assert!(short.is_empty());

    let by_display = search_users(&repo, caller.id, &SearchQuery { q: "CHARL".to_string() });
    assert_eq!(by_display.len(), 1);
    assert_eq!(by_display[0].username, "charlie");
}

#[test]
fn test_search_excludes_caller_and_limits_to_ten() {
    let mut repo = UserRepository::new();
    let caller = make_user(&mut repo, "twc", "sharedname", None);
    for i in 0..12 {
        make_user(&mut repo, &format!("twx{}", i), &format!("sharedname{}", i), None);
    }
    let hits = search_users(&repo, caller.id, &SearchQuery { q: "sharedname".to_string() });
    assert_eq!(hits.len(), 10);
    assert!(hits.iter().all(|u| u.id != caller.id));
}

#[test]
fn test_get_current_user() {
    let mut repo = UserRepository::new();
    let user = repo.create(
        CreateUser {
            twitch_id: "tw1".to_string(),
            username: "testuser".to_string(),
            display_name: Some("Test User".to_string()),
            profile_image_url: Some("http://image.url".to_string()),
            email: Some("test@example.com".to_string()),
        },
        1000,
    );

    let me = get_current_user(&repo, user.id).unwrap();
    assert_eq!(me.username, "testuser");
    assert_eq!(me.email.as_deref(), Some("test@example.com"));

    assert!(matches!(get_current_user(&repo, user.id + 1), Err(AppError::NotFound)));
}

#[test]
fn test_update_current_user() {
    let mut repo = UserRepository::new();
    let user = make_user(&mut repo, "tw1", "oldname", Some("Old Name"));

    let updated = update_current_user(
        &mut repo,
        user.id,
        UpdateUserRequest {
            username: Some("newname".to_string()),
            display_name: Some("New Name".to_string()),
            profile_image_url: None,
            email: Some("new@example.com".to_string()),
        },
        2000,
    )
    .unwrap();
    assert_eq!(updated.username, "newname");
    assert_eq!(updated.display_name.as_deref(), Some("New Name"));
    assert_eq!(updated.email.as_deref(), Some("new@example.com"));
    assert_eq!(updated.updated_at, 2000);
}

#[test]
fn test_update_user_validation_json() {
    let mut repo = UserRepository::new();
    let user = make_user(&mut repo, "tw1", "validuser", Some("Old Name"));

    let err = update_current_user(
        &mut repo,
        user.id,
        UpdateUserRequest {
            username: Some("x!".to_string()),
            display_name: None,
            profile_image_url: None,
            email: None,
        },
        2000,
    )
    .unwrap_err();
    match err {
        AppError::Validation(fields) => {
            assert_eq!(fields.len(), 1);
            assert_eq!(fields[0].field, "username");
        },
        _ => panic!("expected a validation error"),
    }
    let unchanged = get_current_user(&repo, user.id).unwrap();
    assert_eq!(unchanged.username, "validuser");
}
