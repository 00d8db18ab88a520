use listshare::auth_flow::{build_auth_cookie, build_logout_cookie};
use listshare::config::Config;
use listshare::error::AppError;
use listshare::list_repo::ListRepository;
use listshare::models::{CreateList, CreateListItem, CreatePage, CreateUser};
use listshare::page_repo::PageRepository;
use listshare::routes_auth::{build_authorize_url, percent_encode};
use listshare::routes_public::get_public_page;
use listshare::user_repo::UserRepository;
use listshare::validators::{
    trim, validate_api_key_name, validate_description, validate_display_name,
    validate_item_content, validate_public_slug, validate_title, validate_username,
};

#[test]
fn test_get_public_page_route() {
    let mut users = UserRepository::new();
    let mut pages = PageRepository::new();
    let mut lists = ListRepository::new();

    let creator = users.create(
        CreateUser {
            twitch_id: "pub1".to_string(),
            username: "pubuser".to_string(),
            display_name: None,
            profile_image_url: None,
            email: None,
        },
        1000,
    );

    let page = pages
        .create(creator.id, CreatePage { title: "PubPage".to_string(), description: None }, 1000)
        .unwrap();
    pages.set_public_slug(page.id, Some("public-slug".to_string()), 1001).unwrap();

    let list = lists
        .create_list(
            page.id,
            CreateList {
                title: "L".to_string(),
                position: None,
                show_checkboxes: None,
                show_progress: None,
            },
            1002,
        )
        .unwrap();
    lists
        .create_item(list.id, CreateListItem { content: "it1".to_string(), position: None }, 1003)
        .unwrap();

    let list2 = lists
        .create_list(
            page.id,
            CreateList {
                title: "Hidden Flags List".to_string(),
                position: None,
                show_checkboxes: Some(false),
                show_progress: Some(false),
            },
            1004,
        )
        .unwrap();
    lists
        .create_item(list2.id, CreateListItem { content: "it2".to_string(), position: None }, 1005)
        .unwrap();

    let data = get_public_page(&pages, &lists, "public-slug").unwrap();
    assert_eq!(data.page.public_slug.as_deref(), Some("public-slug"));
    assert_eq!(data.lists.len(), 2);
    assert_eq!(data.lists[0].items.len(), 1);
    assert_eq!(data.lists[1].items.len(), 1);
    assert!(data.lists[0].list.show_checkboxes);
    assert!(data.lists[0].list.show_progress);
    assert!(!data.lists[1].list.show_checkboxes);
    assert!(!data.lists[1].list.show_progress);
    assert_eq!(data.lists[1].list.title, "Hidden Flags List");

    let missing = get_public_page(&pages, &lists, "no-such-slug");
    assert!(matches!(missing, Err(AppError::NotFound)));
}

#[test]
fn test_trim_strips_surrounding_whitespace() {
    assert_eq!(trim("  hello  "), "hello");
    assert_eq!(trim("\t a b \n"), "a b");
    assert_eq!(trim(""), "");
    assert_eq!(trim("   "), "");
    assert_eq!(trim("x"), "x");
}

#[test]
fn test_validate_title_bounds() {
    assert_eq!(validate_title(" ok ").unwrap(), "ok");
    assert!(validate_title("").is_err());
    assert!(validate_title("   ").is_err());
    let long = "x".repeat(200);
    assert_eq!(validate_title(&long).unwrap(), long);
    let too_long = "x".repeat(201);
    assert!(validate_title(&too_long).is_err());
}

#[test]
fn test_validate_description_bounds() {
    assert_eq!(validate_description(&None).unwrap(), None);
    assert_eq!(
        validate_description(&Some(" d ".to_string())).unwrap(),
        Some("d".to_string())
    );
    let too_long = "x".repeat(2001);
    assert!(validate_description(&Some(too_long)).is_err());
}

#[test]
fn test_validate_item_content_bounds() {
    assert_eq!(validate_item_content(" milk ").unwrap(), "milk");
    assert!(validate_item_content("  ").is_err());
    let too_long = "x".repeat(2001);
    assert!(validate_item_content(&too_long).is_err());
}

#[test]
fn test_validate_username_rules() {
    assert_eq!(validate_username("Some.User-1_ok").unwrap(), "Some.User-1_ok");
    assert!(validate_username("ab").is_err());
    assert!(validate_username(&"x".repeat(33)).is_err());
    let err = validate_username("has space").unwrap_err();
    match err {
        AppError::Validation(fields) => {
            assert_eq!(fields[0].message, "Username contains invalid characters");
        },
        _ => panic!("expected a validation error"),
    }
}

#[test]
fn test_validate_display_name_bounds() {
    assert_eq!(validate_display_name(&None).unwrap(), None);
    assert!(validate_display_name(&Some("x".repeat(65))).is_err());
}

#[test]
fn test_validate_public_slug_rules() {
    assert_eq!(validate_public_slug("my-slug-1").unwrap(), "my-slug-1");
    assert!(validate_public_slug("ab").is_err());
    assert!(validate_public_slug("UPPER").is_err());
    assert!(validate_public_slug("with space").is_err());
    assert!(validate_public_slug(&"a".repeat(51)).is_err());
    assert_eq!(validate_public_slug(&"a".repeat(50)).unwrap(), "a".repeat(50));
}

#[test]
fn test_validate_api_key_name_bounds() {
    assert_eq!(validate_api_key_name(&None).unwrap(), None);
    assert_eq!(
        validate_api_key_name(&Some(" k ".to_string())).unwrap(),
        Some("k".to_string())
    );
    assert!(validate_api_key_name(&Some("x".repeat(101))).is_err());
}

#[test]
fn test_server_addr_formats_host_and_port() {
    let config = Config {
        database_url: "db".to_string(),
        server_host: "127.0.0.1".to_string(),
        server_port: 8080,
        jwt_secret: "secret".to_string(),
        twitch_client_id: "id".to_string(),
        twitch_client_secret: "cs".to_string(),
        twitch_redirect_uri: "http://localhost/callback".to_string(),
        frontend_url: "http://localhost:3000".to_string(),
    };
    assert_eq!(config.server_addr(), "127.0.0.1:8080");
    assert!(!listshare::config::frontend_is_https(&config.frontend_url));
    assert!(listshare::config::frontend_is_https("https://example.org"));
}

#[test]
fn test_percent_encoding() {
    assert_eq!(percent_encode("hello-1_2.3~x"), "hello-1_2.3~x");
    assert_eq!(
        percent_encode("http://127.0.0.1:3001/auth/callback"),
        "http%3A%2F%2F127.0.0.1%3A3001%2Fauth%2Fcallback"
    );
    assert_eq!(percent_encode("a b&c"), "a%20b%26c");
    assert_eq!(percent_encode("\u{00e4}"), "%C3%A4");
    assert_eq!(percent_encode(""), "");

    let url = build_authorize_url("cid", "http://h/cb");
    assert_eq!(
        url,
        "https://id.twitch.tv/oauth2/authorize?client_id=cid&redirect_uri=http%3A%2F%2Fh%2Fcb&response_type=code&scope=user:read:email"
    );
}

#[test]
fn test_auth_cookie_builders() {
    assert_eq!(
        build_auth_cookie("tok", true),
        "auth_token=tok; Path=/; HttpOnly; SameSite=Lax; Max-Age=604800; Secure"
    );
    assert_eq!(
        build_auth_cookie("tok", false),
        "auth_token=tok; Path=/; HttpOnly; SameSite=Lax; Max-Age=604800"
    );
    assert_eq!(
        build_logout_cookie(true),
        "auth_token=; Path=/; HttpOnly; Max-Age=0; Secure"
    );
}

#[test]
fn test_error_reply_shapes() {
    let not_found = AppError::NotFound;
    assert_eq!(not_found.status_code(), 404);
    assert_eq!(not_found.error_response().error, "Resource not found");

    let forbidden = AppError::Forbidden;
    assert_eq!(forbidden.status_code(), 403);
    assert_eq!(forbidden.error_message(), "Access denied");

    let bad = AppError::BadRequest("nope".to_string());
    assert_eq!(bad.status_code(), 400);
    assert_eq!(bad.error_response().error, "nope");

    let db = AppError::Database("secret detail".to_string());
    assert_eq!(db.status_code(), 500);
    assert_eq!(db.error_message(), "Internal error");

    let validation = match validate_title("") {
        Err(e) => e,
        Ok(_) => panic!("empty title must fail"),
    };
    assert_eq!(validation.status_code(), 400);
    let body = validation.validation_response().expect("validation reply");
    assert_eq!(body.error, "Validation failed");
    assert_eq!(body.errors.len(), 1);
    assert_eq!(body.errors[0].field, "title");
}
