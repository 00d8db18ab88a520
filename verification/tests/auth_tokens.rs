use listshare::models::{CreateUser, TwitchUser};
use listshare::token::AuthService;
use listshare::user_repo::UserRepository;

fn make_user(repo: &mut UserRepository, twitch_id: &str, username: &str) -> listshare::models::User {
    repo.create(
        CreateUser {
            twitch_id: twitch_id.to_string(),
            username: username.to_string(),
            display_name: None,
            profile_image_url: None,
            email: None,
        },
        1000,
    )
}

#[test]
fn test_jwt_creation_and_verification() {
    let mut user_repo = UserRepository::new();
    let auth_service = AuthService::new(
        "test_secret_key".to_string(),
        "test_client_id".to_string(),
        "test_client_secret".to_string(),
    );

    let user = user_repo.create(
        CreateUser {
            twitch_id: "twitch123".to_string(),
            username: "testuser".to_string(),
            display_name: Some("Test User".to_string()),
            profile_image_url: None,
            email: Some("test@example.com".to_string()),
        },
        1000,
    );

    let jwt = auth_service.create_jwt(&user, 1000).unwrap();
    assert!(!jwt.is_empty());

    let claims = auth_service.verify_jwt(&jwt, 1000).unwrap();
    assert_eq!(claims.sub, user.id);
    assert_eq!(claims.twitch_id, user.twitch_id);
    assert_eq!(claims.username, user.username);
}

#[test]
fn test_jwt_verification_fails_with_wrong_secret() {
    let mut user_repo = UserRepository::new();
    let auth_service1 = AuthService::new(
        "secret1".to_string(),
        "client_id".to_string(),
        "client_secret".to_string(),
    );
    let auth_service2 = AuthService::new(
        "secret2".to_string(),
        "client_id".to_string(),
        "client_secret".to_string(),
    );

    let user = make_user(&mut user_repo, "tw456", "user");
    let jwt = auth_service1.create_jwt(&user, 1000).unwrap();

    let result = auth_service2.verify_jwt(&jwt, 1000);
    assert!(result.is_err());
}

#[test]
fn test_jwt_valid_until_but_not_after_expiry() {
    let mut user_repo = UserRepository::new();
    let service = AuthService::new("s".to_string(), "c".to_string(), "cs".to_string());
    let user = make_user(&mut user_repo, "tw1", "u1");

    let issued_at: i64 = 5000;
    let expiry = issued_at + 604800;
    let jwt = service.create_jwt(&user, issued_at).unwrap();

    assert!(service.verify_jwt(&jwt, issued_at).is_ok());
    assert!(service.verify_jwt(&jwt, expiry - 1).is_ok());
    assert!(service.verify_jwt(&jwt, expiry).is_err());
    assert!(service.verify_jwt(&jwt, expiry + 1).is_err());
}

#[test]
fn test_jwt_rejects_tampering() {
    let mut user_repo = UserRepository::new();
    let service = AuthService::new("s".to_string(), "c".to_string(), "cs".to_string());
    let user = make_user(&mut user_repo, "tw2", "u2");
    let jwt = service.create_jwt(&user, 1000).unwrap();

    let mut tampered: Vec<char> = jwt.chars().collect();
    let first = tampered[0];
    tampered[0] = if first == 'A' { 'B' } else { 'A' };
    let tampered: String = tampered.into_iter().collect();
    assert!(service.verify_jwt(&tampered, 1000).is_err());

    assert!(service.verify_jwt("not-a-token", 1000).is_err());
    assert!(service.verify_jwt("", 1000).is_err());
}

#[test]
fn test_jwt_roundtrips_unicode_username() {
    let mut user_repo = UserRepository::new();
    let service = AuthService::new("s".to_string(), "c".to_string(), "cs".to_string());
    let user = user_repo.create(
        CreateUser {
            twitch_id: "tw77".to_string(),
            username: "\u{00fc}ser.n\u{00e4}me".to_string(),
            display_name: None,
            profile_image_url: None,
            email: None,
        },
        1000,
    );
    let jwt = service.create_jwt(&user, 1000).unwrap();
    let claims = service.verify_jwt(&jwt, 1000).unwrap();
    assert_eq!(claims.username, "\u{00fc}ser.n\u{00e4}me");
}

#[test]
fn test_get_or_create_user_creates_new() {
    let mut user_repo = UserRepository::new();
    let auth_service = AuthService::new(
        "secret".to_string(),
        "client".to_string(),
        "secret".to_string(),
    );

    let twitch_user = TwitchUser {
        id: "tw789".to_string(),
        login: "newuser".to_string(),
        display_name: "New User".to_string(),
        profile_image_url: "http://image.url".to_string(),
        email: Some("new@example.com".to_string()),
    };

    let user = auth_service.get_or_create_user(&mut user_repo, twitch_user, 1000);
    assert_eq!(user.twitch_id, "tw789");
    assert_eq!(user.username, "newuser");
}

#[test]
fn test_get_or_create_user_updates_existing() {
    let mut user_repo = UserRepository::new();
    let auth_service = AuthService::new(
        "secret".to_string(),
        "client".to_string(),
        "secret".to_string(),
    );

    let initial = user_repo.create(
        CreateUser {
            twitch_id: "tw999".to_string(),
            username: "oldname".to_string(),
            display_name: Some("Old Name".to_string()),
            profile_image_url: None,
            email: None,
        },
        1000,
    );

    let twitch_user = TwitchUser {
        id: "tw999".to_string(),
        login: "newname".to_string(),
        display_name: "New Name".to_string(),
        profile_image_url: "http://new.image".to_string(),
        email: Some("updated@example.com".to_string()),
    };

    let user = auth_service.get_or_create_user(&mut user_repo, twitch_user, 2000);
    assert_eq!(user.id, initial.id);
    assert_eq!(user.username, "newname");
    assert_eq!(user.display_name.as_deref(), Some("New Name"));
}

#[test]
fn test_signature_matches_signing_crate() {
    let mut user_repo = UserRepository::new();
    let service = AuthService::new("cross-check".to_string(), "c".to_string(), "cs".to_string());
    let user = make_user(&mut user_repo, "twx", "crossuser");
    let jwt = service.create_jwt(&user, 1000).unwrap();

    let dot = jwt.find('.').expect("token has a signature separator");
    let (payload, sig) = jwt.split_at(dot);
    let sig = &sig[1..];

    let expected = jsonwebtoken::crypto::sign(
        payload.as_bytes(),
        &jsonwebtoken::EncodingKey::from_secret("cross-check".as_bytes()),
        jsonwebtoken::Algorithm::HS256,
    )
    .unwrap();
    assert_eq!(sig, expected);
}
