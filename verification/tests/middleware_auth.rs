use listshare::api_key_repo::ApiKeyRepository;
use listshare::api_key_service::ApiKeyService;
use listshare::auth_flow::{authenticate, cookie_value_str, RequestCredentials};
use listshare::error::AuthError;
use listshare::models::CreateUser;
use listshare::token::AuthService;
use listshare::user_repo::UserRepository;

fn setup() -> (UserRepository, AuthService, ApiKeyService, listshare::models::User) {
    let mut users = UserRepository::new();
    let auth_service = AuthService::new(
        "test_secret".to_string(),
        "client_id".to_string(),
        "client_secret".to_string(),
    );
    let api_key_service = ApiKeyService::new(ApiKeyRepository::new());
    let user = users.create(
        CreateUser {
            twitch_id: "tw123".to_string(),
            username: "testuser".to_string(),
            display_name: None,
            profile_image_url: None,
            email: None,
        },
        1000,
    );
    (users, auth_service, api_key_service, user)
}

fn req(
    x_api_key: Option<&str>,
    authorization: Option<&str>,
    cookie: Option<&str>,
) -> RequestCredentials {
    RequestCredentials {
        x_api_key: x_api_key.map(|s| s.to_string()),
        authorization: authorization.map(|s| s.to_string()),
        cookie: cookie.map(|s| s.to_string()),
    }
}

#[test]
fn test_auth_middleware_success() {
    let (users, auth_service, api_key_service, user) = setup();
    let jwt = auth_service.create_jwt(&user, 1000).unwrap();

    let request = req(None, Some(&format!("Bearer {}", jwt)), None);
    let identity =
        authenticate(&request, &auth_service, &api_key_service, &users, 1000).unwrap();
    assert_eq!(identity.user_id, user.id);
    assert_eq!(identity.username, "testuser");
    assert!(identity.scopes.is_none());
}

#[test]
fn test_auth_middleware_missing_token() {
    let (users, auth_service, api_key_service, _user) = setup();
    let request = req(None, None, None);
    let err = authenticate(&request, &auth_service, &api_key_service, &users, 1000).unwrap_err();
    assert_eq!(err, AuthError::MissingToken);
}

#[test]
fn test_auth_middleware_invalid_token() {
    let (users, auth_service, api_key_service, _user) = setup();
    let request = req(None, Some("Bearer invalid_token_here"), None);
    let err = authenticate(&request, &auth_service, &api_key_service, &users, 1000).unwrap_err();
    assert_eq!(err, AuthError::InvalidToken);
}

#[test]
fn test_auth_middleware_malformed_header() {
    let (users, auth_service, api_key_service, _user) = setup();
    let request = req(None, Some("some_token"), None);
    let err = authenticate(&request, &auth_service, &api_key_service, &users, 1000).unwrap_err();
    assert_eq!(err, AuthError::MissingToken);
}

#[test]
fn test_expired_bearer_token_is_invalid() {
    let (users, auth_service, api_key_service, user) = setup();
    let jwt = auth_service.create_jwt(&user, 1000).unwrap();
    let request = req(None, Some(&format!("Bearer {}", jwt)), None);
    let err = authenticate(&request, &auth_service, &api_key_service, &users, 1000 + 604800)
        .unwrap_err();
    assert_eq!(err, AuthError::InvalidToken);
}

#[test]
fn test_session_cookie_authenticates() {
    let (users, auth_service, api_key_service, user) = setup();
    let jwt = auth_service.create_jwt(&user, 1000).unwrap();
    let cookie = format!("theme=dark; auth_token={}; lang=en", jwt);
    let request = req(None, None, Some(&cookie));
    let identity =
        authenticate(&request, &auth_service, &api_key_service, &users, 1000).unwrap();
    assert_eq!(identity.user_id, user.id);
    assert!(identity.scopes.is_none());
}

#[test]
fn test_cookie_without_session_is_missing() {
    let (users, auth_service, api_key_service, _user) = setup();
    let request = req(None, None, Some("theme=dark; lang=en"));
    let err = authenticate(&request, &auth_service, &api_key_service, &users, 1000).unwrap_err();
    assert_eq!(err, AuthError::MissingToken);
}

#[test]
fn test_x_api_key_header_authenticates_with_scopes() {
    let (users, auth_service, mut api_key_service, user) = setup();
    let created = api_key_service
        .create_api_key(user.id, None, vec!["read".to_string(), "write".to_string()], 1000)
        .unwrap();

    let request = req(Some(&created.token), None, None);
    let identity =
        authenticate(&request, &auth_service, &api_key_service, &users, 1000).unwrap();
    assert_eq!(identity.user_id, user.id);
    assert_eq!(
        identity.scopes,
        Some(vec!["read".to_string(), "write".to_string()])
    );
}

#[test]
fn test_api_key_scheme_in_authorization_header() {
    let (users, auth_service, mut api_key_service, user) = setup();
    let created = api_key_service
        .create_api_key(user.id, None, vec!["read".to_string()], 1000)
        .unwrap();

    let request = req(None, Some(&format!("ApiKey {}", created.token)), None);
    let identity =
        authenticate(&request, &auth_service, &api_key_service, &users, 1000).unwrap();
    assert_eq!(identity.user_id, user.id);
    assert_eq!(identity.scopes, Some(vec!["read".to_string()]));
}

#[test]
fn test_invalid_api_key_does_not_fall_through_to_cookie() {
    let (users, auth_service, api_key_service, user) = setup();
    let jwt = auth_service.create_jwt(&user, 1000).unwrap();
    let cookie = format!("auth_token={}", jwt);
    let request = req(Some("wrong-key"), None, Some(&cookie));
    let err = authenticate(&request, &auth_service, &api_key_service, &users, 1000).unwrap_err();
    assert_eq!(err, AuthError::InvalidToken);
}

#[test]
fn test_revoked_api_key_is_invalid() {
    let (users, auth_service, mut api_key_service, user) = setup();
    let created = api_key_service
        .create_api_key(user.id, None, vec!["read".to_string()], 1000)
        .unwrap();
    assert!(api_key_service.revoke_api_key(created.id, user.id));

    let request = req(Some(&created.token), None, None);
    let err = authenticate(&request, &auth_service, &api_key_service, &users, 1000).unwrap_err();
    assert_eq!(err, AuthError::InvalidToken);
}

#[test]
fn test_bearer_token_for_deleted_user_is_invalid() {
    let (_users, auth_service, api_key_service, user) = setup();
    let empty_users = UserRepository::new();
    let jwt = auth_service.create_jwt(&user, 1000).unwrap();
    let request = req(None, Some(&format!("Bearer {}", jwt)), None);
    let err =
        authenticate(&request, &auth_service, &api_key_service, &empty_users, 1000).unwrap_err();
    assert_eq!(err, AuthError::InvalidToken);
}

#[test]
fn test_cookie_value_parsing() {
    assert_eq!(
        cookie_value_str("auth_token=abc", "auth_token").as_deref(),
        Some("abc")
    );
    assert_eq!(
        cookie_value_str("a=1;  auth_token = abc ; b=2", "auth_token").as_deref(),
        Some("abc")
    );
    assert_eq!(
        cookie_value_str("auth_token=\"quoted\"", "auth_token").as_deref(),
        Some("quoted")
    );
    assert_eq!(cookie_value_str("auth=abc", "auth_token"), None);
    assert_eq!(cookie_value_str("", "auth_token"), None);
    assert_eq!(cookie_value_str("justnoise", "auth_token"), None);
}
