use listshare::api_key_repo::ApiKeyRepository;
use sha2::Digest as _;
use listshare::api_key_service::ApiKeyService;
use listshare::error::AppError;
use listshare::models::CreateUser;
use listshare::routes_api_keys::{create_api_key, list_api_keys, revoke_api_key, CreateApiKeyRequest};
use listshare::user_repo::UserRepository;

fn service() -> ApiKeyService {
    ApiKeyService::new(ApiKeyRepository::new())
}

#[test]
fn test_create_and_verify_api_key() {
    let mut user_repo = UserRepository::new();
    let user = user_repo.create(
        CreateUser {
            twitch_id: "test123".to_string(),
            username: "testuser".to_string(),
            display_name: None,
            profile_image_url: None,
            email: None,
        },
        1000,
    );

    let mut svc = service();
    let response = svc
        .create_api_key(
            user.id,
            Some("test key".to_string()),
            vec!["read".to_string(), "write".to_string()],
            1000,
        )
        .unwrap();

    assert!(!response.token.is_empty());

    let verification = svc.verify_token(&response.token);
    assert!(verification.is_some());
    let (verified_user_id, scopes) = verification.unwrap();
    assert_eq!(verified_user_id, user.id);
    assert_eq!(scopes, vec!["read".to_string(), "write".to_string()]);

    let keys = svc.list_user_api_keys(user.id);
    assert_eq!(keys.len(), 1);
    assert_eq!(keys[0].id, response.id);

    let revoked = svc.revoke_api_key(response.id, user.id);
    assert!(revoked);

    let verification = svc.verify_token(&response.token);
    assert!(verification.is_none());
}

#[test]
fn test_create_api_key_success() {
    let mut svc = service();
    let payload = CreateApiKeyRequest {
        name: Some("Test Key".to_string()),
        scopes: vec!["read".to_string()],
    };
    let resp = create_api_key(&mut svc, 7, payload, 1000).unwrap();
    assert_eq!(resp.token.len(), 64);
    let listing = list_api_keys(&svc, 7);
    assert_eq!(listing.len(), 1);
    assert_eq!(listing[0].name.as_deref(), Some("Test Key"));
    assert_eq!(listing[0].scopes, vec!["read".to_string()]);
    assert!(!listing[0].revoked);
}

#[test]
fn test_create_api_key_validation_json() {
    let mut svc = service();
    let payload = CreateApiKeyRequest { name: Some("Test Key".to_string()), scopes: Vec::new() };
    let err = create_api_key(&mut svc, 1, payload, 1000).unwrap_err();
    match err {
        AppError::Validation(fields) => {
            assert_eq!(fields.len(), 1);
            assert_eq!(fields[0].field, "scopes");
            assert_eq!(fields[0].message, "At least one scope must be provided");
        },
        _ => panic!("expected a validation error"),
    }
    assert_eq!(svc.list_user_api_keys(1).len(), 0);
}

#[test]
fn test_invalid_scope_is_rejected() {
    let mut svc = service();
    let payload = CreateApiKeyRequest {
        name: None,
        scopes: vec!["read".to_string(), "Bad Scope".to_string()],
    };
    let err = create_api_key(&mut svc, 1, payload, 1000).unwrap_err();
    match err {
        AppError::Validation(fields) => {
            assert_eq!(fields.len(), 1);
            assert_eq!(fields[0].field, "scopes");
            assert_eq!(fields[0].message, "Invalid scope: Bad Scope");
        },
        _ => panic!("expected a validation error"),
    }
}

#[test]
fn test_delete_api_key_success() {
    let mut svc = service();
    let resp = svc
        .create_api_key(9, Some("ToDelete".to_string()), vec!["read".to_string()], 1000)
        .unwrap();

    let deleted = revoke_api_key(&mut svc, 9, resp.id, true);
    assert!(deleted.is_ok());
    assert_eq!(svc.list_user_api_keys(9).len(), 0);

    let again = revoke_api_key(&mut svc, 9, resp.id, true);
    assert!(matches!(again, Err(AppError::NotFound)));
}

#[test]
fn test_revoke_requires_owner() {
    let mut svc = service();
    let resp = svc.create_api_key(1, None, vec!["read".to_string()], 1000).unwrap();

    assert!(!svc.revoke_api_key(resp.id, 2));
    assert!(svc.verify_token(&resp.token).is_some());

    assert!(!svc.delete_api_key(resp.id, 2));
    assert_eq!(svc.list_user_api_keys(1).len(), 1);
}

#[test]
fn test_collision_retries_exhaust_without_partial_row() {
    let mut svc = service();
    let scopes = vec!["read".to_string()];
    let candidates = vec!["tok-a".to_string(), "tok-a".to_string(), "tok-a".to_string()];

    let first = svc.create_api_key_with_tokens(1, None, &scopes, &candidates, 1000);
    assert!(first.is_ok());
    assert_eq!(svc.list_user_api_keys(1).len(), 1);

    let second = svc.create_api_key_with_tokens(1, None, &scopes, &candidates, 1000);
    match second {
        Err(AppError::Internal(msg)) => {
            assert_eq!(msg, "Failed to create API key after 3 retries");
        },
        _ => panic!("expected the retry-exhaustion error"),
    }
    assert_eq!(svc.list_user_api_keys(1).len(), 1);
}

#[test]
fn test_collision_retry_uses_later_candidate() {
    let mut svc = service();
    let scopes = vec!["read".to_string()];
    let first = svc.create_api_key_with_tokens(
        1,
        None,
        &scopes,
        &vec!["tok-x".to_string(), "tok-y".to_string(), "tok-z".to_string()],
        1000,
    );
    assert!(first.is_ok());

    let second = svc
        .create_api_key_with_tokens(
            1,
            None,
            &scopes,
            &vec!["tok-x".to_string(), "tok-y".to_string(), "tok-z".to_string()],
            1000,
        )
        .unwrap();
    assert_eq!(second.token, "tok-y");
}

#[test]
fn test_verify_rejects_wrong_token() {
    let mut svc = service();
    let resp = svc.create_api_key(3, None, vec!["read".to_string()], 1000).unwrap();
    assert!(svc.verify_token(&resp.token).is_some());
    assert!(svc.verify_token("definitely-not-that-token").is_none());
    let mut other = resp.token.clone();
    other.push('x');
    assert!(svc.verify_token(&other).is_none());
}

#[test]
fn test_generated_tokens_are_alphanumeric() {
    let mut svc = service();
    let resp = svc.create_api_key(4, None, vec!["read".to_string()], 1000).unwrap();
    assert_eq!(resp.token.len(), 64);
    assert!(resp.token.chars().all(|c| c.is_ascii_alphanumeric()));
}

#[test]
fn test_stored_hash_is_hex_digest_not_token() {
    let mut svc = service();
    let resp = svc.create_api_key(5, None, vec!["read".to_string()], 1000).unwrap();
    let keys = svc.list_user_api_keys(5);
    assert_eq!(keys.len(), 1);
    let stored = &keys[0].token_hash;
    assert_ne!(stored, &resp.token);
    assert_eq!(stored.len(), 64);
    assert!(stored.chars().all(|c| c.is_ascii_hexdigit() && !c.is_ascii_uppercase()));

    let mut expected = sha2::Sha256::new();
    sha2::Digest::update(&mut expected, resp.token.as_bytes());
    let expected = hex::encode(sha2::Digest::finalize(expected));
    assert_eq!(stored, &expected);
}

#[test]
fn test_listing_is_newest_first() {
    let mut svc = service();
    let first = svc.create_api_key(6, Some("first".to_string()), vec!["read".to_string()], 1000).unwrap();
    let second = svc.create_api_key(6, Some("second".to_string()), vec!["read".to_string()], 1001).unwrap();
    let keys = svc.list_user_api_keys(6);
    assert_eq!(keys.len(), 2);
    assert_eq!(keys[0].id, second.id);
    assert_eq!(keys[1].id, first.id);
}

#[test]
fn test_name_and_scope_errors_are_aggregated() {
    let mut svc = service();
    let payload = CreateApiKeyRequest {
        name: Some("n".repeat(101)),
        scopes: Vec::new(),
    };
    let err = create_api_key(&mut svc, 1, payload, 1000).unwrap_err();
    match err {
        AppError::Validation(fields) => {
            assert_eq!(fields.len(), 2);
            assert_eq!(fields[0].field, "name");
            assert_eq!(fields[0].message, "API key name must be at most 100 characters");
            assert_eq!(fields[1].field, "scopes");
            assert_eq!(fields[1].message, "At least one scope must be provided");
        },
        _ => panic!("expected a validation error"),
    }
    assert_eq!(svc.list_user_api_keys(1).len(), 0);
}
