//! API-key endpoints: creation with validation, listing without the hash,
//! and revocation or hard deletion scoped to the owner.

use vstd::prelude::*;

use crate::api_key_repo::{find_key, hash_present, key_index, revoked_copy};
use crate::api_key_service::{first_free_candidate, sha256_hex_of, ApiKeyService, TOKEN_LENGTH};
use crate::error::{AppError, FieldError};
use crate::models::{ApiKey, ApiKeyResponse, CreateApiKeyResponse};
use crate::scopes::{decode_scopes_spec, join_scopes_spec};
use crate::sequtil::rev_filter;
use crate::validators::{
    api_key_name_ok, first_bad_scope, scope_ok, trim_spec, validate_api_key_name, validate_scopes,
};

verus! {

/// A key-creation request.
#[derive(Debug)]
pub struct CreateApiKeyRequest {
    pub name: Option<String>,
    pub scopes: Vec<String>,
}

/// Whether a creation request is well formed: the optional name within
/// bounds and every scope a non-empty run of lowercase letters, at least
/// one.
pub open spec fn api_key_request_ok(payload: CreateApiKeyRequest) -> bool {
    &&& !api_key_name_invalid(payload)
    &&& !api_key_scopes_invalid(payload)
}

pub open spec fn api_key_name_invalid(payload: CreateApiKeyRequest) -> bool {
    payload.name matches Some(n) && !api_key_name_ok(n@)
}

pub open spec fn api_key_scopes_invalid(payload: CreateApiKeyRequest) -> bool {
    !(payload.scopes@.len() > 0 && forall|i: int|
        0 <= i < payload.scopes@.len() ==> scope_ok(#[trigger] payload.scopes@[i]@))
}

/// Aggregated validation outcome for a key-creation payload: an entry for
/// the name when it is bad, then one for the scopes, each with the
/// validator's message; the scopes message names the first invalid scope.
pub open spec fn api_key_validation_errors(v: Seq<FieldError>, payload: CreateApiKeyRequest) -> bool {
    let name_bad = api_key_name_invalid(payload);
    let scopes_bad = api_key_scopes_invalid(payload);
    &&& v.len() == (if name_bad {
        1int
    } else {
        0int
    }) + (if scopes_bad {
        1int
    } else {
        0int
    })
    &&& (name_bad ==> v[0].field@ == "name"@ && v[0].message@
        == "API key name must be at most 100 characters"@)
    &&& (scopes_bad ==> v[v.len() - 1].field@ == "scopes"@ && v[v.len() - 1].message@ == (
    if payload.scopes@.len() == 0 {
        "At least one scope must be provided"@
    } else {
        "Invalid scope: "@ + payload.scopes@[first_bad_scope(
            payload.scopes@.map_values(|s: String| s@),
        )]@
    }))
}

/// Creates an API key after validating name and scopes; field errors are
/// aggregated, name first.  On success the plaintext token is returned
/// exactly once and only its hash is stored.
pub fn create_api_key(
    service: &mut ApiKeyService,
    user_id: u64,
    payload: CreateApiKeyRequest,
    now: i64,
) -> (r: Result<CreateApiKeyResponse, AppError>)
    requires
        old(service).wf(),
    ensures
        final(service).wf(),
        r is Err ==> final(service).keys() == old(service).keys(),
        !api_key_request_ok(payload) ==> (r matches Err(e) && e matches AppError::Validation(v)
            && api_key_validation_errors(v@, payload)),
        api_key_request_ok(payload) ==> !(r matches Err(e) && e is Validation),
        api_key_request_ok(payload) ==> (r matches Ok(resp) ==> {
            let ks = final(service).keys();
            &&& ks.len() == old(service).keys().len() + 1
            &&& ks.drop_last() == old(service).keys()
            &&& resp.token@.len() == TOKEN_LENGTH
            &&& resp.id == ks.last().id
            &&& ks.last().user_id == user_id
            &&& ks.last().token_hash@ == sha256_hex_of(resp.token@)
            &&& !hash_present(old(service).keys(), ks.last().token_hash@)
            &&& ks.last().scopes@ == join_scopes_spec(
                payload.scopes@.map_values(|s: String| trim_spec(s@)),
            )
            &&& !ks.last().revoked
            &&& ks.last().created_at == now
            &&& (payload.name matches Some(n) ==> (ks.last().name matches Some(v) && v@
                == trim_spec(n@)))
            &&& (payload.name is None ==> ks.last().name is None)
        }),
{
    let mut errors: Vec<FieldError> = Vec::new();
    let name: Option<String> = match validate_api_key_name(&payload.name) {
        Ok(o) => o,
        Err(e) => {
            match e {
                AppError::Validation(es) => {
                    let mut es2 = es;
                    errors.append(&mut es2);
                },
                _ => {},
            }
            None
        },
    };
    let scopes: Option<Vec<String>> = match validate_scopes(&payload.scopes) {
        Ok(v) => Some(v),
        Err(e) => {
            match e {
                AppError::Validation(es) => {
                    let mut es2 = es;
                    errors.append(&mut es2);
                },
                _ => {},
            }
            None
        },
    };
    if errors.len() > 0 {
        return Err(AppError::Validation(errors));
    }
    let scopes = match scopes {
        Some(v) => v,
        None => {
            return Err(AppError::Internal("validation state lost".to_owned()));
        },
    };
    proof {
        assert(scopes@.map_values(|s: String| s@) =~= payload.scopes@.map_values(
            |s: String| trim_spec(s@),
        ));
    }
    service.create_api_key(user_id, name, scopes, now)
}

/// Lists the caller's keys, newest first, in their serialized form: the
/// token hash never leaves the store.
pub fn list_api_keys(service: &ApiKeyService, user_id: u64) -> (r: Vec<ApiKeyResponse>)
    requires
        service.wf(),
    ensures
        ({
            let ks = rev_filter(service.keys(), |k: ApiKey| k.user_id == user_id);
            &&& r@.len() == ks.len()
            &&& forall|i: int|
                0 <= i < r@.len() ==> {
                    &&& (#[trigger] r@[i]).id == ks[i].id
                    &&& r@[i].name == ks[i].name
                    &&& r@[i].scopes@.map_values(|s: String| s@) == decode_scopes_spec(
                        ks[i].scopes@,
                    )
                    &&& r@[i].revoked == ks[i].revoked
                    &&& r@[i].created_at == ks[i].created_at
                }
        }),
{
    let keys = service.list_user_api_keys(user_id);
    let mut r: Vec<ApiKeyResponse> = Vec::new();
    let mut i: usize = 0;
    while i < keys.len()
        invariant
            0 <= i <= keys@.len(),
            keys@ == rev_filter(service.keys(), |k: ApiKey| k.user_id == user_id),
            r@.len() == i,
            forall|k: int|
                0 <= k < i ==> {
                    &&& (#[trigger] r@[k]).id == keys@[k].id
                    &&& r@[k].name == keys@[k].name
                    &&& r@[k].scopes@.map_values(|s: String| s@) == decode_scopes_spec(
                        keys@[k].scopes@,
                    )
                    &&& r@[k].revoked == keys@[k].revoked
                    &&& r@[k].created_at == keys@[k].created_at
                },
        decreases keys@.len() - i,
    {
        r.push(keys[i].to_response());
        i = i + 1;
    }
    r
}

/// Revokes or, when `hard` is set, deletes a key; a key that is not the
/// caller's, or is already revoked for a soft revoke, reports not found.
pub fn revoke_api_key(service: &mut ApiKeyService, user_id: u64, id: u64, hard: bool) -> (r: Result<
    (),
    AppError,
>)
    requires
        old(service).wf(),
    ensures
        final(service).wf(),
        r is Err ==> final(service).keys() == old(service).keys(),
        hard ==> {
            &&& (find_key(old(service).keys(), id) matches Some(k) && k.user_id == user_id ==> (r
                is Ok && final(service).keys() == old(service).keys().remove(
                key_index(old(service).keys(), id),
            )))
            &&& (!(find_key(old(service).keys(), id) matches Some(k) && k.user_id == user_id)
                ==> (r matches Err(e) && e is NotFound))
        },
        !hard ==> {
            &&& (find_key(old(service).keys(), id) matches Some(k) && k.user_id == user_id
                && !k.revoked ==> (r is Ok && final(service).keys() == old(
                service,
            ).keys().update(
                key_index(old(service).keys(), id),
                revoked_copy(old(service).keys()[key_index(old(service).keys(), id)]),
            )))
            &&& (!(find_key(old(service).keys(), id) matches Some(k) && k.user_id == user_id
                && !k.revoked) ==> (r matches Err(e) && e is NotFound))
        },
{
    if hard {
        let deleted = service.delete_api_key(id, user_id);
        if !deleted {
            return Err(AppError::NotFound);
        }
        return Ok(());
    }
    let revoked = service.revoke_api_key(id, user_id);
    if !revoked {
        return Err(AppError::NotFound);
    }
    Ok(())
}

} // verus!
