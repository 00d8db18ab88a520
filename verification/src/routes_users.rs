//! User endpoints: search, and reading or updating the caller's own
//! profile.

use vstd::prelude::*;

use crate::error::{AppError, FieldError};
use crate::models::User;
use crate::user_repo::{
    find_user, matching_users, take_ten, user_index, UserRepository,
};
use crate::validators::{
    display_name_ok, trim_spec, username_ok, validate_display_name, validate_username,
};

verus! {

/// A user search request.
#[derive(Debug)]
pub struct SearchQuery {
    pub q: String,
}

/// A profile patch.
#[derive(Debug)]
pub struct UpdateUserRequest {
    pub username: Option<String>,
    pub display_name: Option<String>,
    pub profile_image_url: Option<String>,
    pub email: Option<String>,
}

/// Searches users by name; a query under two bytes yields nothing, and the
/// caller is never listed.
pub fn search_users(users: &UserRepository, user_id: u64, query: &SearchQuery) -> (r: Vec<User>)
    requires
        users.wf(),
    ensures
        query.q@.len() < 2 ==> r@ == Seq::<User>::empty(),
        query.q@.len() >= 2 ==> r@ == take_ten(matching_users(users@, query.q@, user_id)),
{
    let n = query.q.as_str().unicode_len();
    if n < 2 {
        return Vec::new();
    }
    users.search(query.q.as_str(), user_id)
}

/// The caller's own profile.
pub fn get_current_user(users: &UserRepository, user_id: u64) -> (r: Result<User, AppError>)
    requires
        users.wf(),
    ensures
        find_user(users@, user_id) is None ==> (r matches Err(e) && e is NotFound),
        find_user(users@, user_id) matches Some(u) ==> r == Ok::<User, AppError>(u),
{
    match users.find_by_id(user_id) {
        Some(u) => Ok(u),
        None => Err(AppError::NotFound),
    }
}

/// The username a profile patch asks for: the given one, else the stored
/// one.
pub open spec fn requested_username(existing: User, payload: UpdateUserRequest) -> Seq<char> {
    match payload.username {
        Some(u) => u@,
        None => existing.username@,
    }
}

/// Updates the caller's profile.  Username and display name are validated
/// with errors aggregated; absent fields keep their stored values.
pub fn update_current_user(
    users: &mut UserRepository,
    user_id: u64,
    payload: UpdateUserRequest,
    now: i64,
) -> (r: Result<User, AppError>)
    requires
        old(users).wf(),
    ensures
        final(users).wf(),
        r is Err ==> final(users)@ == old(users)@,
        find_user(old(users)@, user_id) is None ==> (r matches Err(e) && e is NotFound),
        find_user(old(users)@, user_id) matches Some(existing) ==> {
            let uname = requested_username(existing, payload);
            let ubad = !username_ok(uname);
            let dbad = payload.display_name matches Some(d) && !display_name_ok(d@);
            &&& (ubad || dbad ==> (r matches Err(e) && e matches AppError::Validation(v) && {
                &&& v.len() == (if ubad {
                    1int
                } else {
                    0int
                }) + (if dbad {
                    1int
                } else {
                    0int
                })
                &&& (ubad ==> v[0].field@ == "username"@)
                &&& (dbad ==> v[v.len() - 1].field@ == "display_name"@)
            }))
            &&& (!ubad && !dbad ==> (r matches Ok(u) && {
                let i = user_index(old(users)@, user_id);
                &&& 0 <= i < old(users)@.len()
                &&& final(users)@ == old(users)@.update(i, u)
                &&& u.id == user_id
                &&& u.username@ == trim_spec(uname)
                &&& (payload.display_name matches Some(d) ==> (u.display_name matches Some(v)
                    && v@ == trim_spec(d@)))
                &&& (payload.display_name is None ==> crate::models::opt_string_view_eq(
                    u.display_name,
                    existing.display_name,
                ))
                &&& (payload.profile_image_url matches Some(p) ==> (u.profile_image_url
                    matches Some(v) && v@ == p@))
                &&& (payload.profile_image_url is None ==> crate::models::opt_string_view_eq(
                    u.profile_image_url,
                    existing.profile_image_url,
                ))
                &&& (payload.email matches Some(m) ==> (u.email matches Some(v) && v@ == m@))
                &&& (payload.email is None ==> u.email == existing.email)
                &&& u.updated_at == now
            }))
        },
{
    let existing = match users.find_by_id(user_id) {
        Some(u) => u,
        None => {
            return Err(AppError::NotFound);
        },
    };
    let username_raw: &String = match &payload.username {
        Some(u) => u,
        None => &existing.username,
    };
    let mut errors: Vec<FieldError> = Vec::new();
    let username: Option<String> = match validate_username(username_raw.as_str()) {
        Ok(u) => Some(u),
        Err(e) => {
            match e {
                AppError::Validation(es) => {
                    let mut es2 = es;
                    errors.append(&mut es2);
                },
                _ => {},
            }
            None
        },
    };
    let display_name: Option<String> = match validate_display_name(&payload.display_name) {
        Ok(o) => o,
        Err(e) => {
            match e {
                AppError::Validation(es) => {
                    let mut es2 = es;
                    errors.append(&mut es2);
                },
                _ => {},
            }
            None
        },
    };
    if errors.len() > 0 {
        return Err(AppError::Validation(errors));
    }
    let username = match username {
        Some(u) => u,
        None => {
            return Err(AppError::Internal("validation state lost".to_owned()));
        },
    };
    let display_name: Option<String> = match display_name {
        Some(d) => Some(d),
        None => crate::models::clone_opt_string(&existing.display_name),
    };
    let profile_image_url: Option<String> = match &payload.profile_image_url {
        Some(p) => Some(p.clone()),
        None => crate::models::clone_opt_string(&existing.profile_image_url),
    };
    let email: Option<String> = match &payload.email {
        Some(m) => Some(m.clone()),
        None => crate::models::clone_opt_string(&existing.email),
    };
    proof {
        crate::user_repo::lemma_find_user_index(users@, user_id);
    }
    let display_name_arg: Option<&str> = match &display_name {
        Some(d) => Some(d.as_str()),
        None => None,
    };
    let profile_image_arg: Option<&str> = match &profile_image_url {
        Some(p) => Some(p.as_str()),
        None => None,
    };
    match users.update_by_id(
        user_id,
        username.as_str(),
        display_name_arg,
        profile_image_arg,
        email,
        now,
    ) {
        Some(u) => Ok(u),
        None => Err(AppError::NotFound),
    }
}

} // verus!
