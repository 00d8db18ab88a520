//! Data model: users, pages, permissions, lists, items, API keys, and the
//! request-scoped identity.
//!
//! Identifiers are plain integers assigned by the stores; timestamps are unix
//! seconds.

use vstd::prelude::*;

use crate::scopes;

verus! {

/// View-level equality of optional strings.
pub open spec fn opt_string_view_eq(a: Option<String>, b: Option<String>) -> bool {
    match (a, b) {
        (Some(x), Some(y)) => x@ == y@,
        (None, None) => true,
        _ => false,
    }
}

/// Copies an optional string exactly.
pub fn clone_opt_string(o: &Option<String>) -> (r: Option<String>)
    ensures
        r == *o,
{
    match o {
        Some(s) => Some(s.clone()),
        None => None,
    }
}

/// A registered user, created on first login with the identity provider.
#[derive(Debug)]
pub struct User {
    pub id: u64,
    pub twitch_id: String,
    pub username: String,
    pub display_name: Option<String>,
    pub profile_image_url: Option<String>,
    pub email: Option<String>,
    pub created_at: i64,
    pub updated_at: i64,
}

impl Clone for User {
    fn clone(&self) -> (res: Self)
        ensures
            res == *self,
    {
        User {
            id: self.id,
            twitch_id: self.twitch_id.clone(),
            username: self.username.clone(),
            display_name: clone_opt_string(&self.display_name),
            profile_image_url: clone_opt_string(&self.profile_image_url),
            email: clone_opt_string(&self.email),
            created_at: self.created_at,
            updated_at: self.updated_at,
        }
    }
}

/// Provider-sourced fields for creating a user.
#[derive(Debug)]
pub struct CreateUser {
    pub twitch_id: String,
    pub username: String,
    pub display_name: Option<String>,
    pub profile_image_url: Option<String>,
    pub email: Option<String>,
}

/// Claims carried by a session token.  Session tokens never carry scopes:
/// they always assert full privileges.
#[derive(Debug)]
pub struct Claims {
    pub sub: u64,
    pub twitch_id: String,
    pub username: String,
    pub exp: u64,
}

impl Clone for Claims {
    fn clone(&self) -> (res: Self)
        ensures
            res == *self,
    {
        Claims {
            sub: self.sub,
            twitch_id: self.twitch_id.clone(),
            username: self.username.clone(),
            exp: self.exp,
        }
    }
}

/// Request-scoped identity produced by authentication.  `scopes` is `None`
/// for a session credential (full privileges) and `Some` of the exact
/// capability list for an API-key credential.
#[derive(Debug)]
pub struct Identity {
    pub user_id: u64,
    pub twitch_id: String,
    pub username: String,
    pub expiry: u64,
    pub scopes: Option<Vec<String>>,
}

/// Token reply of the identity provider's code exchange.
#[derive(Debug)]
pub struct TwitchTokenResponse {
    pub access_token: String,
    pub refresh_token: Option<String>,
    pub expires_in: i64,
    pub token_type: String,
}

/// Profile data of the identity provider.
#[derive(Debug)]
pub struct TwitchUser {
    pub id: String,
    pub login: String,
    pub display_name: String,
    pub profile_image_url: String,
    pub email: Option<String>,
}

impl Clone for TwitchUser {
    fn clone(&self) -> (res: Self)
        ensures
            res == *self,
    {
        TwitchUser {
            id: self.id.clone(),
            login: self.login.clone(),
            display_name: self.display_name.clone(),
            profile_image_url: self.profile_image_url.clone(),
            email: clone_opt_string(&self.email),
        }
    }
}

/// Envelope of the provider's user-info reply.
#[derive(Debug)]
pub struct TwitchUserResponse {
    pub data: Vec<TwitchUser>,
}

/// A stored API key.  Only the hash of the token is kept; `scopes` is the
/// comma-joined capability list; `revoked` is a soft-delete flag that is
/// never reset.
#[derive(Debug)]
pub struct ApiKey {
    pub id: u64,
    pub user_id: u64,
    pub name: Option<String>,
    pub token_hash: String,
    pub scopes: String,
    pub revoked: bool,
    pub created_at: i64,
}

impl Clone for ApiKey {
    fn clone(&self) -> (res: Self)
        ensures
            res == *self,
    {
        ApiKey {
            id: self.id,
            user_id: self.user_id,
            name: clone_opt_string(&self.name),
            token_hash: self.token_hash.clone(),
            scopes: self.scopes.clone(),
            revoked: self.revoked,
            created_at: self.created_at,
        }
    }
}

impl ApiKey {
    /// Decodes the stored comma-joined scope string; empty storage decodes to
    /// an empty list.
    pub fn scopes_as_vec(&self) -> (r: Vec<String>)
        ensures
            r@.map_values(|s: String| s@) == scopes::decode_scopes_spec(self.scopes@),
    {
        scopes::decode_scopes(self.scopes.as_str())
    }

    /// The listing form of a key: everything but the hash.
    pub fn to_response(&self) -> (r: ApiKeyResponse)
        ensures
            r.id == self.id,
            r.name == self.name,
            r.scopes@.map_values(|s: String| s@) == scopes::decode_scopes_spec(self.scopes@),
            r.revoked == self.revoked,
            r.created_at == self.created_at,
    {
        ApiKeyResponse {
            id: self.id,
            name: clone_opt_string(&self.name),
            scopes: self.scopes_as_vec(),
            revoked: self.revoked,
            created_at: self.created_at,
        }
    }
}

/// The serialized form of a listed API key; the token hash never appears.
#[derive(Debug)]
pub struct ApiKeyResponse {
    pub id: u64,
    pub name: Option<String>,
    pub scopes: Vec<String>,
    pub revoked: bool,
    pub created_at: i64,
}

/// Reply to key creation: the plaintext token is shown exactly once.
#[derive(Debug)]
pub struct CreateApiKeyResponse {
    pub id: u64,
    pub token: String,
}

/// A page; its creator holds permanent full permission, and `public_slug`,
/// when set, grants anonymous read access.
#[derive(Debug)]
pub struct Page {
    pub id: u64,
    pub title: String,
    pub description: Option<String>,
    pub creator_id: u64,
    pub public_slug: Option<String>,
    pub created_at: i64,
    pub updated_at: i64,
}

impl Clone for Page {
    fn clone(&self) -> (res: Self)
        ensures
            res == *self,
    {
        Page {
            id: self.id,
            title: self.title.clone(),
            description: clone_opt_string(&self.description),
            creator_id: self.creator_id,
            public_slug: clone_opt_string(&self.public_slug),
            created_at: self.created_at,
            updated_at: self.updated_at,
        }
    }
}

#[derive(Debug)]
pub struct CreatePage {
    pub title: String,
    pub description: Option<String>,
}

#[derive(Debug)]
pub struct UpdatePage {
    pub title: Option<String>,
    pub description: Option<String>,
}

/// A page together with the caller's role on it.
#[derive(Debug)]
pub struct PageWithPermission {
    pub page: Page,
    pub is_creator: bool,
    pub can_edit: bool,
}

#[derive(Debug)]
pub struct SetPublicSlug {
    pub public_slug: Option<String>,
}

/// What anonymous readers of a public slug receive.
#[derive(Debug)]
pub struct PublicPageData {
    pub page: Page,
    pub lists: Vec<ListWithItems>,
}

/// An explicit (page, user) grant; at most one row exists per pair.
#[derive(Debug)]
pub struct PagePermission {
    pub id: u64,
    pub page_id: u64,
    pub user_id: u64,
    pub can_edit: bool,
    pub granted_by: u64,
    pub created_at: i64,
}

impl Clone for PagePermission {
    fn clone(&self) -> (res: Self)
        ensures
            res == *self,
    {
        PagePermission {
            id: self.id,
            page_id: self.page_id,
            user_id: self.user_id,
            can_edit: self.can_edit,
            granted_by: self.granted_by,
            created_at: self.created_at,
        }
    }
}

/// A grant together with the user it names.
#[derive(Debug)]
pub struct PagePermissionWithUser {
    pub permission: PagePermission,
    pub user: User,
}

#[derive(Debug)]
pub struct GrantPermission {
    pub user_id: u64,
    pub can_edit: bool,
}

#[derive(Debug)]
pub struct UpdatePermission {
    pub can_edit: bool,
}

/// An ordered list belonging to a page; access derives from the page.
#[derive(Debug)]
pub struct List {
    pub id: u64,
    pub page_id: u64,
    pub title: String,
    pub position: i32,
    pub show_checkboxes: bool,
    pub show_progress: bool,
    pub created_at: i64,
    pub updated_at: i64,
}

impl Clone for List {
    fn clone(&self) -> (res: Self)
        ensures
            res == *self,
    {
        List {
            id: self.id,
            page_id: self.page_id,
            title: self.title.clone(),
            position: self.position,
            show_checkboxes: self.show_checkboxes,
            show_progress: self.show_progress,
            created_at: self.created_at,
            updated_at: self.updated_at,
        }
    }
}

#[derive(Debug)]
pub struct CreateList {
    pub title: String,
    pub position: Option<i32>,
    pub show_checkboxes: Option<bool>,
    pub show_progress: Option<bool>,
}

#[derive(Debug)]
pub struct UpdateList {
    pub title: Option<String>,
    pub position: Option<i32>,
    pub show_checkboxes: Option<bool>,
    pub show_progress: Option<bool>,
}

/// A list together with its items.
#[derive(Debug)]
pub struct ListWithItems {
    pub list: List,
    pub items: Vec<ListItem>,
}

/// A checkable item belonging to a list; access derives from the list's page.
#[derive(Debug)]
pub struct ListItem {
    pub id: u64,
    pub list_id: u64,
    pub content: String,
    pub checked: bool,
    pub position: i32,
    pub created_at: i64,
    pub updated_at: i64,
}

impl Clone for ListItem {
    fn clone(&self) -> (res: Self)
        ensures
            res == *self,
    {
        ListItem {
            id: self.id,
            list_id: self.list_id,
            content: self.content.clone(),
            checked: self.checked,
            position: self.position,
            created_at: self.created_at,
            updated_at: self.updated_at,
        }
    }
}

#[derive(Debug)]
pub struct CreateListItem {
    pub content: String,
    pub position: Option<i32>,
}

#[derive(Debug)]
pub struct UpdateListItem {
    pub content: Option<String>,
    pub checked: Option<bool>,
    pub position: Option<i32>,
}

} // verus!
