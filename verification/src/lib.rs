//! Shared-list backend core: credential verification, API-key lifecycle,
//! identity resolution, and the page-permission authority, with the
//! persistence layer modelled as in-memory stores carrying the same
//! uniqueness invariants the database schema enforced.

pub mod error;
pub mod validators;
pub mod models;
pub mod scopes;
pub mod strutil;
pub mod user_repo;
pub mod sequtil;
pub mod api_key_repo;
pub mod page_repo;
pub mod list_repo;
pub mod b64;
pub mod numdec;
pub mod token;
pub mod api_key_service;
pub mod auth_flow;
pub mod routes_pages;
pub mod routes_lists;
pub mod routes_users;
pub mod routes_api_keys;
pub mod routes_public;
pub mod routes_auth;
pub mod config;
