//! Request authentication: the credential carriers of a request, in
//! priority order, resolve to one identity or one failure.  A carrier that
//! is present but invalid never falls through to a later carrier.

use vstd::prelude::*;

use crate::api_key_repo::find_key_by_hash;
use crate::api_key_service::{sha256_hex_of, ApiKeyService};
use crate::error::AuthError;
use crate::models::Identity;
use crate::scopes::decode_scopes_spec;
use crate::token::{check_token, AuthService};
use crate::user_repo::{find_user, UserRepository};
use crate::validators::trim_spec;
use vstd::string::StrSliceExecFns;
use vstd::utf8::{decode_utf8, encode_utf8, valid_utf8};

verus! {

/// The credential material a request carries.
pub struct RequestCredentials {
    pub x_api_key: Option<String>,
    pub authorization: Option<String>,
    pub cookie: Option<String>,
}

/// The one carrier a request resolves to, in priority order: dedicated
/// API-key header, API-key scheme in the authorization header, bearer
/// scheme, then the session cookie.
pub enum CredentialCarrier {
    ApiKeyHeader(String),
    ApiKeyAuth(String),
    BearerAuth(String),
    SessionCookie(String),
    NoCredential,
}

pub open spec fn starts_with(s: Seq<char>, p: Seq<char>) -> bool {
    p.len() <= s.len() && s.subrange(0, p.len() as int) == p
}

/// Index of the first semicolon, or the length when there is none.
pub open spec fn first_semi(s: Seq<char>) -> int
    decreases s.len(),
{
    if s.len() == 0 {
        0
    } else if s[0] == ';' {
        0
    } else {
        1 + first_semi(s.drop_first())
    }
}

/// Index of the first equals sign, or the length when there is none.
pub open spec fn first_eq_sign(s: Seq<char>) -> int
    decreases s.len(),
{
    if s.len() == 0 {
        0
    } else if s[0] == '=' {
        0
    } else {
        1 + first_eq_sign(s.drop_first())
    }
}

/// A surrounding pair of double quotes is stripped from a cookie value.
pub open spec fn unquote(v: Seq<char>) -> Seq<char> {
    if v.len() >= 2 && v[0] == '"' && v.last() == '"' {
        v.subrange(1, v.len() - 1)
    } else {
        v
    }
}

/// The value of one `name=value` cookie pair, if its name matches.
pub open spec fn pair_value(p: Seq<char>, name: Seq<char>) -> Option<Seq<char>> {
    let j = first_eq_sign(p);
    if 0 <= j < p.len() && trim_spec(p.take(j)) == name {
        Some(unquote(trim_spec(p.skip(j + 1))))
    } else {
        None
    }
}

/// The value of the named cookie in a possibly multiplexed cookie header:
/// pairs are separated by semicolons, each trimmed; the first matching
/// pair wins.
pub open spec fn cookie_value(s: Seq<char>, name: Seq<char>) -> Option<Seq<char>>
    decreases s.len(),
{
    let i = first_semi(s);
    if 0 <= i < s.len() {
        match pair_value(trim_spec(s.take(i)), name) {
            Some(v) => Some(v),
            None => cookie_value(s.skip(i + 1), name),
        }
    } else {
        pair_value(trim_spec(s), name)
    }
}

/// The API-key material of a request, when an API-key carrier is present:
/// the dedicated header first, else the API-key scheme of the
/// authorization header.
pub open spec fn api_key_token(req: RequestCredentials) -> Option<Seq<char>> {
    match req.x_api_key {
        Some(t) => Some(t@),
        None => match req.authorization {
            Some(a) => if starts_with(a@, "ApiKey "@) {
                Some(a@.skip("ApiKey "@.len() as int))
            } else {
                None
            },
            None => None,
        },
    }
}

/// The session-token material of a request, when no API-key carrier is
/// present: the bearer scheme first, else the session cookie.  An
/// authorization header with no recognized scheme counts as absent.
pub open spec fn session_token(req: RequestCredentials) -> Option<Seq<char>> {
    if api_key_token(req) is Some {
        None
    } else {
        match req.authorization {
            Some(a) => if starts_with(a@, "Bearer "@) {
                Some(a@.skip("Bearer "@.len() as int))
            } else {
                cookie_fallback(req)
            },
            None => cookie_fallback(req),
        }
    }
}

/// The session cookie's token, when the request carries one.
pub open spec fn cookie_fallback(req: RequestCredentials) -> Option<Seq<char>> {
    match req.cookie {
        Some(ch) => cookie_value(ch@, "auth_token"@),
        None => None,
    }
}

pub fn str_starts_with(s: &str, p: &str) -> (r: bool)
    ensures
        r == starts_with(s@, p@),
{
    let n = p.unicode_len();
    let m = s.unicode_len();
    if n > m {
        return false;
    }
    let mut i: usize = 0;
    while i < n
        invariant
            0 <= i <= n,
            n == p@.len(),
            n <= m == s@.len(),
            forall|k: int| 0 <= k < i ==> s@[k] == p@[k],
        decreases n - i,
    {
        if s.get_char(i) != p.get_char(i) {
            proof {
                assert(s@.subrange(0, n as int)[i as int] != p@[i as int]);
            }
            return false;
        }
        i = i + 1;
    }
    proof {
        assert(s@.subrange(0, n as int) =~= p@);
    }
    true
}

proof fn lemma_first_semi_at(s: Seq<char>, i: int)
    requires
        0 <= i <= s.len(),
        forall|k: int| 0 <= k < i ==> s[k] != ';',
        i < s.len() ==> s[i] == ';',
    ensures
        first_semi(s) == i,
    decreases i,
{
    if i == 0 {
        if s.len() > 0 && s[0] != ';' {
            lemma_first_semi_at(s.drop_first(), 0);
        }
    } else {
        lemma_first_semi_at(s.drop_first(), i - 1);
    }
}

proof fn lemma_first_eq_at(s: Seq<char>, i: int)
    requires
        0 <= i <= s.len(),
        forall|k: int| 0 <= k < i ==> s[k] != '=',
        i < s.len() ==> s[i] == '=',
    ensures
        first_eq_sign(s) == i,
    decreases i,
{
    if i == 0 {
        if s.len() > 0 && s[0] != '=' {
            lemma_first_eq_at(s.drop_first(), 0);
        }
    } else {
        lemma_first_eq_at(s.drop_first(), i - 1);
    }
}

/// Examines one trimmed cookie pair.
fn pair_value_str(p: &str, name: &str) -> (r: Option<String>)
    ensures
        (r is Some) <==> (pair_value(p@, name@) is Some),
        r matches Some(v) ==> pair_value(p@, name@) == Some(v@),
{
    let n = p.unicode_len();
    let mut j: usize = 0;
    while j < n && p.get_char(j) != '='
        invariant
            0 <= j <= n,
            n == p@.len(),
            forall|k: int| 0 <= k < j ==> p@[k] != '=',
        decreases n - j,
    {
        j = j + 1;
    }
    proof {
        lemma_first_eq_at(p@, j as int);
    }
    if j == n {
        return None;
    }
    let name_part = crate::validators::trim(p.substring_char(0, j));
    proof {
        assert(p@.subrange(0, j as int) =~= p@.take(j as int));
    }
    if !crate::strutil::str_eq(name_part.as_str(), name) {
        return None;
    }
    let value_part = crate::validators::trim(p.substring_char(j + 1, n));
    proof {
        assert(p@.subrange(j + 1 as int, n as int) =~= p@.skip(j + 1 as int));
    }
    let vlen = value_part.as_str().unicode_len();
    if vlen >= 2 && value_part.as_str().get_char(0) == '"' && value_part.as_str().get_char(vlen - 1)
        == '"' {
        Some(value_part.as_str().substring_char(1, vlen - 1).to_owned())
    } else {
        proof {
            assert(unquote(value_part@) == value_part@);
        }
        Some(value_part)
    }
}

/// Finds the named cookie in a cookie header.
pub fn cookie_value_str(header: &str, name: &str) -> (r: Option<String>)
    ensures
        (r is Some) <==> (cookie_value(header@, name@) is Some),
        r matches Some(v) ==> cookie_value(header@, name@) == Some(v@),
{
    let n = header.unicode_len();
    let mut start: usize = 0;
    proof {
        assert(header@.skip(0) =~= header@);
    }
    loop
        invariant
            0 <= start <= n,
            n == header@.len(),
            cookie_value(header@, name@) == cookie_value(header@.skip(start as int), name@),
        decreases n - start,
    {
        let mut j: usize = start;
        while j < n && header.get_char(j) != ';'
            invariant
                start <= j <= n,
                n == header@.len(),
                forall|k: int| start <= k < j ==> header@[k] != ';',
            decreases n - j,
        {
            j = j + 1;
        }
        let ghost rest = header@.skip(start as int);
        proof {
            lemma_first_semi_at(rest, j - start as int);
        }
        let piece = crate::validators::trim(header.substring_char(start, j));
        proof {
            assert(rest.take(j - start as int) =~= header@.subrange(start as int, j as int));
        }
        match pair_value_str(piece.as_str(), name) {
            Some(v) => {
                return Some(v);
            },
            None => {},
        }
        if j == n {
            proof {
                assert(rest.take(j - start as int) =~= rest);
            }
            return None;
        }
        proof {
            assert(rest.skip(j - start as int + 1) =~= header@.skip(j + 1 as int));
        }
        start = j + 1;
    }
}

/// Resolves the request to its one carrier, in priority order.
pub fn parse_carrier(req: &RequestCredentials) -> (c: CredentialCarrier)
    ensures
        req.x_api_key matches Some(t) ==> (c matches CredentialCarrier::ApiKeyHeader(v) && v@
            == t@),
        req.x_api_key is None ==> (api_key_token(*req) matches Some(t) ==> (c
            matches CredentialCarrier::ApiKeyAuth(v) && v@ == t)),
        api_key_token(*req) is None ==> (session_token(*req) matches Some(t) ==> ((c
            matches CredentialCarrier::BearerAuth(v) && v@ == t) || (c
            matches CredentialCarrier::SessionCookie(v) && v@ == t))),
        api_key_token(*req) is None && session_token(*req) is None ==> c
            is NoCredential,
    {
    proof {
        reveal_strlit("ApiKey ");
        reveal_strlit("Bearer ");
    }
    if let Some(x) = &req.x_api_key {
        return CredentialCarrier::ApiKeyHeader(x.clone());
    }
    if let Some(a) = &req.authorization {
        if str_starts_with(a.as_str(), "ApiKey ") {
            let n = a.as_str().unicode_len();
            let tok = a.as_str().substring_char(7, n).to_owned();
            proof {
                assert(a@.subrange(7, n as int) =~= a@.skip(7));
            }
            return CredentialCarrier::ApiKeyAuth(tok);
        }
        if str_starts_with(a.as_str(), "Bearer ") {
            let n = a.as_str().unicode_len();
            let tok = a.as_str().substring_char(7, n).to_owned();
            proof {
                assert(a@.subrange(7, n as int) =~= a@.skip(7));
            }
            return CredentialCarrier::BearerAuth(tok);
        }
    }
    if let Some(ch) = &req.cookie {
        match cookie_value_str(ch.as_str(), "auth_token") {
            Some(tok) => {
                return CredentialCarrier::SessionCookie(tok);
            },
            None => {},
        }
    }
    CredentialCarrier::NoCredential
}

/// Resolves an API-key credential: the hash lookup must hit a non-revoked
/// key and the owning user must still exist; the resulting identity is
/// scope-limited to exactly the key's scopes.
fn authenticate_api_key(token: &str, api_key_service: &ApiKeyService, users: &UserRepository) -> (r:
    Result<Identity, AuthError>)
    requires
        api_key_service.wf(),
        users.wf(),
    ensures
        ({
            match find_key_by_hash(api_key_service.keys(), sha256_hex_of(token@)) {
                Some(k) => match find_user(users@, k.user_id) {
                    Some(u) => r matches Ok(ident) && ident.user_id == u.id && ident.twitch_id@
                        == u.twitch_id@ && ident.username@ == u.username@ && (ident.scopes
                        matches Some(sc) && sc@.map_values(|s: String| s@) == decode_scopes_spec(
                        k.scopes@,
                    )),
                    None => r == Err::<Identity, AuthError>(AuthError::InvalidToken),
                },
                None => r == Err::<Identity, AuthError>(AuthError::InvalidToken),
            }
        }),
{
    match api_key_service.verify_token(token) {
        Some(p) => {
            let (user_id, scopes) = p;
            match users.find_by_id(user_id) {
                Some(user) => Ok(
                    Identity {
                        user_id: user.id,
                        twitch_id: user.twitch_id,
                        username: user.username,
                        expiry: u64::MAX / 2,
                        scopes: Some(scopes),
                    },
                ),
                None => Err(AuthError::InvalidToken),
            }
        },
        None => Err(AuthError::InvalidToken),
    }
}

/// Resolves a session credential: the token must verify and be unexpired,
/// and its subject must still exist in the user store; the resulting
/// identity carries full privileges.
fn authenticate_session(
    token: &str,
    auth_service: &AuthService,
    users: &UserRepository,
    now: i64,
) -> (r: Result<Identity, AuthError>)
    requires
        users.wf(),
    ensures
        ({
            match check_token(encode_utf8(token@), auth_service.key_view(), now) {
                Some(f) => if valid_utf8(f.1) && valid_utf8(f.2) {
                    match find_user(users@, f.0) {
                        Some(u) => r matches Ok(ident) && ident.user_id == f.0 && ident.twitch_id@
                            == decode_utf8(f.1) && ident.username@ == decode_utf8(f.2)
                            && ident.expiry == f.3 && ident.scopes is None,
                        None => r == Err::<Identity, AuthError>(AuthError::InvalidToken),
                    }
                } else {
                    r == Err::<Identity, AuthError>(AuthError::InvalidToken)
                },
                None => r == Err::<Identity, AuthError>(AuthError::InvalidToken),
            }
        }),
{
    match auth_service.verify_jwt(token, now) {
        Ok(claims) => {
            match users.find_by_id(claims.sub) {
                Some(_user) => Ok(
                    Identity {
                        user_id: claims.sub,
                        twitch_id: claims.twitch_id,
                        username: claims.username,
                        expiry: claims.exp,
                        scopes: None,
                    },
                ),
                None => Err(AuthError::InvalidToken),
            }
        },
        Err(_) => Err(AuthError::InvalidToken),
    }
}

/// Authenticates a request: the highest-priority carrier present is
/// resolved; a present-but-invalid credential fails with an invalid-token
/// error rather than trying later carriers, and a request with no carrier
/// fails with a missing-token error.
pub fn authenticate(
    req: &RequestCredentials,
    auth_service: &AuthService,
    api_key_service: &ApiKeyService,
    users: &UserRepository,
    now: i64,
) -> (r: Result<Identity, AuthError>)
    requires
        api_key_service.wf(),
        users.wf(),
    ensures
        api_key_token(*req) matches Some(t) ==> ({
            match find_key_by_hash(api_key_service.keys(), sha256_hex_of(t)) {
                Some(k) => match find_user(users@, k.user_id) {
                    Some(u) => r matches Ok(ident) && ident.user_id == u.id && ident.twitch_id@
                        == u.twitch_id@ && ident.username@ == u.username@ && (ident.scopes
                        matches Some(sc) && sc@.map_values(|s: String| s@) == decode_scopes_spec(
                        k.scopes@,
                    )),
                    None => r == Err::<Identity, AuthError>(AuthError::InvalidToken),
                },
                None => r == Err::<Identity, AuthError>(AuthError::InvalidToken),
            }
        }),
        api_key_token(*req) is None ==> (session_token(*req) matches Some(t) ==> {
            match check_token(encode_utf8(t), auth_service.key_view(), now) {
                Some(f) => if valid_utf8(f.1) && valid_utf8(f.2) {
                    match find_user(users@, f.0) {
                        Some(u) => r matches Ok(ident) && ident.user_id == f.0 && ident.twitch_id@
                            == decode_utf8(f.1) && ident.username@ == decode_utf8(f.2)
                            && ident.expiry == f.3 && ident.scopes is None,
                        None => r == Err::<Identity, AuthError>(AuthError::InvalidToken),
                    }
                } else {
                    r == Err::<Identity, AuthError>(AuthError::InvalidToken)
                },
                None => r == Err::<Identity, AuthError>(AuthError::InvalidToken),
            }
        }),
        api_key_token(*req) is None && session_token(*req) is None ==> r == Err::<
            Identity,
            AuthError,
        >(AuthError::MissingToken),
{
    let carrier = parse_carrier(req);
    match carrier {
        CredentialCarrier::ApiKeyHeader(t) => authenticate_api_key(
            t.as_str(),
            api_key_service,
            users,
        ),
        CredentialCarrier::ApiKeyAuth(t) => authenticate_api_key(
            t.as_str(),
            api_key_service,
            users,
        ),
        CredentialCarrier::BearerAuth(t) => authenticate_session(
            t.as_str(),
            auth_service,
            users,
            now,
        ),
        CredentialCarrier::SessionCookie(t) => authenticate_session(
            t.as_str(),
            auth_service,
            users,
            now,
        ),
        CredentialCarrier::NoCredential => Err(AuthError::MissingToken),
    }
}

/// The Set-Cookie value that logs a session in: http-only, lax, living as
/// long as the token, and secure exactly when the site is served
/// encrypted.
pub fn build_auth_cookie(token: &str, secure: bool) -> (r: String)
    ensures
        r@ == "auth_token="@ + token@
            + "; Path=/; HttpOnly; SameSite=Lax; Max-Age=604800"@ + (if secure {
            "; Secure"@
        } else {
            Seq::<char>::empty()
        }),
{
    let mut r = "auth_token=".to_owned();
    r.append(token);
    r.append("; Path=/; HttpOnly; SameSite=Lax; Max-Age=604800");
    if secure {
        r.append("; Secure");
    }
    r
}

/// The Set-Cookie value that logs a session out: the cookie cleared with a
/// zero lifetime.
pub fn build_logout_cookie(secure: bool) -> (r: String)
    ensures
        r@ == "auth_token=; Path=/; HttpOnly; Max-Age=0"@ + (if secure {
            "; Secure"@
        } else {
            Seq::<char>::empty()
        }),
{
    let mut r = "auth_token=; Path=/; HttpOnly; Max-Age=0".to_owned();
    if secure {
        r.append("; Secure");
    }
    r
}

} // verus!
