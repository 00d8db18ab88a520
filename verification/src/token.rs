//! Signed session tokens.
//!
//! A token is `base64url(frame) "." signature`, where the frame carries the
//! claims as length-prefixed fields and the signature is the base64url
//! HMAC-SHA256 of the encoded payload under the server secret.  Framing and
//! checking are verified; only the HMAC itself is trusted to the signing
//! crate.

use vstd::prelude::*;

use crate::b64::{
    b64_decode, b64_decode_bytes, b64_encode, b64_encode_bytes, is_b64_byte,
    lemma_b64_encode_alphabet, lemma_b64_round_trip,
};
use crate::error::AppError;
use crate::models::{Claims, CreateUser, TwitchUser, User};
use crate::numdec::{
    all_digits, dec_of, is_digit, lemma_dec_of_digits, lemma_dec_round_trip, parse_dec_range,
    spec_parse_dec, u64_to_dec,
};
use crate::user_repo::{find_user_by_twitch, user_index_by_twitch, UserRepository};
use vstd::string::StrSliceExecFns;
use vstd::utf8::{
    decode_utf8, encode_utf8, encode_utf8_decode_utf8, is_leading_byte_width_1,
    partial_valid_utf8, partial_valid_utf8_extend_ascii_block, valid_utf8,
};

verus! {

/// Seven days, in seconds: the lifetime of a session token.
pub const SESSION_LIFETIME_SECONDS: i64 = 604800;

/// The base64url HMAC-SHA256 signature of `message` under `key`: a function
/// of its arguments alone, computed by the signing crate.
pub uninterp spec fn hs256_sig_of(message: Seq<u8>, key: Seq<u8>) -> Seq<u8>;

/// Relies on jsonwebtoken::crypto::sign with the HS256 algorithm: for HMAC
/// algorithms it always succeeds, its result depends on message and key
/// alone, and it is base64url text without padding.
#[verifier::external_body]
fn hs256_sign(message: &[u8], key: &[u8]) -> (r: Vec<u8>)
    ensures
        r@ == hs256_sig_of(message@, key@),
        forall|i: int| 0 <= i < r@.len() ==> is_b64_byte(#[trigger] r@[i]),
{
    let sig = jsonwebtoken::crypto::sign(
        message,
        &jsonwebtoken::EncodingKey::from_secret(key),
        jsonwebtoken::Algorithm::HS256,
    ).expect("HMAC signing does not fail");
    sig.into_bytes()
}

/// Relies on String::from_utf8: it accepts exactly valid UTF-8 and yields
/// the string those bytes encode.
#[verifier::external_body]
pub fn bytes_to_string(v: Vec<u8>) -> (r: Option<String>)
    ensures
        (r is Some) <==> valid_utf8(v@),
        r matches Some(s) ==> s@ == decode_utf8(v@),
{
    String::from_utf8(v).ok()
}

/// Relies on chrono::Utc::now: the current unix time in seconds.  Nothing
/// is assumed of the clock's value.
#[verifier::external_body]
pub fn now_unix() -> i64 {
    chrono::Utc::now().timestamp()
}

/// ASCII bytes are valid UTF-8.
pub proof fn lemma_ascii_valid_utf8(bytes: Seq<u8>)
    requires
        forall|i: int| 0 <= i < bytes.len() ==> #[trigger] bytes[i] < 0x80,
    ensures
        valid_utf8(bytes),
{
    assert(partial_valid_utf8(bytes, 0)) by {
        assert(bytes.subrange(0, 0) =~= Seq::<u8>::empty());
    }
    assert(forall|i: int|
        0 <= 0 <= i < bytes.len() <= bytes.len() ==> #[trigger] is_leading_byte_width_1(bytes[i]));
    partial_valid_utf8_extend_ascii_block(bytes, 0, bytes.len() as int);
    assert(bytes.subrange(0, bytes.len() as int) =~= bytes);
}

/// Index of the first dot, or the length when there is none.
pub open spec fn first_dot(s: Seq<u8>) -> int
    decreases s.len(),
{
    if s.len() == 0 {
        0
    } else if s[0] == 46 {
        0
    } else {
        1 + first_dot(s.drop_first())
    }
}

/// Splits at the first dot, when there is one.
pub open spec fn split_dot(s: Seq<u8>) -> Option<(Seq<u8>, Seq<u8>)> {
    let i = first_dot(s);
    if 0 <= i < s.len() {
        Some((s.take(i), s.skip(i + 1)))
    } else {
        None
    }
}

proof fn lemma_first_dot_at(s: Seq<u8>, i: int)
    requires
        0 <= i <= s.len(),
        forall|k: int| 0 <= k < i ==> s[k] != 46,
        i < s.len() ==> s[i] == 46,
    ensures
        first_dot(s) == i,
    decreases i,
{
    if i == 0 {
        if s.len() > 0 && s[0] != 46 {
            lemma_first_dot_at(s.drop_first(), 0);
        }
    } else {
        lemma_first_dot_at(s.drop_first(), i - 1);
    }
}

/// The claims frame: subject, provider id and username (each length
/// prefixed), and expiry, joined by dots.
pub open spec fn claims_frame(sub: u64, tw: Seq<u8>, un: Seq<u8>, exp: u64) -> Seq<u8> {
    dec_of(sub as nat) + seq![46u8] + dec_of(tw.len()) + seq![46u8] + tw + seq![46u8] + dec_of(
        un.len(),
    ) + seq![46u8] + un + seq![46u8] + dec_of(exp as nat)
}

/// Parsing a frame: the exact inverse reading of [`claims_frame`].
pub open spec fn parse_frame(s: Seq<u8>) -> Option<(u64, Seq<u8>, Seq<u8>, u64)> {
    match split_dot(s) {
        None => None,
        Some((subs, r1)) => match spec_parse_dec(subs) {
            None => None,
            Some(sub) => match split_dot(r1) {
                None => None,
                Some((l1, r2)) => match spec_parse_dec(l1) {
                    None => None,
                    Some(n1) => if r2.len() < n1 + 1 {
                        None
                    } else {
                        let tw = r2.take(n1 as int);
                        if r2[n1 as int] != 46 {
                            None
                        } else {
                            let r3 = r2.skip(n1 as int + 1);
                            match split_dot(r3) {
                                None => None,
                                Some((l2, r4)) => match spec_parse_dec(l2) {
                                    None => None,
                                    Some(n2) => if r4.len() < n2 + 1 {
                                        None
                                    } else {
                                        let un = r4.take(n2 as int);
                                        if r4[n2 as int] != 46 {
                                            None
                                        } else {
                                            let r5 = r4.skip(n2 as int + 1);
                                            match spec_parse_dec(r5) {
                                                None => None,
                                                Some(exp) => Some((sub, tw, un, exp)),
                                            }
                                        }
                                    },
                                },
                            }
                        }
                    },
                },
            },
        },
    }
}

/// Splitting right after an encoded number followed by a dot.
proof fn lemma_split_after_dec(m: nat, rest: Seq<u8>)
    ensures
        split_dot(dec_of(m) + seq![46u8] + rest) == Some((dec_of(m), rest)),
{
    let a = dec_of(m);
    lemma_dec_of_digits(m);
    let s = a + seq![46u8] + rest;
    assert forall|k: int| 0 <= k < a.len() implies s[k] != 46 by {
        assert(s[k] == a[k]);
        assert(is_digit(a[k]));
    }
    assert(s[a.len() as int] == 46);
    lemma_first_dot_at(s, a.len() as int);
    assert(s.take(a.len() as int) =~= a);
    assert(s.skip(a.len() as int + 1) =~= rest);
}

/// Parsing inverts framing.
#[verifier::rlimit(100)]
pub proof fn lemma_frame_round_trip(sub: u64, tw: Seq<u8>, un: Seq<u8>, exp: u64)
    requires
        tw.len() <= u64::MAX,
        un.len() <= u64::MAX,
    ensures
        parse_frame(claims_frame(sub, tw, un, exp)) == Some((sub, tw, un, exp)),
{
    let s = claims_frame(sub, tw, un, exp);
    let rest1 = dec_of(tw.len()) + seq![46u8] + (tw + seq![46u8] + dec_of(un.len()) + seq![46u8]
        + un + seq![46u8] + dec_of(exp as nat));
    assert(s =~= dec_of(sub as nat) + seq![46u8] + (dec_of(tw.len()) + seq![46u8] + (tw
        + seq![46u8] + dec_of(un.len()) + seq![46u8] + un + seq![46u8] + dec_of(exp as nat))));
    lemma_split_after_dec(sub as nat, dec_of(tw.len()) + seq![46u8] + (tw + seq![46u8] + dec_of(
        un.len(),
    ) + seq![46u8] + un + seq![46u8] + dec_of(exp as nat)));
    lemma_dec_round_trip(sub as nat);
    let r1 = dec_of(tw.len()) + seq![46u8] + (tw + seq![46u8] + dec_of(un.len()) + seq![46u8] + un
        + seq![46u8] + dec_of(exp as nat));
    lemma_split_after_dec(tw.len(), tw + seq![46u8] + dec_of(un.len()) + seq![46u8] + un
        + seq![46u8] + dec_of(exp as nat));
    lemma_dec_round_trip(tw.len());
    let r2 = tw + seq![46u8] + dec_of(un.len()) + seq![46u8] + un + seq![46u8] + dec_of(
        exp as nat,
    );
    assert(r2.len() >= tw.len() + 1);
    assert(r2.take(tw.len() as int) =~= tw);
    assert(r2[tw.len() as int] == 46);
    let r3 = dec_of(un.len()) + seq![46u8] + (un + seq![46u8] + dec_of(exp as nat));
    assert(r2.skip(tw.len() as int + 1) =~= r3);
    lemma_split_after_dec(un.len(), un + seq![46u8] + dec_of(exp as nat));
    lemma_dec_round_trip(un.len());
    let r4 = un + seq![46u8] + dec_of(exp as nat);
    assert(r4.len() >= un.len() + 1);
    assert(r4.take(un.len() as int) =~= un);
    assert(r4[un.len() as int] == 46);
    assert(r4.skip(un.len() as int + 1) =~= dec_of(exp as nat));
    lemma_dec_round_trip(exp as nat);
}

/// Whether a token with this expiry is still valid at `now`.
pub open spec fn not_expired(now: i64, exp: u64) -> bool {
    now < 0 || (now as u64) < exp
}

/// The bytes of the session token issued for these claims under this key.
pub open spec fn token_of(sub: u64, tw: Seq<u8>, un: Seq<u8>, exp: u64, key: Seq<u8>) -> Seq<u8> {
    let p = b64_encode(claims_frame(sub, tw, un, exp));
    p + seq![46u8] + hs256_sig_of(p, key)
}

/// What verification yields on arbitrary token bytes: the claim fields, if
/// the signature over the payload checks out, the payload decodes and
/// parses, and the token is not expired.
pub open spec fn check_token(t: Seq<u8>, key: Seq<u8>, now: i64) -> Option<
    (u64, Seq<u8>, Seq<u8>, u64),
> {
    match split_dot(t) {
        None => None,
        Some((p, sig)) => if sig != hs256_sig_of(p, key) {
            None
        } else {
            match b64_decode(p) {
                None => None,
                Some(frame) => match parse_frame(frame) {
                    None => None,
                    Some(f) => if not_expired(now, f.3) {
                        Some(f)
                    } else {
                        None
                    },
                },
            }
        },
    }
}

/// Round trip of the token scheme: a token issued for given claim fields
/// verifies under the same key exactly while it is unexpired, and then
/// yields exactly the fields that were issued.
pub proof fn lemma_token_round_trip(
    sub: u64,
    tw: Seq<u8>,
    un: Seq<u8>,
    exp: u64,
    key: Seq<u8>,
    now: i64,
)
    requires
        tw.len() <= u64::MAX,
        un.len() <= u64::MAX,
    ensures
        not_expired(now, exp) ==> check_token(token_of(sub, tw, un, exp, key), key, now) == Some(
            (sub, tw, un, exp),
        ),
        !not_expired(now, exp) ==> check_token(token_of(sub, tw, un, exp, key), key, now) is None,
{
    let frame = claims_frame(sub, tw, un, exp);
    let p = b64_encode(frame);
    let sig = hs256_sig_of(p, key);
    let t = token_of(sub, tw, un, exp, key);
    lemma_b64_encode_alphabet(frame);
    assert forall|k: int| 0 <= k < p.len() implies t[k] != 46 by {
        assert(t[k] == p[k]);
    }
    assert(t[p.len() as int] == 46);
    lemma_first_dot_at(t, p.len() as int);
    assert(t.take(p.len() as int) =~= p);
    assert(t.skip(p.len() as int + 1) =~= sig);
    lemma_b64_round_trip(frame);
    lemma_frame_round_trip(sub, tw, un, exp);
}

/// Round trip at the claims level: a session token issued for given claims
/// checks out under the same key exactly while it is unexpired, and then
/// yields the issued subject, provider id, username and expiry.
pub proof fn lemma_session_token_round_trip(c: Claims, key: Seq<u8>, now: i64)
    requires
        encode_utf8(c.twitch_id@).len() <= u64::MAX,
        encode_utf8(c.username@).len() <= u64::MAX,
    ensures
        not_expired(now, c.exp) ==> (check_token(
            token_of(c.sub, encode_utf8(c.twitch_id@), encode_utf8(c.username@), c.exp, key),
            key,
            now,
        ) matches Some(f) && f.0 == c.sub && decode_utf8(f.1) == c.twitch_id@ && decode_utf8(f.2)
            == c.username@ && f.3 == c.exp),
        !not_expired(now, c.exp) ==> check_token(
            token_of(c.sub, encode_utf8(c.twitch_id@), encode_utf8(c.username@), c.exp, key),
            key,
            now,
        ) is None,
{
    lemma_token_round_trip(
        c.sub,
        encode_utf8(c.twitch_id@),
        encode_utf8(c.username@),
        c.exp,
        key,
        now,
    );
    encode_utf8_decode_utf8(c.twitch_id@);
    encode_utf8_decode_utf8(c.username@);
}

/// Issuing and verification of session tokens; holds the server secret and
/// the provider client credentials.
pub struct AuthService {
    jwt_secret: String,
    client_id: String,
    client_secret: String,
}

impl AuthService {
    /// The key bytes tokens are signed with.
    pub closed spec fn key_view(&self) -> Seq<u8> {
        encode_utf8(self.jwt_secret@)
    }

    pub fn new(jwt_secret: String, client_id: String, client_secret: String) -> (r: Self)
        ensures
            r.key_view() == encode_utf8(jwt_secret@),
    {
        AuthService { jwt_secret, client_id, client_secret }
    }

    /// Issues a session token for the user, expiring seven days from `now`.
    /// Only an expiry that cannot be represented is refused.
    pub fn create_jwt(&self, user: &User, now: i64) -> (r: Result<String, AppError>)
        ensures
            (r is Ok) <==> (0 <= now && now + SESSION_LIFETIME_SECONDS <= i64::MAX),
            r matches Ok(t) ==> encode_utf8(t@) == token_of(
                user.id,
                encode_utf8(user.twitch_id@),
                encode_utf8(user.username@),
                (now + SESSION_LIFETIME_SECONDS) as u64,
                self.key_view(),
            ),
    {
        if now < 0 || now > i64::MAX - SESSION_LIFETIME_SECONDS {
            return Err(AppError::Internal("Failed to calculate expiration".to_owned()));
        }
        let exp: u64 = (now + SESSION_LIFETIME_SECONDS) as u64;
        let tw_bytes = user.twitch_id.as_str().as_bytes_vec();
        let un_bytes = user.username.as_str().as_bytes_vec();
        let frame = build_frame(user.id, &tw_bytes, &un_bytes, exp);
        let p64 = b64_encode_bytes(&frame);
        let ghost p = p64@;
        let key = self.jwt_secret.as_str().as_bytes_vec();
        let sig = hs256_sign(p64.as_slice(), key.as_slice());
        let mut token_bytes = p64;
        token_bytes.push(46);
        let mut sig_vec = sig;
        token_bytes.append(&mut sig_vec);
        proof {
            assert(token_bytes@ =~= p + seq![46u8] + hs256_sig_of(p, self.key_view()));
            lemma_b64_encode_alphabet(frame@);
            assert forall|i: int| 0 <= i < token_bytes@.len() implies #[trigger] token_bytes@[i]
                < 0x80 by {
                if i < p.len() {
                    assert(token_bytes@[i] == p[i]);
                    assert(is_b64_byte(p[i]));
                } else if i == p.len() {
                } else {
                    assert(is_b64_byte(hs256_sig_of(p, self.key_view())[i - p.len() - 1]));
                }
            }
            lemma_ascii_valid_utf8(token_bytes@);
        }
        let ghost tb = token_bytes@;
        match bytes_to_string(token_bytes) {
            Some(t) => {
                proof {
                    vstd::utf8::decode_utf8_encode_utf8(tb);
                }
                Ok(t)
            },
            None => Err(AppError::Internal("Failed to create session token".to_owned())),
        }
    }

    /// Verifies a session token at time `now`: the signature must match the
    /// payload under the server key, the payload must decode and parse, the
    /// token must be unexpired, and the claim fields must be text.
    pub fn verify_jwt(&self, token: &str, now: i64) -> (r: Result<Claims, AppError>)
        ensures
            (r is Ok) <==> (check_token(encode_utf8(token@), self.key_view(), now) matches Some(f)
                && valid_utf8(f.1) && valid_utf8(f.2)),
            r matches Ok(c) ==> (check_token(encode_utf8(token@), self.key_view(), now)
                matches Some(f) && c.sub == f.0 && c.twitch_id@ == decode_utf8(f.1) && c.username@
                == decode_utf8(f.2) && c.exp == f.3),
    {
        let bytes = token.as_bytes_vec();
        let n = bytes.len();
        let i = match find_dot(&bytes) {
            Some(i) => i,
            None => {
                return Err(AppError::Internal("Failed to verify session token".to_owned()));
            },
        };
        let p64 = subvec(&bytes, 0, i);
        let sig = subvec(&bytes, i + 1, n);
        let key = self.jwt_secret.as_str().as_bytes_vec();
        let expected = hs256_sign(p64.as_slice(), key.as_slice());
        if !vec_u8_eq(&sig, &expected) {
            return Err(AppError::Internal("Failed to verify session token".to_owned()));
        }
        let frame = match b64_decode_bytes(&p64) {
            Some(f) => f,
            None => {
                return Err(AppError::Internal("Failed to verify session token".to_owned()));
            },
        };
        let parsed = match parse_frame_bytes(&frame) {
            Some(t) => t,
            None => {
                return Err(AppError::Internal("Failed to verify session token".to_owned()));
            },
        };
        let (sub, twb, unb, exp) = parsed;
        if !(now < 0 || (now as u64) < exp) {
            return Err(AppError::Internal("Failed to verify session token".to_owned()));
        }
        let twitch_id = match bytes_to_string(twb) {
            Some(s) => s,
            None => {
                return Err(AppError::Internal("Failed to verify session token".to_owned()));
            },
        };
        let username = match bytes_to_string(unb) {
            Some(s) => s,
            None => {
                return Err(AppError::Internal("Failed to verify session token".to_owned()));
            },
        };
        Ok(Claims { sub, twitch_id, username, exp })
    }

    /// Finds the user by provider id and refreshes the provider-sourced
    /// fields, or creates the user on first login.
    pub fn get_or_create_user(
        &self,
        users: &mut UserRepository,
        twitch_user: TwitchUser,
        now: i64,
    ) -> (r: User)
        requires
            old(users).wf(),
        ensures
            final(users).wf(),
            find_user_by_twitch(old(users)@, twitch_user.id@) matches Some(u) ==> {
                let i = user_index_by_twitch(old(users)@, twitch_user.id@);
                &&& r.id == u.id
                &&& r.username@ == twitch_user.login@
                &&& (r.display_name matches Some(d) && d@ == twitch_user.display_name@)
                &&& (r.profile_image_url matches Some(p) && p@ == twitch_user.profile_image_url@)
                &&& r.email == twitch_user.email
                &&& final(users)@ == old(users)@.update(i, r)
            },
            find_user_by_twitch(old(users)@, twitch_user.id@) is None ==> {
                &&& r.twitch_id == twitch_user.id
                &&& r.username == twitch_user.login
                &&& (r.display_name matches Some(d) && d@ == twitch_user.display_name@)
                &&& (r.profile_image_url matches Some(p) && p@ == twitch_user.profile_image_url@)
                &&& r.email == twitch_user.email
                &&& final(users)@ == old(users)@.push(r)
            },
    {
        match users.update_twitch_info(
            twitch_user.id.as_str(),
            twitch_user.login.as_str(),
            twitch_user.display_name.as_str(),
            twitch_user.profile_image_url.as_str(),
            crate::models::clone_opt_string(&twitch_user.email),
            now,
        ) {
            Some(u) => {
                proof {
                    crate::user_repo::lemma_find_user_by_twitch_index(old(users)@, twitch_user.id@);
                }
                u
            },
            None => {
                let new_user = CreateUser {
                    twitch_id: twitch_user.id,
                    username: twitch_user.login,
                    display_name: Some(twitch_user.display_name),
                    profile_image_url: Some(twitch_user.profile_image_url),
                    email: twitch_user.email,
                };
                users.create(new_user, now)
            },
        }
    }
}

/// Byte-wise equality of two vectors.
pub fn vec_u8_eq(a: &Vec<u8>, b: &Vec<u8>) -> (r: bool)
    ensures
        r == (a@ == b@),
{
    if a.len() != b.len() {
        return false;
    }
    let mut i: usize = 0;
    while i < a.len()
        invariant
            0 <= i <= a@.len(),
            a@.len() == b@.len(),
            forall|k: int| 0 <= k < i ==> a@[k] == b@[k],
        decreases a@.len() - i,
    {
        if a[i] != b[i] {
            return false;
        }
        i = i + 1;
    }
    proof {
        assert(a@ =~= b@);
    }
    true
}

/// Copy of a byte range.
fn subvec(s: &Vec<u8>, from: usize, to: usize) -> (r: Vec<u8>)
    requires
        from <= to <= s@.len(),
    ensures
        r@ == s@.subrange(from as int, to as int),
{
    let mut r: Vec<u8> = Vec::new();
    let mut i: usize = from;
    while i < to
        invariant
            from <= i <= to <= s@.len(),
            r@ == s@.subrange(from as int, i as int),
        decreases to - i,
    {
        r.push(s[i]);
        proof {
            assert(r@ =~= s@.subrange(from as int, i + 1 as int));
        }
        i = i + 1;
    }
    r
}

/// Position of the first dot, when there is one.
fn find_dot(s: &Vec<u8>) -> (r: Option<usize>)
    ensures
        r matches Some(i) ==> i == first_dot(s@) && i < s@.len() && s@[i as int] == 46,
        r is None ==> first_dot(s@) == s@.len(),
{
    let mut i: usize = 0;
    while i < s.len()
        invariant
            0 <= i <= s@.len(),
            forall|k: int| 0 <= k < i ==> s@[k] != 46,
        decreases s@.len() - i,
    {
        if s[i] == 46 {
            proof {
                lemma_first_dot_at(s@, i as int);
            }
            return Some(i);
        }
        i = i + 1;
    }
    proof {
        lemma_first_dot_at(s@, s@.len() as int);
    }
    None
}

/// Builds the claims frame.
fn build_frame(sub: u64, tw: &Vec<u8>, un: &Vec<u8>, exp: u64) -> (r: Vec<u8>)
    ensures
        r@ == claims_frame(sub, tw@, un@, exp),
{
    let mut r = u64_to_dec(sub);
    r.push(46);
    let mut part = u64_to_dec(tw.len() as u64);
    r.append(&mut part);
    r.push(46);
    let mut twc = tw.clone();
    r.append(&mut twc);
    r.push(46);
    let mut part2 = u64_to_dec(un.len() as u64);
    r.append(&mut part2);
    r.push(46);
    let mut unc = un.clone();
    r.append(&mut unc);
    r.push(46);
    let mut part3 = u64_to_dec(exp);
    r.append(&mut part3);
    proof {
        assert(r@ =~= claims_frame(sub, tw@, un@, exp));
    }
    r
}

/// Parses a claims frame.
fn parse_frame_bytes(s: &Vec<u8>) -> (r: Option<(u64, Vec<u8>, Vec<u8>, u64)>)
    ensures
        (r is Some) <==> (parse_frame(s@) is Some),
        r matches Some(f) ==> parse_frame(s@) == Some((f.0, f.1@, f.2@, f.3)),
{
    let n = s.len();
    let i1 = match find_dot(s) {
        Some(i) => i,
        None => {
            return None;
        },
    };
    proof {
        assert(s@.take(i1 as int) =~= s@.subrange(0, i1 as int));
    }
    let sub = match parse_dec_range(s, 0, i1) {
        Some(v) => v,
        None => {
            return None;
        },
    };
    let r1 = subvec(s, i1 + 1, n);
    proof {
        assert(r1@ =~= s@.skip(i1 as int + 1));
    }
    let i2 = match find_dot(&r1) {
        Some(i) => i,
        None => {
            return None;
        },
    };
    proof {
        assert(r1@.take(i2 as int) =~= r1@.subrange(0, i2 as int));
    }
    let n1 = match parse_dec_range(&r1, 0, i2) {
        Some(v) => v,
        None => {
            return None;
        },
    };
    let r2 = subvec(&r1, i2 + 1, r1.len());
    proof {
        assert(r2@ =~= r1@.skip(i2 as int + 1));
    }
    let len2: u64 = r2.len() as u64;
    if n1 >= len2 {
        return None;
    }
    let n1u: usize = n1 as usize;
    let tw = subvec(&r2, 0, n1u);
    proof {
        assert(tw@ =~= r2@.take(n1 as int));
    }
    if r2[n1u] != 46 {
        return None;
    }
    let r3 = subvec(&r2, n1u + 1, r2.len());
    proof {
        assert(r3@ =~= r2@.skip(n1 as int + 1));
    }
    let i3 = match find_dot(&r3) {
        Some(i) => i,
        None => {
            return None;
        },
    };
    proof {
        assert(r3@.take(i3 as int) =~= r3@.subrange(0, i3 as int));
    }
    let n2 = match parse_dec_range(&r3, 0, i3) {
        Some(v) => v,
        None => {
            return None;
        },
    };
    let r4 = subvec(&r3, i3 + 1, r3.len());
    proof {
        assert(r4@ =~= r3@.skip(i3 as int + 1));
    }
    let len4: u64 = r4.len() as u64;
    if n2 >= len4 {
        return None;
    }
    let n2u: usize = n2 as usize;
    let un = subvec(&r4, 0, n2u);
    proof {
        assert(un@ =~= r4@.take(n2 as int));
    }
    if r4[n2u] != 46 {
        return None;
    }
    let r5 = subvec(&r4, n2u + 1, r4.len());
    proof {
        assert(r5@ =~= r4@.skip(n2 as int + 1));
        assert(r5@.subrange(0, r5@.len() as int) =~= r5@);
    }
    let exp = match parse_dec_range(&r5, 0, r5.len()) {
        Some(v) => v,
        None => {
            return None;
        },
    };
    Some((sub, tw, un, exp))
}

} // verus!
