//! The login flow's computable parts: the provider authorize URL, with the
//! redirect target percent-encoded.  The code-for-token exchange and the
//! user-info fetch are calls to the provider's HTTP API and stay outside;
//! issuing the session cookie afterwards is in the authentication module.

use vstd::prelude::*;

use crate::token::bytes_to_string;
use vstd::string::StrSliceExecFns;
use vstd::utf8::{decode_utf8, encode_utf8, valid_utf8};

verus! {

/// The query parameters the provider redirects back with.
#[derive(Debug)]
pub struct AuthCallbackQuery {
    pub code: String,
    pub state: Option<String>,
}

/// Bytes that percent-encoding leaves as they are: letters, digits,
/// hyphen, underscore, dot and tilde.
pub open spec fn is_url_unreserved(b: u8) -> bool {
    ||| 65 <= b <= 90
    ||| 97 <= b <= 122
    ||| 48 <= b <= 57
    ||| b == 45
    ||| b == 95
    ||| b == 46
    ||| b == 126
}

/// The uppercase hex digit of a value below sixteen.
pub open spec fn hex_upper(d: u8) -> u8 {
    if d < 10 {
        (48 + d) as u8
    } else {
        (55 + d) as u8
    }
}

/// Percent-encoding of a byte string: unreserved bytes stay, every other
/// byte becomes a percent sign and two uppercase hex digits.
pub open spec fn percent_encode_bytes(s: Seq<u8>) -> Seq<u8>
    decreases s.len(),
{
    if s.len() == 0 {
        Seq::empty()
    } else {
        let head = if is_url_unreserved(s[0]) {
            seq![s[0]]
        } else {
            seq![37u8, hex_upper(s[0] / 16), hex_upper(s[0] % 16)]
        };
        head + percent_encode_bytes(s.drop_first())
    }
}

/// The percent-encoded form of a string, as characters; the encoding works
/// on the string's UTF-8 bytes and yields ASCII.
pub open spec fn percent_encoded(s: Seq<char>) -> Seq<char> {
    decode_utf8(percent_encode_bytes(encode_utf8(s)))
}

fn hex_upper_exec(d: u8) -> (r: u8)
    requires
        d < 16,
    ensures
        r == hex_upper(d),
{
    if d < 10 {
        48 + d
    } else {
        55 + d
    }
}

fn is_url_unreserved_exec(b: u8) -> (r: bool)
    ensures
        r == is_url_unreserved(b),
{
    (65 <= b && b <= 90) || (97 <= b && b <= 122) || (48 <= b && b <= 57) || b == 45 || b == 95
        || b == 46 || b == 126
}

proof fn lemma_percent_encode_ascii(s: Seq<u8>)
    ensures
        forall|i: int|
            0 <= i < percent_encode_bytes(s).len() ==> #[trigger] percent_encode_bytes(s)[i]
                < 0x80,
    decreases s.len(),
{
    if s.len() > 0 {
        lemma_percent_encode_ascii(s.drop_first());
        let e = percent_encode_bytes(s);
        let rest = percent_encode_bytes(s.drop_first());
        let head = if is_url_unreserved(s[0]) {
            seq![s[0]]
        } else {
            seq![37u8, hex_upper(s[0] / 16), hex_upper(s[0] % 16)]
        };
        assert forall|i: int| 0 <= i < e.len() implies e[i] < 0x80 by {
            if i >= head.len() {
                assert(e[i] == rest[i - head.len()]);
            }
        }
    }
}

/// Percent-encodes a string for use inside a URL query.
pub fn percent_encode(s: &str) -> (r: String)
    ensures
        r@ == percent_encoded(s@),
{
    let bytes = s.as_bytes_vec();
    let n = bytes.len();
    let mut out: Vec<u8> = Vec::new();
    let mut i: usize = 0;
    proof {
        assert(bytes@.skip(0) =~= bytes@);
    }
    while i < n
        invariant
            0 <= i <= n,
            n == bytes@.len(),
            percent_encode_bytes(bytes@) == out@ + percent_encode_bytes(bytes@.skip(i as int)),
        decreases n - i,
    {
        proof {
            assert(bytes@.skip(i as int).drop_first() =~= bytes@.skip(i + 1));
            assert(bytes@.skip(i as int)[0] == bytes@[i as int]);
        }
        let b = bytes[i];
        if is_url_unreserved_exec(b) {
            out.push(b);
        } else {
            out.push(37);
            out.push(hex_upper_exec(b / 16));
            out.push(hex_upper_exec(b % 16));
        }
        i = i + 1;
    }
    proof {
        assert(bytes@.skip(n as int) =~= Seq::<u8>::empty());
        assert(out@ =~= percent_encode_bytes(bytes@));
        lemma_percent_encode_ascii(bytes@);
        crate::token::lemma_ascii_valid_utf8(out@);
    }
    match bytes_to_string(out) {
        Some(r) => r,
        None => String::new(),
    }
}

/// The provider authorize URL a login redirects to, with the redirect
/// target percent-encoded; the client id is used as given.
pub fn build_authorize_url(client_id: &str, redirect_uri: &str) -> (r: String)
    ensures
        r@ == "https://id.twitch.tv/oauth2/authorize?client_id="@ + client_id@
            + "&redirect_uri="@ + percent_encoded(redirect_uri@)
            + "&response_type=code&scope=user:read:email"@,
{
    let mut r = "https://id.twitch.tv/oauth2/authorize?client_id=".to_owned();
    r.append(client_id);
    r.append("&redirect_uri=");
    let encoded = percent_encode(redirect_uri);
    r.append(encoded.as_str());
    r.append("&response_type=code&scope=user:read:email");
    r
}

} // verus!
