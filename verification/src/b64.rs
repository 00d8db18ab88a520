//! Base64url codec without padding, over bytes, as session tokens are
//! framed with it.  Decoding inverts encoding; the alphabet contains no
//! dot, so an encoded payload can be split from a signature on one.

use vstd::prelude::*;

verus! {

/// The base64url alphabet byte for a 6-bit value.
pub open spec fn b64_byte_of(v: u8) -> u8 {
    if v < 26 {
        (65 + v) as u8
    } else if v < 52 {
        (97 + (v - 26)) as u8
    } else if v < 62 {
        (48 + (v - 52)) as u8
    } else if v == 62 {
        45u8
    } else {
        95u8
    }
}

/// Whether a byte belongs to the base64url alphabet.
pub open spec fn is_b64_byte(b: u8) -> bool {
    ||| 65 <= b <= 90
    ||| 97 <= b <= 122
    ||| 48 <= b <= 57
    ||| b == 45
    ||| b == 95
}

/// The 6-bit value of an alphabet byte.
pub open spec fn b64_val_of(b: u8) -> u8 {
    if 65 <= b <= 90 {
        (b - 65) as u8
    } else if 97 <= b <= 122 {
        (26 + (b - 97)) as u8
    } else if 48 <= b <= 57 {
        (52 + (b - 48)) as u8
    } else if b == 45 {
        62u8
    } else {
        63u8
    }
}

/// The alphabet encodes every 6-bit value invertibly, never as a dot.
pub proof fn lemma_b64_byte_inverse(v: u8)
    requires
        v < 64,
    ensures
        is_b64_byte(b64_byte_of(v)),
        b64_val_of(b64_byte_of(v)) == v,
        b64_byte_of(v) != 46,
{
}

/// Base64url encoding without padding: three bytes become four alphabet
/// bytes; a final one or two bytes become two or three.
pub open spec fn b64_encode(s: Seq<u8>) -> Seq<u8>
    decreases s.len(),
{
    if s.len() == 0 {
        Seq::empty()
    } else if s.len() == 1 {
        let b0 = s[0];
        seq![b64_byte_of(b0 / 4), b64_byte_of(((b0 % 4) * 16) as u8)]
    } else if s.len() == 2 {
        let b0 = s[0];
        let b1 = s[1];
        seq![
            b64_byte_of(b0 / 4),
            b64_byte_of(((b0 % 4) * 16 + b1 / 16) as u8),
            b64_byte_of(((b1 % 16) * 4) as u8),
        ]
    } else {
        let b0 = s[0];
        let b1 = s[1];
        let b2 = s[2];
        seq![
            b64_byte_of(b0 / 4),
            b64_byte_of(((b0 % 4) * 16 + b1 / 16) as u8),
            b64_byte_of(((b1 % 16) * 4 + b2 / 64) as u8),
            b64_byte_of((b2 % 64) as u8),
        ] + b64_encode(s.skip(3))
    }
}

/// Base64url decoding without padding; `None` on a byte outside the
/// alphabet or an impossible length.
pub open spec fn b64_decode(s: Seq<u8>) -> Option<Seq<u8>>
    decreases s.len(),
{
    if s.len() == 0 {
        Some(Seq::empty())
    } else if !(forall|i: int| 0 <= i < s.len() ==> is_b64_byte(#[trigger] s[i])) {
        None
    } else if s.len() == 1 {
        None
    } else if s.len() == 2 {
        let v0 = b64_val_of(s[0]);
        let v1 = b64_val_of(s[1]);
        Some(seq![(v0 * 4 + v1 / 16) as u8])
    } else if s.len() == 3 {
        let v0 = b64_val_of(s[0]);
        let v1 = b64_val_of(s[1]);
        let v2 = b64_val_of(s[2]);
        Some(seq![(v0 * 4 + v1 / 16) as u8, ((v1 % 16) * 16 + v2 / 4) as u8])
    } else {
        let v0 = b64_val_of(s[0]);
        let v1 = b64_val_of(s[1]);
        let v2 = b64_val_of(s[2]);
        let v3 = b64_val_of(s[3]);
        match b64_decode(s.skip(4)) {
            Some(rest) => Some(
                seq![
                    (v0 * 4 + v1 / 16) as u8,
                    ((v1 % 16) * 16 + v2 / 4) as u8,
                    ((v2 % 4) * 64 + v3) as u8,
                ] + rest,
            ),
            None => None,
        }
    }
}

/// Every encoded byte is in the alphabet, so none is a dot.
pub proof fn lemma_b64_encode_alphabet(s: Seq<u8>)
    ensures
        forall|i: int|
            0 <= i < b64_encode(s).len() ==> is_b64_byte(#[trigger] b64_encode(s)[i])
                && b64_encode(s)[i] != 46,
    decreases s.len(),
{
    if s.len() == 0 {
    } else if s.len() == 1 {
        lemma_b64_byte_inverse(s[0] / 4);
        lemma_b64_byte_inverse(((s[0] % 4) * 16) as u8);
    } else if s.len() == 2 {
        lemma_b64_byte_inverse(s[0] / 4);
        lemma_b64_byte_inverse(((s[0] % 4) * 16 + s[1] / 16) as u8);
        lemma_b64_byte_inverse(((s[1] % 16) * 4) as u8);
    } else {
        lemma_b64_byte_inverse(s[0] / 4);
        lemma_b64_byte_inverse(((s[0] % 4) * 16 + s[1] / 16) as u8);
        lemma_b64_byte_inverse(((s[1] % 16) * 4 + s[2] / 64) as u8);
        lemma_b64_byte_inverse((s[2] % 64) as u8);
        lemma_b64_encode_alphabet(s.skip(3));
        let e = b64_encode(s);
        let rest = b64_encode(s.skip(3));
        assert forall|i: int| 0 <= i < e.len() implies is_b64_byte(e[i]) && e[i] != 46 by {
            if i >= 4 {
                assert(e[i] == rest[i - 4]);
            }
        }
    }
}

/// Decoding inverts encoding.
pub proof fn lemma_b64_round_trip(s: Seq<u8>)
    ensures
        b64_decode(b64_encode(s)) == Some(s),
    decreases s.len(),
{
    lemma_b64_encode_alphabet(s);
    let e = b64_encode(s);
    if s.len() == 0 {
        assert(b64_decode(e) == Some(Seq::<u8>::empty()));
        assert(Seq::<u8>::empty() =~= s);
    } else if s.len() == 1 {
        let b0 = s[0];
        lemma_b64_byte_inverse(b0 / 4);
        lemma_b64_byte_inverse(((b0 % 4) * 16) as u8);
        let v0 = b64_val_of(e[0]);
        let v1 = b64_val_of(e[1]);
        assert(v0 == b0 / 4 && v1 == ((b0 % 4) * 16) as u8);
        assert((v0 * 4 + v1 / 16) as u8 == b0) by {
            assert(b0 / 4 * 4 + b0 % 4 * 16 / 16 == b0) by (nonlinear_arith);
        }
        assert(b64_decode(e) matches Some(d) && d =~= s);
    } else if s.len() == 2 {
        let b0 = s[0];
        let b1 = s[1];
        lemma_b64_byte_inverse(b0 / 4);
        lemma_b64_byte_inverse(((b0 % 4) * 16 + b1 / 16) as u8);
        lemma_b64_byte_inverse(((b1 % 16) * 4) as u8);
        let v0 = b64_val_of(e[0]);
        let v1 = b64_val_of(e[1]);
        let v2 = b64_val_of(e[2]);
        assert((v0 * 4 + v1 / 16) as u8 == b0 && ((v1 % 16) * 16 + v2 / 4) as u8 == b1) by {
            assert(b0 / 4 * 4 + (b0 % 4 * 16 + b1 / 16) / 16 == b0) by (nonlinear_arith);
            assert((b0 % 4 * 16 + b1 / 16) % 16 * 16 + b1 % 16 * 4 / 4 == b1) by (nonlinear_arith);
        }
        assert(b64_decode(e) matches Some(d) && d =~= s);
    } else {
        let b0 = s[0];
        let b1 = s[1];
        let b2 = s[2];
        lemma_b64_byte_inverse(b0 / 4);
        lemma_b64_byte_inverse(((b0 % 4) * 16 + b1 / 16) as u8);
        lemma_b64_byte_inverse(((b1 % 16) * 4 + b2 / 64) as u8);
        lemma_b64_byte_inverse((b2 % 64) as u8);
        lemma_b64_round_trip(s.skip(3));
        let rest = b64_encode(s.skip(3));
        assert(e == seq![e[0], e[1], e[2], e[3]] + rest) by {
            assert(e =~= seq![e[0], e[1], e[2], e[3]] + rest);
        }
        assert(e.len() >= 4);
        let v0 = b64_val_of(e[0]);
        let v1 = b64_val_of(e[1]);
        let v2 = b64_val_of(e[2]);
        let v3 = b64_val_of(e[3]);
        assert(v0 == b0 / 4);
        assert(v1 == ((b0 % 4) * 16 + b1 / 16) as u8);
        assert(v2 == ((b1 % 16) * 4 + b2 / 64) as u8);
        assert(v3 == (b2 % 64) as u8);
        assert((v0 * 4 + v1 / 16) as u8 == b0 && ((v1 % 16) * 16 + v2 / 4) as u8 == b1 && ((v2 % 4)
            * 64 + v3) as u8 == b2) by {
            assert(b0 / 4 * 4 + (b0 % 4 * 16 + b1 / 16) / 16 == b0) by (nonlinear_arith);
            assert((b0 % 4 * 16 + b1 / 16) % 16 * 16 + (b1 % 16 * 4 + b2 / 64) / 4 == b1)
                by (nonlinear_arith);
            assert((b1 % 16 * 4 + b2 / 64) % 4 * 64 + b2 % 64 == b2) by (nonlinear_arith);
        }
        if e.len() == 4 {
            assert(s.skip(3) =~= Seq::<u8>::empty());
            assert(b64_decode(e.skip(4)) == Some(Seq::<u8>::empty())) by {
                assert(e.skip(4) =~= Seq::<u8>::empty());
            }
            assert(b64_decode(e) matches Some(d) && d =~= s);
        } else {
            assert(e.skip(4) =~= rest);
            assert(b64_decode(rest) == Some(s.skip(3)));
            assert(b64_decode(e) matches Some(d) && d =~= seq![b0, b1, b2] + s.skip(3));
            assert(seq![b0, b1, b2] + s.skip(3) =~= s);
        }
    }
}

/// Encodes bytes as base64url without padding.
pub fn b64_encode_bytes(s: &Vec<u8>) -> (r: Vec<u8>)
    ensures
        r@ == b64_encode(s@),
{
    let mut r: Vec<u8> = Vec::new();
    let mut i: usize = 0;
    let n = s.len();
    proof {
        assert(s@.skip(0) =~= s@);
    }
    while n - i >= 3
        invariant
            0 <= i <= n,
            n == s@.len(),
            b64_encode(s@) == r@ + b64_encode(s@.skip(i as int)),
        decreases n - i,
    {
        let b0 = s[i];
        let b1 = s[i + 1];
        let b2 = s[i + 2];
        r.push(b64_byte_exec(b0 / 4));
        r.push(b64_byte_exec((b0 % 4) * 16 + b1 / 16));
        r.push(b64_byte_exec((b1 % 16) * 4 + b2 / 64));
        r.push(b64_byte_exec(b2 % 64));
        proof {
            let t = s@.skip(i as int);
            assert(t.len() >= 3);
            assert(t[0] == s@[i as int] && t[1] == s@[i + 1] && t[2] == s@[i + 2]);
            assert(t.skip(3) =~= s@.skip(i + 3));
        }
        i = i + 3;
    }
    if n - i == 1 {
        let b0 = s[i];
        r.push(b64_byte_exec(b0 / 4));
        r.push(b64_byte_exec((b0 % 4) * 16));
        proof {
            let t = s@.skip(i as int);
            assert(t.len() == 1 && t[0] == s@[i as int]);
        }
    } else if n - i == 2 {
        let b0 = s[i];
        let b1 = s[i + 1];
        r.push(b64_byte_exec(b0 / 4));
        r.push(b64_byte_exec((b0 % 4) * 16 + b1 / 16));
        r.push(b64_byte_exec((b1 % 16) * 4));
        proof {
            let t = s@.skip(i as int);
            assert(t.len() == 2 && t[0] == s@[i as int] && t[1] == s@[i + 1]);
        }
    } else {
        proof {
            assert(s@.skip(i as int) =~= Seq::<u8>::empty());
        }
    }
    r
}

fn b64_byte_exec(v: u8) -> (r: u8)
    requires
        v < 64,
    ensures
        r == b64_byte_of(v),
{
    if v < 26 {
        65 + v
    } else if v < 52 {
        97 + (v - 26)
    } else if v < 62 {
        48 + (v - 52)
    } else if v == 62 {
        45
    } else {
        95
    }
}

fn b64_val_exec(b: u8) -> (r: Option<u8>)
    ensures
        (r is Some) <==> is_b64_byte(b),
        r matches Some(v) ==> v == b64_val_of(b) && v < 64,
{
    if 65 <= b && b <= 90 {
        Some(b - 65)
    } else if 97 <= b && b <= 122 {
        Some(26 + (b - 97))
    } else if 48 <= b && b <= 57 {
        Some(52 + (b - 48))
    } else if b == 45 {
        Some(62)
    } else if b == 95 {
        Some(63)
    } else {
        None
    }
}

/// Decodes base64url without padding; `None` on a byte outside the
/// alphabet or an impossible length.
pub fn b64_decode_bytes(s: &Vec<u8>) -> (r: Option<Vec<u8>>)
    ensures
        (r is Some) <==> (b64_decode(s@) is Some),
        r matches Some(v) ==> Some(v@) == b64_decode(s@),
    {
    let n = s.len();
    let mut r: Vec<u8> = Vec::new();
    let mut i: usize = 0;
    proof {
        assert(s@.skip(0) =~= s@);
    }
    while n - i >= 4
        invariant
            0 <= i <= n,
            n == s@.len(),
            b64_decode(s@) matches Some(d) ==> (b64_decode(s@.skip(i as int)) matches Some(t) && d
                == r@ + t),
            (b64_decode(s@) is Some) <==> (b64_decode(s@.skip(i as int)) is Some),
        decreases n - i,
    {
        let ghost t = s@.skip(i as int);
        proof {
            assert(t.len() >= 4);
            assert(t[0] == s@[i as int] && t[1] == s@[i + 1] && t[2] == s@[i + 2] && t[3] == s@[i
                + 3]);
            assert(t.skip(4) =~= s@.skip(i + 4));
        }
        let v0 = match b64_val_exec(s[i]) {
            Some(v) => v,
            None => {
                return None;
            },
        };
        let v1 = match b64_val_exec(s[i + 1]) {
            Some(v) => v,
            None => {
                return None;
            },
        };
        let v2 = match b64_val_exec(s[i + 2]) {
            Some(v) => v,
            None => {
                return None;
            },
        };
        let v3 = match b64_val_exec(s[i + 3]) {
            Some(v) => v,
            None => {
                return None;
            },
        };
        let ghost oldr = r@;
        r.push(v0 * 4 + v1 / 16);
        r.push((v1 % 16) * 16 + v2 / 4);
        r.push((v2 % 4) * 64 + v3);
        proof {
            let t4 = s@.skip(i + 4);
            let grp = seq![
                (v0 * 4 + v1 / 16) as u8,
                ((v1 % 16) * 16 + v2 / 4) as u8,
                ((v2 % 4) * 64 + v3) as u8,
            ];
            assert(r@ =~= oldr + grp);
            if forall|k: int| 0 <= k < t.len() ==> is_b64_byte(#[trigger] t[k]) {
                match b64_decode(t4) {
                    Some(rest) => {
                        assert(b64_decode(t) == Some(grp + rest));
                        if b64_decode(s@) is Some {
                            assert(b64_decode(s@)->0 =~= r@ + rest);
                        }
                    },
                    None => {
                        assert(b64_decode(t) is None);
                    },
                }
            } else {
                let k = choose|k: int| 0 <= k < t.len() && !is_b64_byte(#[trigger] t[k]);
                assert(k >= 4);
                assert(t4[k - 4] == t[k]);
                assert(!is_b64_byte(t4[k - 4]));
                assert(!(forall|m: int| 0 <= m < t4.len() ==> is_b64_byte(#[trigger] t4[m])));
                assert(b64_decode(t4) is None);
                assert(b64_decode(t) is None);
            }
        }
        i = i + 4;
    }
    let ghost t = s@.skip(i as int);
    if n - i == 0 {
        proof {
            assert(t =~= Seq::<u8>::empty());
        }
        Some(r)
    } else if n - i == 1 {
        proof {
            assert(t.len() == 1);
        }
        None
    } else if n - i == 2 {
        proof {
            assert(t.len() == 2 && t[0] == s@[i as int] && t[1] == s@[i + 1]);
        }
        let v0 = match b64_val_exec(s[i]) {
            Some(v) => v,
            None => {
                return None;
            },
        };
        let v1 = match b64_val_exec(s[i + 1]) {
            Some(v) => v,
            None => {
                return None;
            },
        };
        r.push(v0 * 4 + v1 / 16);
        Some(r)
    } else {
        proof {
            assert(t.len() == 3 && t[0] == s@[i as int] && t[1] == s@[i + 1] && t[2] == s@[i + 2]);
        }
        let v0 = match b64_val_exec(s[i]) {
            Some(v) => v,
            None => {
                return None;
            },
        };
        let v1 = match b64_val_exec(s[i + 1]) {
            Some(v) => v,
            None => {
                return None;
            },
        };
        let v2 = match b64_val_exec(s[i + 2]) {
            Some(v) => v,
            None => {
                return None;
            },
        };
        r.push(v0 * 4 + v1 / 16);
        r.push((v1 % 16) * 16 + v2 / 4);
        Some(r)
    }
}

} // verus!
