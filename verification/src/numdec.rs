//! Decimal codec over bytes: how numbers are written inside token frames
//! and addresses.

use vstd::prelude::*;

verus! {

pub open spec fn is_digit(b: u8) -> bool {
    48 <= b <= 57
}

/// The decimal digits of a number, most significant first.
pub open spec fn dec_of(n: nat) -> Seq<u8>
    decreases n,
{
    if n < 10 {
        seq![(48 + n) as u8]
    } else {
        dec_of(n / 10).push((48 + (n % 10)) as u8)
    }
}

/// The value of a digit string.
pub open spec fn dec_val(s: Seq<u8>) -> int
    decreases s.len(),
{
    if s.len() == 0 {
        0
    } else {
        dec_val(s.drop_last()) * 10 + (s.last() - 48)
    }
}

pub open spec fn all_digits(s: Seq<u8>) -> bool {
    forall|i: int| 0 <= i < s.len() ==> is_digit(#[trigger] s[i])
}

/// What parsing a digit run yields: the value, if the run is non-empty, all
/// digits, and within range.
pub open spec fn spec_parse_dec(s: Seq<u8>) -> Option<u64> {
    if s.len() >= 1 && all_digits(s) && dec_val(s) <= u64::MAX {
        Some(dec_val(s) as u64)
    } else {
        None
    }
}

/// Decimal writing produces only digits (so never a separator byte).
pub proof fn lemma_dec_of_digits(n: nat)
    ensures
        dec_of(n).len() >= 1,
        all_digits(dec_of(n)),
    decreases n,
{
    if n >= 10 {
        lemma_dec_of_digits(n / 10);
        let t = dec_of(n / 10);
        assert forall|i: int| 0 <= i < dec_of(n).len() implies is_digit(dec_of(n)[i]) by {
            if i < t.len() {
                assert(dec_of(n)[i] == t[i]);
            }
        }
    }
}

/// Parsing inverts writing.
pub proof fn lemma_dec_round_trip(n: nat)
    ensures
        dec_val(dec_of(n)) == n,
        n <= u64::MAX ==> spec_parse_dec(dec_of(n)) == Some(n as u64),
    decreases n,
{
    lemma_dec_of_digits(n);
    if n < 10 {
        let s = dec_of(n);
        assert(s.len() == 1);
        assert(s.drop_last() =~= Seq::<u8>::empty());
        assert(dec_val(Seq::<u8>::empty()) == 0);
        assert(s.last() == (48 + n) as u8);
        assert(dec_val(s) == n);
    } else {
        lemma_dec_round_trip(n / 10);
        let s = dec_of(n);
        assert(s.drop_last() =~= dec_of(n / 10));
        assert(dec_val(s) == dec_val(dec_of(n / 10)) * 10 + (n % 10));
        assert((n / 10) * 10 + n % 10 == n);
    }
}

/// The value never shrinks as digits are appended.
pub proof fn lemma_dec_val_prefix(s: Seq<u8>, j: int)
    requires
        all_digits(s),
        0 <= j <= s.len(),
    ensures
        dec_val(s) >= dec_val(s.take(j)),
        dec_val(s) >= 0,
    decreases s.len() - j,
{
    if j == s.len() {
        assert(s.take(j) =~= s);
        lemma_dec_val_nonneg(s);
    } else {
        lemma_dec_val_prefix(s, j + 1);
        let t = s.take(j + 1);
        assert(t.drop_last() =~= s.take(j));
        assert(is_digit(s[j]));
        assert(t.last() == s[j]);
        lemma_dec_val_nonneg(s.take(j));
        assert(dec_val(t) == dec_val(s.take(j)) * 10 + (s[j] - 48));
        assert(dec_val(t) >= dec_val(s.take(j)));
    }
}

proof fn lemma_dec_val_nonneg(s: Seq<u8>)
    requires
        all_digits(s),
    ensures
        dec_val(s) >= 0,
    decreases s.len(),
{
    if s.len() > 0 {
        assert(forall|i: int| 0 <= i < s.len() - 1 ==> s.drop_last()[i] == s[i]);
        lemma_dec_val_nonneg(s.drop_last());
        assert(is_digit(s.last()));
    }
}

/// Writes a number in decimal.
pub fn u64_to_dec(n: u64) -> (r: Vec<u8>)
    ensures
        r@ == dec_of(n as nat),
    decreases n,
{
    if n < 10 {
        let mut r: Vec<u8> = Vec::new();
        r.push(48 + (n as u8));
        proof {
            assert(r@ =~= dec_of(n as nat));
        }
        r
    } else {
        let mut r = u64_to_dec(n / 10);
        r.push(48 + ((n % 10) as u8));
        r
    }
}

/// Parses the byte range `[from, to)` as a decimal number.
pub fn parse_dec_range(s: &Vec<u8>, from: usize, to: usize) -> (r: Option<u64>)
    requires
        from <= to <= s@.len(),
    ensures
        r == spec_parse_dec(s@.subrange(from as int, to as int)),
{
    let ghost piece = s@.subrange(from as int, to as int);
    if from == to {
        return None;
    }
    let mut acc: u64 = 0;
    let mut j: usize = from;
    while j < to
        invariant
            from <= j <= to <= s@.len(),
            piece == s@.subrange(from as int, to as int),
            from < to,
            all_digits(piece.take(j - from as int)),
            acc as int == dec_val(piece.take(j - from as int)),
        decreases to - j,
    {
        let b = s[j];
        proof {
            assert(piece[j - from as int] == s@[j as int]);
        }
        if b < 48 || b > 57 {
            proof {
                assert(!is_digit(piece[j - from as int]));
                assert(!all_digits(piece));
            }
            return None;
        }
        let d: u64 = (b - 48) as u64;
        proof {
            assert(piece.take(j + 1 - from as int).drop_last() =~= piece.take(j - from as int));
            assert(piece.take(j + 1 - from as int).last() == piece[j - from as int]);
        }
        if acc > (u64::MAX - d) / 10 {
            proof {
                let pre = piece.take(j + 1 - from as int);
                assert(dec_val(pre) == acc * 10 + d);
                assert(acc * 10 + d > u64::MAX) by (nonlinear_arith)
                    requires
                        acc > (u64::MAX - d) / 10,
                        d <= 9,
                ;
                assert(all_digits(pre));
                lemma_all_digits_extends(piece, j + 1 - from as int);
                lemma_dec_val_prefix_or_not(piece, j + 1 - from as int);
            }
            return None;
        }
        proof {
            assert(acc * 10 + d <= u64::MAX) by (nonlinear_arith)
                requires
                    acc <= (u64::MAX - d) / 10,
                    d <= 9,
            ;
        }
        acc = acc * 10 + d;
        j = j + 1;
    }
    proof {
        assert(piece.take(to - from as int) =~= piece);
    }
    Some(acc)
}

/// If a prefix of the digits already exceeds the range, so does the whole
/// run, hence parsing fails.
proof fn lemma_dec_val_prefix_or_not(s: Seq<u8>, j: int)
    requires
        0 <= j <= s.len(),
        dec_val(s.take(j)) > u64::MAX,
    ensures
        spec_parse_dec(s) is None,
{
    if all_digits(s) {
        lemma_dec_val_prefix(s, j);
    }
}

/// A prefix of a digit run is all digits.
proof fn lemma_all_digits_extends(s: Seq<u8>, j: int)
    requires
        0 <= j <= s.len(),
    ensures
        all_digits(s) ==> all_digits(s.take(j)),
{
    if all_digits(s) {
        assert forall|i: int| 0 <= i < j implies is_digit(s.take(j)[i]) by {
            assert(s.take(j)[i] == s[i]);
        }
    }
}

} // verus!
