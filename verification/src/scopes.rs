//! Scope storage codec: a scope list is persisted as one comma-joined
//! string and decoded back by splitting on commas and trimming each piece.

use vstd::prelude::*;

use crate::validators::{is_scope_char, trim_spec};

verus! {

/// The stored form of a scope list: the scopes joined with commas.
pub open spec fn join_scopes_spec(vs: Seq<Seq<char>>) -> Seq<char>
    decreases vs.len(),
{
    if vs.len() == 0 {
        Seq::empty()
    } else if vs.len() == 1 {
        vs[0]
    } else {
        vs[0] + seq![','] + join_scopes_spec(vs.drop_first())
    }
}

/// Index of the first comma, or the length when there is none.
pub open spec fn first_comma(s: Seq<char>) -> int
    decreases s.len(),
{
    if s.len() == 0 {
        0
    } else if s[0] == ',' {
        0
    } else {
        1 + first_comma(s.drop_first())
    }
}

/// Splitting on commas, as `split(',')` does: the empty string yields one
/// empty piece.
pub open spec fn split_scopes_spec(s: Seq<char>) -> Seq<Seq<char>>
    decreases s.len(),
{
    let i = first_comma(s);
    if 0 <= i < s.len() {
        seq![s.take(i)] + split_scopes_spec(s.skip(i + 1))
    } else {
        seq![s]
    }
}

/// What decoding a stored scope string yields: nothing for empty storage,
/// else the comma-separated pieces, each trimmed.
pub open spec fn decode_scopes_spec(s: Seq<char>) -> Seq<Seq<char>> {
    if s.len() == 0 {
        Seq::empty()
    } else {
        split_scopes_spec(s).map_values(|p: Seq<char>| trim_spec(p))
    }
}

proof fn lemma_first_comma_at(s: Seq<char>, i: int)
    requires
        0 <= i <= s.len(),
        forall|k: int| 0 <= k < i ==> s[k] != ',',
        i < s.len() ==> s[i] == ',',
    ensures
        first_comma(s) == i,
    decreases i,
{
    if i == 0 {
        if s.len() > 0 && s[0] != ',' {
            lemma_first_comma_at(s.drop_first(), 0);
        }
    } else {
        lemma_first_comma_at(s.drop_first(), i - 1);
    }
}

/// Joins scopes with commas, as they are persisted.
pub fn encode_scopes(scopes: &Vec<String>) -> (r: String)
    ensures
        r@ == join_scopes_spec(scopes@.map_values(|s: String| s@)),
{
    let ghost views = scopes@.map_values(|s: String| s@);
    let mut r = String::new();
    let mut i: usize = 0;
    while i < scopes.len()
        invariant
            0 <= i <= scopes@.len(),
            views == scopes@.map_values(|s: String| s@),
            r@ == join_scopes_spec(views.take(i as int)) + if 0 < i < views.len() {
                seq![',']
            } else {
                Seq::<char>::empty()
            },
        decreases scopes@.len() - i,
    {
        r.append(scopes[i].as_str());
        proof {
            lemma_join_take_step(views, i as int);
        }
        if i + 1 < scopes.len() {
            r.append(",");
            proof {
                reveal_strlit(",");
                assert(","@ =~= seq![',']);
            }
        }
        i = i + 1;
        proof {
            assert(r@ == join_scopes_spec(views.take(i as int)) + if 0 < i < views.len() {
                seq![',']
            } else {
                Seq::<char>::empty()
            });
        }
    }
    proof {
        assert(views.take(views.len() as int) =~= views);
        if scopes@.len() == 0 {
            assert(r@ =~= join_scopes_spec(views));
        } else {
            assert(r@ =~= join_scopes_spec(views));
        }
    }
    r
}

proof fn lemma_join_take_step(vs: Seq<Seq<char>>, i: int)
    requires
        0 <= i < vs.len(),
    ensures
        join_scopes_spec(vs.take(i + 1)) == if i == 0 {
            vs[0]
        } else {
            join_scopes_spec(vs.take(i)) + seq![','] + vs[i]
        },
    decreases i,
{
    if i == 0 {
        assert(vs.take(1) =~= seq![vs[0]]);
        assert(join_scopes_spec(seq![vs[0]]) == vs[0]);
    } else {
        lemma_join_take_step(vs.drop_first(), i - 1);
        assert(vs.take(i + 1).drop_first() =~= vs.drop_first().take(i));
        assert(vs.take(i).drop_first() =~= vs.drop_first().take(i - 1));
        assert(vs.take(i + 1).len() >= 2);
        assert(vs.take(i + 1)[0] == vs[0]);
        if i == 1 {
            assert(join_scopes_spec(vs.take(2)) == vs[0] + seq![','] + join_scopes_spec(
                vs.drop_first().take(1),
            ));
            assert(join_scopes_spec(vs.drop_first().take(1)) == vs.drop_first()[0]);
            assert(vs.take(1) =~= seq![vs[0]]);
            assert(join_scopes_spec(vs.take(1)) == vs[0]);
            assert(vs.drop_first()[0] == vs[1]);
            assert(join_scopes_spec(vs.take(2)) =~= join_scopes_spec(vs.take(1)) + seq![',']
                + vs[1]);
        } else {
            assert(join_scopes_spec(vs.take(i + 1)) == vs[0] + seq![','] + join_scopes_spec(
                vs.drop_first().take(i),
            ));
            assert(join_scopes_spec(vs.take(i)) == vs[0] + seq![','] + join_scopes_spec(
                vs.drop_first().take(i - 1),
            ));
            assert(vs.drop_first()[i - 1] == vs[i]);
            assert(join_scopes_spec(vs.drop_first().take(i)) == join_scopes_spec(
                vs.drop_first().take(i - 1),
            ) + seq![','] + vs[i]);
            assert(join_scopes_spec(vs.take(i + 1)) =~= join_scopes_spec(vs.take(i)) + seq![',']
                + vs[i]);
        }
    }
}

/// Splits a stored scope string on commas and trims each piece; the empty
/// string decodes to no scopes.
pub fn decode_scopes(stored: &str) -> (r: Vec<String>)
    ensures
        r@.map_values(|s: String| s@) == decode_scopes_spec(stored@),
{
    let n: usize = stored.unicode_len();
    let mut r: Vec<String> = Vec::new();
    if n == 0 {
        proof {
            assert(r@.map_values(|s: String| s@) =~= decode_scopes_spec(stored@));
        }
        return r;
    }
    let mut start: usize = 0;
    proof {
        assert(stored@.skip(0) =~= stored@);
        assert(r@.map_values(|s: String| s@) =~= Seq::<Seq<char>>::empty());
    }
    loop
        invariant
            0 <= start <= n,
            n == stored@.len(),
            n > 0,
            split_scopes_spec(stored@).map_values(|p: Seq<char>| trim_spec(p)) =~= r@.map_values(
                |s: String| s@,
            ) + split_scopes_spec(stored@.skip(start as int)).map_values(
                |p: Seq<char>| trim_spec(p),
            ),
        decreases n - start + 1,
    {
        let mut j: usize = start;
        while j < n && stored.get_char(j) != ','
            invariant
                start <= j <= n,
                n == stored@.len(),
                forall|k: int| start <= k < j ==> stored@[k] != ',',
            decreases n - j,
        {
            j = j + 1;
        }
        proof {
            let rest = stored@.skip(start as int);
            lemma_first_comma_at(rest, j - start as int);
        }
        let piece = stored.substring_char(start, j);
        let trimmed = crate::validators::trim(piece);
        r.push(trimmed);
        proof {
            let rest = stored@.skip(start as int);
            assert(rest.take(j - start as int) =~= stored@.subrange(start as int, j as int));
            if j < n {
                assert(rest.skip(j - start as int + 1) =~= stored@.skip(j + 1 as int));
                assert(split_scopes_spec(rest) == seq![stored@.subrange(start as int, j as int)]
                    + split_scopes_spec(stored@.skip(j + 1 as int)));
            } else {
                assert(rest =~= stored@.subrange(start as int, j as int));
                assert(split_scopes_spec(rest) == seq![stored@.subrange(start as int, j as int)]);
            }
            assert(piece@ == stored@.subrange(start as int, j as int));
        }
        if j == n {
            proof {
                let f = |s: String| s@;
                let g = |p: Seq<char>| trim_spec(p);
                assert(split_scopes_spec(stored@.skip(start as int)).map_values(g) =~= seq![
                    trim_spec(stored@.subrange(start as int, n as int)),
                ]);
                assert(r@.map_values(f) =~= r@.drop_last().map_values(f).push(
                    trim_spec(stored@.subrange(start as int, n as int)),
                ));
                assert(split_scopes_spec(stored@).map_values(g) =~= r@.map_values(f));
            }
            return r;
        }
        proof {
            let f = |s: String| s@;
            let g = |p: Seq<char>| trim_spec(p);
            assert(split_scopes_spec(stored@.skip(start as int)).map_values(g) =~= seq![
                trim_spec(stored@.subrange(start as int, j as int)),
            ] + split_scopes_spec(stored@.skip(j + 1 as int)).map_values(g));
            assert(r@.map_values(f) =~= r@.drop_last().map_values(f).push(
                trim_spec(stored@.subrange(start as int, j as int)),
            ));
            assert(split_scopes_spec(stored@).map_values(g) =~= r@.map_values(f)
                + split_scopes_spec(stored@.skip(j + 1 as int)).map_values(g));
        }
        start = j + 1;
    }
}

/// A scope string as it leaves validation: non-empty, lowercase letters only.
pub open spec fn plain_scope(s: Seq<char>) -> bool {
    s.len() > 0 && forall|k: int| 0 <= k < s.len() ==> is_scope_char(s[k])
}

proof fn lemma_trim_plain(s: Seq<char>)
    requires
        forall|k: int| 0 <= k < s.len() ==> is_scope_char(s[k]),
    ensures
        trim_spec(s) == s,
{
    assert(crate::validators::trim_start_spec(s) == s) by {
        if s.len() > 0 {
            assert(!crate::validators::is_space_char(s[0]));
        }
    }
    assert(crate::validators::trim_end_spec(s) == s) by {
        if s.len() > 0 {
            assert(!crate::validators::is_space_char(s.last()));
        }
    }
}

/// Round trip of the scope codec: any non-empty list of plain lowercase
/// scopes decodes, after being joined for storage, back to exactly itself;
/// and empty storage decodes to the empty list.
pub proof fn lemma_scopes_round_trip(vs: Seq<Seq<char>>)
    requires
        vs.len() > 0,
        forall|i: int| 0 <= i < vs.len() ==> plain_scope(vs[i]),
    ensures
        decode_scopes_spec(join_scopes_spec(vs)) == vs,
        decode_scopes_spec(Seq::<char>::empty()) == Seq::<Seq<char>>::empty(),
    decreases vs.len(),
{
    let j = join_scopes_spec(vs);
    assert(vs[0].len() > 0);
    if vs.len() == 1 {
        assert(j == vs[0]);
        lemma_first_comma_at(j, j.len() as int);
        assert(split_scopes_spec(j) == seq![j]);
        lemma_trim_plain(vs[0]);
        assert(split_scopes_spec(j).map_values(|p: Seq<char>| trim_spec(p)) =~= vs);
    } else {
        let tail = join_scopes_spec(vs.drop_first());
        assert(j == vs[0] + seq![','] + tail);
        assert(j.len() > vs[0].len());
        assert(forall|k: int| 0 <= k < vs[0].len() ==> j[k] == vs[0][k] && j[k] != ',');
        assert(j[vs[0].len() as int] == ',');
        lemma_first_comma_at(j, vs[0].len() as int);
        assert(j.take(vs[0].len() as int) =~= vs[0]);
        assert(j.skip(vs[0].len() as int + 1) =~= tail);
        assert(split_scopes_spec(j) == seq![vs[0]] + split_scopes_spec(tail));
        lemma_scopes_round_trip(vs.drop_first());
        assert(tail.len() > 0) by {
            assert(vs.drop_first()[0].len() > 0);
            if vs.drop_first().len() == 1 {
            } else {
            }
        }
        assert(split_scopes_spec(tail).map_values(|p: Seq<char>| trim_spec(p)) =~= vs.drop_first());
        lemma_trim_plain(vs[0]);
        assert(split_scopes_spec(j).map_values(|p: Seq<char>| trim_spec(p)) =~= seq![vs[0]]
            + vs.drop_first());
        assert(seq![vs[0]] + vs.drop_first() =~= vs);
    }
}

} // verus!
