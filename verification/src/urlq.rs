//! The query pair store: the raw query string is parsed into an ordered
//! sequence of key/value pairs by the standard `key=value` query grammar,
//! preserving duplicates and original order. Empty tokens between `&`
//! separators carry no pair; a token without `=` binds the empty value.

use vstd::prelude::*;

use crate::text::find_char;
use crate::text::find_char_from;

verus! {

/// View of a vector of string pairs.
pub open spec fn pairs_view(v: Seq<(String, String)>) -> Seq<(Seq<char>, Seq<char>)> {
    v.map_values(|p: (String, String)| (p.0@, p.1@))
}

/// The key/value pair denoted by one `key=value` token: the split is at the
/// first `=`; a token without `=` binds the empty value.
pub open spec fn pair_of_token(t: Seq<char>) -> (Seq<char>, Seq<char>) {
    match find_char_from(t, '=', 0) {
        None => (t, Seq::empty()),
        Some(i) => (t.take(i), t.skip(i + 1)),
    }
}

/// The pairs denoted by the query text from position `pos` on: tokens are
/// separated by `&`, and empty tokens are dropped.
pub open spec fn query_pairs_from(q: Seq<char>, pos: int) -> Seq<(Seq<char>, Seq<char>)>
    decreases q.len() - pos,
    via query_pairs_from_decreases
{
    if pos < 0 || pos >= q.len() {
        seq![]
    } else {
        match find_char_from(q, '&', pos) {
            None => seq![pair_of_token(q.subrange(pos, q.len() as int))],
            Some(i) => (if i == pos {
                seq![]
            } else {
                seq![pair_of_token(q.subrange(pos, i))]
            }) + query_pairs_from(q, i + 1),
        }
    }
}

#[via_fn]
proof fn query_pairs_from_decreases(q: Seq<char>, pos: int) {
    if 0 <= pos < q.len() {
        crate::text::lemma_find_char_from(q, '&', pos);
    }
}

/// The ordered key/value pairs of a raw query string.
pub open spec fn query_pairs_spec(q: Seq<char>) -> Seq<(Seq<char>, Seq<char>)> {
    query_pairs_from(q, 0)
}

/// Split one token into its key and value at the first `=`.
pub fn map_param(token: &str) -> (r: (String, String))
    ensures
        (r.0@, r.1@) == pair_of_token(token@),
{
    let n = token.unicode_len();
    match find_char(token, '=', 0) {
        Some(i) => {
            let k = token.substring_char(0, i);
            let v = token.substring_char(i + 1, n);
            proof {
                assert(k@ =~= token@.take(i as int));
                assert(v@ =~= token@.skip(i + 1));
            }
            (k.to_owned(), v.to_owned())
        },
        None => {
            (token.to_owned(), String::new())
        },
    }
}

/// Parse a raw query string into its ordered decoded key/value pairs,
/// duplicates preserved.
pub fn parse_query(q: &str) -> (r: Vec<(String, String)>)
    ensures
        pairs_view(r@) == query_pairs_spec(q@),
{
    let n = q.unicode_len();
    let mut out: Vec<(String, String)> = Vec::new();
    let mut pos: usize = 0;
    proof {
        assert(pairs_view(out@) + query_pairs_spec(q@) =~= query_pairs_spec(q@));
    }
    loop
        invariant
            pos <= n,
            n == q@.len(),
            pairs_view(out@) + query_pairs_from(q@, pos as int) == query_pairs_spec(q@),
        ensures
            pos >= n,
            pairs_view(out@) + query_pairs_from(q@, pos as int) == query_pairs_spec(q@),
        decreases n - pos,
    {
        if pos >= n {
            break;
        }
        let ghost out0 = out@;
        match find_char(q, '&', pos) {
            Some(amp) => {
                proof {
                    assert(query_pairs_from(q@, pos as int) =~= (if amp as int == pos as int {
                        Seq::<(Seq<char>, Seq<char>)>::empty()
                    } else {
                        seq![pair_of_token(q@.subrange(pos as int, amp as int))]
                    }) + query_pairs_from(q@, amp + 1));
                }
                if amp > pos {
                    let token = q.substring_char(pos, amp);
                    let p = map_param(token);
                    proof {
                        assert(token@ =~= q@.subrange(pos as int, amp as int));
                        assert((p.0@, p.1@) == pair_of_token(q@.subrange(pos as int, amp as int)));
                    }
                    out.push(p);
                    proof {
                        let tokp = pair_of_token(q@.subrange(pos as int, amp as int));
                        let rest = query_pairs_from(q@, amp + 1);
                        assert(pairs_view(out@) =~= pairs_view(out0) + seq![tokp]);
                        assert((pairs_view(out0) + seq![tokp]) + rest =~= pairs_view(out0) + (
                        seq![tokp] + rest));
                        assert(seq![tokp] + rest =~= query_pairs_from(q@, pos as int));
                        assert(pairs_view(out@) + query_pairs_from(q@, amp + 1)
                            == query_pairs_spec(q@));
                    }
                } else {
                    proof {
                        crate::text::lemma_find_char_from(q@, '&', pos as int);
                        assert(amp == pos);
                        assert(Seq::<(Seq<char>, Seq<char>)>::empty() + query_pairs_from(
                            q@,
                            amp + 1,
                        ) =~= query_pairs_from(q@, pos as int));
                        assert(pairs_view(out@) + query_pairs_from(q@, amp + 1)
                            == query_pairs_spec(q@));
                    }
                }
                pos = amp + 1;
            },
            None => {
                let token = q.substring_char(pos, n);
                let p = map_param(token);
                proof {
                    assert(token@ =~= q@.subrange(pos as int, n as int));
                }
                out.push(p);
                proof {
                    let tokp = pair_of_token(q@.subrange(pos as int, n as int));
                    let rest = query_pairs_from(q@, n as int);
                    assert(pairs_view(out@) =~= pairs_view(out0) + seq![tokp]);
                    assert((pairs_view(out0) + seq![tokp]) + rest =~= pairs_view(out0) + (
                    seq![tokp] + rest));
                    assert(rest =~= Seq::<(Seq<char>, Seq<char>)>::empty());
                    assert(seq![tokp] + rest =~= query_pairs_from(q@, pos as int));
                    assert(pairs_view(out@) + query_pairs_from(q@, n as int) == query_pairs_spec(
                        q@,
                    ));
                }
                pos = n;
            },
        }
    }
    proof {
        assert(query_pairs_from(q@, pos as int) =~= Seq::<(Seq<char>, Seq<char>)>::empty());
        assert(pairs_view(out@) + query_pairs_from(q@, pos as int) =~= pairs_view(out@));
        assert(pairs_view(out@) == query_pairs_spec(q@));
    }
    out
}

} // verus!
