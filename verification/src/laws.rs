//! Laws of the binder: what holds of every binding, stated and proved once.

use vstd::prelude::*;

use crate::decode::ValModel;
use crate::error::CauseKind;
use crate::error::INTERNAL_SERVER_ERROR;
use crate::params::Params;
use crate::query::QueryErrorKind;
use crate::query::backfill;
use crate::query::bind_model;
use crate::query::folded_from;
use crate::query::kept_from;
use crate::query::strict_merge;
use crate::schema::TargetShape;
use crate::schema::shape_accepted;
use crate::schema::shape_err_msg;
use crate::text::contains_char;
use crate::text::find_char_from;
use crate::text::lemma_find_char_from;
use crate::urlq::pair_of_token;

verus! {

/// What a binding yields: the decoded entries or the rendered failure.
pub type BindOutcome = Result<Seq<(Seq<char>, Option<ValModel>)>, (Seq<char>, u16, CauseKind)>;

/// Binding is deterministic: the outcome is a function of the target shape,
/// the captures, the raw query and the policy alone, so binding the same
/// tuple twice yields identical results.
pub proof fn lemma_bind_deterministic<D: Params>(
    shape: TargetShape,
    ctx: &D,
    q: Option<Seq<char>>,
    strict: bool,
    r1: BindOutcome,
    r2: BindOutcome,
)
    requires
        r1 == bind_model(shape, ctx, q, strict),
        r2 == bind_model(shape, ctx, q, strict),
    ensures
        r1 == r2,
{
}

/// Unsupported shapes are always rejected: whatever the captures, the query
/// string and the policy, binding a tuple-like, newtype, unit, empty or
/// tagged-union shape fails with the shape's own diagnostic.
pub proof fn lemma_unsupported_shape_rejected<D: Params>(
    shape: TargetShape,
    ctx: &D,
    q: Option<Seq<char>>,
    strict: bool,
)
    requires
        !shape_accepted(shape),
    ensures
        bind_model(shape, ctx, q, strict) == Err::<
            Seq<(Seq<char>, Option<ValModel>)>,
            (Seq<char>, u16, CauseKind),
        >((shape_err_msg(shape), INTERNAL_SERVER_ERROR, CauseKind::Query)),
{
}

/// The tokens the strict walk appends from `idx` on: each declared field in
/// schema order, bound to the value at its schema position, skipping empty
/// values and positions past the available pairs.
pub open spec fn ordered_tokens(
    names: Seq<Seq<char>>,
    pairs: Seq<(Seq<char>, Seq<char>)>,
    idx: int,
) -> Seq<Seq<char>>
    decreases names.len() - idx,
{
    if idx < 0 || idx >= names.len() {
        seq![]
    } else if idx < pairs.len() {
        (if pairs[idx].1.len() > 0 {
            seq![names[idx] + "="@ + pairs[idx].1]
        } else {
            seq![]
        }) + ordered_tokens(names, pairs, idx + 1)
    } else {
        seq![]
    }
}

proof fn lemma_backfill_ordered(
    names: Seq<Seq<char>>,
    pairs: Seq<(Seq<char>, Seq<char>)>,
    idx: int,
    acc: Seq<Seq<char>>,
)
    requires
        0 <= idx,
        backfill(names, pairs, idx, acc) is Ok,
    ensures
        backfill(names, pairs, idx, acc) == Ok::<Seq<Seq<char>>, (Seq<char>, Seq<char>)>(
            acc + ordered_tokens(names, pairs, idx),
        ),
    decreases names.len() - idx,
{
    if idx >= names.len() {
        assert(acc + ordered_tokens(names, pairs, idx) =~= acc);
    } else if idx < pairs.len() {
        if names[idx] == pairs[idx].0 {
            if pairs[idx].1.len() > 0 {
                let tok = names[idx] + "="@ + pairs[idx].1;
                lemma_backfill_ordered(names, pairs, idx + 1, acc.push(tok));
                assert(acc.push(tok) + ordered_tokens(names, pairs, idx + 1) =~= acc + (seq![tok]
                    + ordered_tokens(names, pairs, idx + 1)));
            } else {
                lemma_backfill_ordered(names, pairs, idx + 1, acc);
                assert(acc + ordered_tokens(names, pairs, idx + 1) =~= acc + ordered_tokens(
                    names,
                    pairs,
                    idx,
                ));
            }
        }
    } else {
        assert(acc + ordered_tokens(names, pairs, idx) =~= acc);
    }
}

/// Determinism of order under the strict policy: on success, where every
/// path token is well formed, the merged sequence is exactly the
/// schema-ordered backfill: the declared fields in schema order, each bound
/// to the value at its own schema position, whatever order the query pairs
/// arrived in.
pub proof fn lemma_strict_merge_schema_order(
    names: Seq<Seq<char>>,
    ptoks: Seq<Seq<char>>,
    qpairs: Seq<(Seq<char>, Seq<char>)>,
    tokens: Seq<Seq<char>>,
)
    requires
        strict_merge(names, ptoks, qpairs) == Ok::<
            Seq<Seq<char>>,
            (QueryErrorKind, Seq<char>, Seq<char>),
        >(tokens),
        kept_from(ptoks, 0).len() == 0,
    ensures
        tokens == ordered_tokens(names, folded_from(ptoks, 0) + qpairs, 0),
{
    let working = folded_from(ptoks, 0) + qpairs;
    let kept = kept_from(ptoks, 0);
    assert(kept =~= Seq::<Seq<char>>::empty());
    if kept.len() != names.len() {
        lemma_backfill_ordered(names, working, 0, kept);
        assert(kept + ordered_tokens(names, working, 0) =~= ordered_tokens(names, working, 0));
    } else {
        assert(names.len() == 0);
        assert(tokens =~= ordered_tokens(names, working, 0));
    }
}

proof fn lemma_find_char_no_hit(s: Seq<char>, c: char, from: int, m: int)
    requires
        0 <= from <= m <= s.len(),
        forall|j: int| from <= j < m ==> s[j] != c,
    ensures
        find_char_from(s, c, from) == find_char_from(s, c, m),
    decreases m - from,
{
    if from < m {
        lemma_find_char_no_hit(s, c, from + 1, m);
    }
}

/// The key and value read back from a token built from an `=`-free name are
/// the name and the value.
pub proof fn lemma_token_key(name: Seq<char>, value: Seq<char>)
    requires
        !contains_char(name, '='),
    ensures
        pair_of_token(name + "="@ + value) == (name, value),
{
    reveal_strlit("=");
    let s = name + "="@ + value;
    assert(s.len() == name.len() + 1 + value.len());
    assert(s[name.len() as int] == '=');
    lemma_find_char_from(name, '=', 0);
    assert forall|j: int| 0 <= j < name.len() implies s[j] != '=' by {
        assert(s[j] == name[j]);
    }
    lemma_find_char_no_hit(s, '=', 0, name.len() as int);
    assert(find_char_from(s, '=', name.len() as int) == Some(name.len() as int));
    assert(s.take(name.len() as int) =~= name);
    assert(s.skip(name.len() as int + 1) =~= value);
}

proof fn lemma_ordered_tokens_keys(
    names: Seq<Seq<char>>,
    pairs: Seq<(Seq<char>, Seq<char>)>,
    idx: int,
)
    requires
        0 <= idx,
        forall|i: int, j: int| 0 <= i < j < names.len() ==> names[i] != names[j],
        forall|i: int| 0 <= i < names.len() ==> !contains_char(#[trigger] names[i], '='),
    ensures
        forall|k: int|
            0 <= k < ordered_tokens(names, pairs, idx).len() ==> exists|j: int|
                idx <= j < names.len() && pair_of_token(
                    #[trigger] ordered_tokens(names, pairs, idx)[k],
                ).0 == names[j],
        forall|k1: int, k2: int|
            0 <= k1 < k2 < ordered_tokens(names, pairs, idx).len() ==> pair_of_token(
                #[trigger] ordered_tokens(names, pairs, idx)[k1],
            ).0 != pair_of_token(#[trigger] ordered_tokens(names, pairs, idx)[k2]).0,
    decreases names.len() - idx,
{
    let ot = ordered_tokens(names, pairs, idx);
    if idx >= names.len() || idx >= pairs.len() {
    } else {
        lemma_ordered_tokens_keys(names, pairs, idx + 1);
        let rest = ordered_tokens(names, pairs, idx + 1);
        if pairs[idx].1.len() > 0 {
            let tok = names[idx] + "="@ + pairs[idx].1;
            lemma_token_key(names[idx], pairs[idx].1);
            assert(ot == seq![tok] + rest);
            assert(ot[0] == tok);
            assert forall|k: int| 1 <= k < ot.len() implies ot[k] == rest[k - 1] by {}
            assert forall|k: int| 0 <= k < ot.len() implies exists|j: int|
                idx <= j < names.len() && pair_of_token(#[trigger] ot[k]).0 == names[j] by {
                if k == 0 {
                    assert(pair_of_token(ot[0]).0 == names[idx]);
                } else {
                    assert(exists|j: int|
                        idx + 1 <= j < names.len() && pair_of_token(#[trigger] rest[k - 1]).0
                            == names[j]);
                    let j = choose|j: int|
                        idx + 1 <= j < names.len() && pair_of_token(#[trigger] rest[k - 1]).0
                            == names[j];
                    assert(pair_of_token(ot[k]).0 == names[j]);
                }
            }
            assert forall|k1: int, k2: int|
                0 <= k1 < k2 < ot.len() implies pair_of_token(#[trigger] ot[k1]).0
                != pair_of_token(#[trigger] ot[k2]).0 by {
                if k1 == 0 {
                    assert(pair_of_token(ot[0]).0 == names[idx]);
                    let j = choose|j: int|
                        idx + 1 <= j < names.len() && pair_of_token(#[trigger] rest[k2 - 1]).0
                            == names[j];
                    assert(names[idx] != names[j]);
                    assert(pair_of_token(ot[k2]).0 == names[j]);
                } else {
                    assert(pair_of_token(rest[k1 - 1]).0 != pair_of_token(rest[k2 - 1]).0);
                }
            }
        } else {
            assert(ot == Seq::<Seq<char>>::empty() + rest);
            assert(ot =~= rest);
        }
    }
}

/// Under the strict policy the merged sequence never binds a key twice: on
/// success, where every path token is well formed and the declared field
/// names are distinct and `=`-free, the merged tokens carry pairwise
/// distinct keys.
pub proof fn lemma_strict_merge_unique_keys(
    names: Seq<Seq<char>>,
    ptoks: Seq<Seq<char>>,
    qpairs: Seq<(Seq<char>, Seq<char>)>,
    tokens: Seq<Seq<char>>,
)
    requires
        strict_merge(names, ptoks, qpairs) == Ok::<
            Seq<Seq<char>>,
            (QueryErrorKind, Seq<char>, Seq<char>),
        >(tokens),
        kept_from(ptoks, 0).len() == 0,
        forall|i: int, j: int| 0 <= i < j < names.len() ==> names[i] != names[j],
        forall|i: int| 0 <= i < names.len() ==> !contains_char(#[trigger] names[i], '='),
    ensures
        forall|i: int, j: int|
            0 <= i < j < tokens.len() ==> pair_of_token(#[trigger] tokens[i]).0 != pair_of_token(
                #[trigger] tokens[j],
            ).0,
{
    lemma_strict_merge_schema_order(names, ptoks, qpairs, tokens);
    lemma_ordered_tokens_keys(names, folded_from(ptoks, 0) + qpairs, 0);
}

} // verus!
