//! The merger: path-derived pairs and query-string pairs are combined into
//! one ordered `key=value` token sequence under one of two policies.
//!
//! Strict mode folds query tokens already collected from the path into the
//! working list, rejects duplicate and unrecognized keys over the declared
//! field set, and walks the schema positionally so that the merged sequence
//! always follows schema order; the underlying flat-record decoder is
//! order-sensitive, so enforcing schema order up front is required
//! correctness. Lenient mode best-effort locates each declared field anywhere
//! in the raw query string and silently ignores everything else.

use vstd::prelude::*;

use crate::decode::BoundValue;
use crate::decode::DecodeErrorKind;
use crate::decode::ValModel;
use crate::decode::bound_view;
use crate::decode::decode;
use crate::decode::decode_err_msg;
use crate::decode::decode_model;
use crate::error::BAD_REQUEST;
use crate::error::CauseKind;
use crate::error::Error;
use crate::error::ErrorCause;
use crate::error::INTERNAL_SERVER_ERROR;
use crate::error::cause_kind;
use crate::outside::url_query;
use crate::params::Params;
use crate::schema::FieldDef;
use crate::schema::TargetShape;
use crate::schema::field_names;
use crate::schema::shape_accepted;
use crate::schema::shape_err_msg;
use crate::schema::shape_fields;
use crate::schema::struct_fields;
use crate::text::concat3;
use crate::text::contains_char;
use crate::text::eq_str;
use crate::text::find_char;
use crate::text::find_char_from;
use crate::text::find_sub;
use crate::text::find_sub_from;
use crate::text::has_char;
use crate::text::join_sep;
use crate::text::join_with;
use crate::text::opt_str_view;
use crate::text::strs_view;
use crate::text::trim;
use crate::text::trim_spec;
use crate::urlq::pair_of_token;
use crate::urlq::pairs_view;
use crate::urlq::parse_query;
use crate::urlq::query_pairs_spec;
use crate::urlq::map_param;

verus! {

/// Wrapper around a value extracted and decoded from a request's URL.
#[derive(Debug, Clone, PartialEq)]
pub struct Query<T>(pub T);

impl<T> Query<T> {
    /// Access the owned inner value.
    pub fn into_inner(self) -> (r: T)
        ensures
            r == self.0,
    {
        self.0
    }
}

// ---------------------------------------------------------------------------
// Merge failures
// ---------------------------------------------------------------------------

/// A failure detected while merging query pairs against the declared fields.
#[derive(Debug, Clone, PartialEq)]
pub enum QueryError {
    /// Declared fields supplied more than once, joined with `, `.
    Duplicate(String),
    /// Supplied keys that are not declared fields, joined with `, `.
    Unrecognized(String),
    /// A positional mismatch: the expected key and the found key.
    Unexpected(String, String),
}

/// The payload-free shape of a [`QueryError`], for use in contracts.
#[derive(Debug, Clone, Copy, PartialEq, Eq, Structural)]
pub enum QueryErrorKind {
    Duplicate,
    Unrecognized,
    Unexpected,
}

/// The message a merge failure renders to.
pub open spec fn qerr_msg(kind: QueryErrorKind, a: Seq<char>, b: Seq<char>) -> Seq<char> {
    match kind {
        QueryErrorKind::Duplicate => "duplicate query parameters found: `"@ + a + "`"@,
        QueryErrorKind::Unrecognized => "unexpected query parameters found: `"@ + a + "`"@,
        QueryErrorKind::Unexpected => "expected `"@ + a + "`, found `"@ + b + "`"@,
    }
}

impl QueryError {
    /// The kind and payloads of this failure.
    pub open spec fn model(self) -> (QueryErrorKind, Seq<char>, Seq<char>) {
        match self {
            QueryError::Duplicate(s) => (QueryErrorKind::Duplicate, s@, Seq::empty()),
            QueryError::Unrecognized(s) => (QueryErrorKind::Unrecognized, s@, Seq::empty()),
            QueryError::Unexpected(a, b) => (QueryErrorKind::Unexpected, a@, b@),
        }
    }

    /// The diagnostic message of this failure.
    pub fn message(&self) -> (r: String)
        ensures
            r@ == qerr_msg(self.model().0, self.model().1, self.model().2),
    {
        match self {
            QueryError::Duplicate(d) => concat3(
                "duplicate query parameters found: `",
                d.as_str(),
                "`",
            ),
            QueryError::Unrecognized(u) => concat3(
                "unexpected query parameters found: `",
                u.as_str(),
                "`",
            ),
            QueryError::Unexpected(a, b) => {
                let mut m = String::from_str("expected `");
                m.append(a.as_str());
                m.append("`, found `");
                m.append(b.as_str());
                m.append("`");
                proof {
                    assert(m@ =~= qerr_msg(self.model().0, self.model().1, self.model().2));
                }
                m
            },
        }
    }

    /// This failure as the unified error: a bad request raised by the query.
    pub fn to_error(&self) -> (r: Result<(), Error>)
        ensures
            r matches Err(e) && e.message@ == qerr_msg(
                self.model().0,
                self.model().1,
                self.model().2,
            ) && e.status_code == BAD_REQUEST && e.cause == ErrorCause::Query,
    {
        Err(Error::new(self.message(), BAD_REQUEST, ErrorCause::Query))
    }
}

// ---------------------------------------------------------------------------
// Path-derived pairs
// ---------------------------------------------------------------------------

/// The token a path capture contributes: trimmed key, `=`, trimmed value.
pub open spec fn path_token(name: Seq<char>, value: Seq<char>) -> Seq<char> {
    trim_spec(name) + "="@ + trim_spec(value)
}

/// The tokens contributed by the captures for the fields from `idx` on, in
/// schema order.
pub open spec fn collect_paths_from<D: Params>(fields: Seq<FieldDef>, ctx: &D, idx: int) -> Seq<
    Seq<char>,
>
    decreases fields.len() - idx,
{
    if idx < 0 || idx >= fields.len() {
        seq![]
    } else {
        let rest = collect_paths_from(fields, ctx, idx + 1);
        match ctx.param_spec(fields[idx].name@) {
            Some(v) => seq![path_token(fields[idx].name@, v)] + rest,
            None => rest,
        }
    }
}

/// The `field=value` token for one field, where the captures hold the field.
pub fn paths<D: Params>(field: &str, ctx: &D) -> (r: Option<String>)
    ensures
        match r {
            Some(t) => ctx.param_spec(field@) matches Some(v) && t@ == path_token(field@, v),
            None => ctx.param_spec(field@) is None,
        },
{
    match ctx.param_(field) {
        Some(p) => {
            let t = concat3(trim(field), "=", trim(p.as_str()));
            Some(t)
        },
        None => None,
    }
}

// ---------------------------------------------------------------------------
// Folding path tokens into the pair list
// ---------------------------------------------------------------------------

/// The pairs denoted by the well-formed (`=`-holding) tokens from `idx` on.
pub open spec fn folded_from(tokens: Seq<Seq<char>>, idx: int) -> Seq<(Seq<char>, Seq<char>)>
    decreases tokens.len() - idx,
{
    if idx < 0 || idx >= tokens.len() {
        seq![]
    } else {
        let rest = folded_from(tokens, idx + 1);
        if contains_char(tokens[idx], '=') {
            seq![pair_of_token(tokens[idx])] + rest
        } else {
            rest
        }
    }
}

/// The tokens from `idx` on that hold no `=` and so cannot be folded.
pub open spec fn kept_from(tokens: Seq<Seq<char>>, idx: int) -> Seq<Seq<char>>
    decreases tokens.len() - idx,
{
    if idx < 0 || idx >= tokens.len() {
        seq![]
    } else {
        let rest = kept_from(tokens, idx + 1);
        if !contains_char(tokens[idx], '=') {
            seq![tokens[idx]] + rest
        } else {
            rest
        }
    }
}

fn fold_into(pairs: &mut Vec<(String, String)>, items: &Vec<String>, idx: usize)
    requires
        idx <= items@.len(),
    ensures
        pairs_view(final(pairs)@) == folded_from(strs_view(items@), idx as int) + pairs_view(
            old(pairs)@,
        ),
    decreases items@.len() - idx,
{
    if idx >= items.len() {
        proof {
            assert(folded_from(strs_view(items@), idx as int) + pairs_view(pairs@) =~= pairs_view(
                pairs@,
            ));
        }
        return ;
    }
    fold_into(pairs, items, idx + 1);
    let ghost mid = pairs_view(pairs@);
    if has_char(items[idx].as_str(), '=') {
        let p = map_param(items[idx].as_str());
        pairs.insert(0, p);
        proof {
            assert(pairs_view(pairs@) =~= seq![(p.0@, p.1@)] + mid);
            assert(pairs_view(pairs@) =~= folded_from(strs_view(items@), idx as int) + pairs_view(
                old(pairs)@,
            ));
        }
    } else {
        proof {
            assert(pairs_view(pairs@) =~= folded_from(strs_view(items@), idx as int) + pairs_view(
                old(pairs)@,
            ));
        }
    }
}

fn kept_exec(items: &Vec<String>, idx: usize) -> (r: Vec<String>)
    requires
        idx <= items@.len(),
    ensures
        strs_view(r@) == kept_from(strs_view(items@), idx as int),
    decreases items@.len() - idx,
{
    if idx >= items.len() {
        let r: Vec<String> = Vec::new();
        proof {
            assert(strs_view(r@) =~= kept_from(strs_view(items@), idx as int));
        }
        return r;
    }
    let mut rest = kept_exec(items, idx + 1);
    let ghost rest0 = rest@;
    if !has_char(items[idx].as_str(), '=') {
        rest.insert(0, items[idx].clone());
        proof {
            assert(strs_view(rest@) =~= seq![items@[idx as int]@] + strs_view(rest0));
        }
    }
    proof {
        assert(strs_view(rest@) =~= kept_from(strs_view(items@), idx as int));
    }
    rest
}

// ---------------------------------------------------------------------------
// Duplicate and unrecognized detection
// ---------------------------------------------------------------------------

/// How many pairs from `idx` on carry `key`.
pub open spec fn count_key_from(
    pairs: Seq<(Seq<char>, Seq<char>)>,
    key: Seq<char>,
    idx: int,
) -> int
    decreases pairs.len() - idx,
{
    if idx < 0 || idx >= pairs.len() {
        0
    } else {
        (if pairs[idx].0 == key {
            1int
        } else {
            0int
        }) + count_key_from(pairs, key, idx + 1)
    }
}

/// The declared names from `idx` on that more than one pair carries.
pub open spec fn duplicated_from(
    names: Seq<Seq<char>>,
    pairs: Seq<(Seq<char>, Seq<char>)>,
    idx: int,
) -> Seq<Seq<char>>
    decreases names.len() - idx,
{
    if idx < 0 || idx >= names.len() {
        seq![]
    } else {
        let rest = duplicated_from(names, pairs, idx + 1);
        if count_key_from(pairs, names[idx], 0) > 1 {
            seq![names[idx]] + rest
        } else {
            rest
        }
    }
}

/// The keys of the pairs from `idx` on that are not declared names, one per
/// occurrence, in pair order.
pub open spec fn unrecognized_from(
    names: Seq<Seq<char>>,
    pairs: Seq<(Seq<char>, Seq<char>)>,
    idx: int,
) -> Seq<Seq<char>>
    decreases pairs.len() - idx,
{
    if idx < 0 || idx >= pairs.len() {
        seq![]
    } else {
        let rest = unrecognized_from(names, pairs, idx + 1);
        if !names.contains(pairs[idx].0) {
            seq![pairs[idx].0] + rest
        } else {
            rest
        }
    }
}

fn count_key_exec(pairs: &Vec<(String, String)>, key: &str, idx: usize) -> (r: usize)
    requires
        idx <= pairs@.len(),
    ensures
        r as int == count_key_from(pairs_view(pairs@), key@, idx as int),
        r <= pairs@.len() - idx,
    decreases pairs@.len() - idx,
{
    if idx >= pairs.len() {
        return 0;
    }
    let here: usize = if eq_str(pairs[idx].0.as_str(), key) {
        1
    } else {
        0
    };
    here + count_key_exec(pairs, key, idx + 1)
}

fn collect_dup_exec(fields: &Vec<FieldDef>, pairs: &Vec<(String, String)>, idx: usize) -> (r: Vec<
    String,
>)
    requires
        idx <= fields@.len(),
    ensures
        strs_view(r@) == duplicated_from(field_names(fields@), pairs_view(pairs@), idx as int),
    decreases fields@.len() - idx,
{
    if idx >= fields.len() {
        let r: Vec<String> = Vec::new();
        proof {
            assert(strs_view(r@) =~= duplicated_from(
                field_names(fields@),
                pairs_view(pairs@),
                idx as int,
            ));
        }
        return r;
    }
    let mut rest = collect_dup_exec(fields, pairs, idx + 1);
    let ghost rest0 = rest@;
    if count_key_exec(pairs, fields[idx].name.as_str(), 0) > 1 {
        rest.insert(0, fields[idx].name.clone());
        proof {
            assert(strs_view(rest@) =~= seq![fields@[idx as int].name@] + strs_view(rest0));
        }
    }
    proof {
        assert(field_names(fields@)[idx as int] == fields@[idx as int].name@);
        assert(strs_view(rest@) =~= duplicated_from(
            field_names(fields@),
            pairs_view(pairs@),
            idx as int,
        ));
    }
    rest
}

fn name_in_fields(fields: &Vec<FieldDef>, key: &str) -> (r: bool)
    ensures
        r == field_names(fields@).contains(key@),
{
    let n = fields.len();
    let mut i: usize = 0;
    while i < n
        invariant
            i <= n,
            n == fields@.len(),
            forall|j: int| 0 <= j < i ==> field_names(fields@)[j] != key@,
        decreases n - i,
    {
        if eq_str(fields[i].name.as_str(), key) {
            proof {
                assert(field_names(fields@)[i as int] == key@);
            }
            return true;
        }
        proof {
            assert(field_names(fields@)[i as int] == fields@[i as int].name@);
        }
        i += 1;
    }
    proof {
        assert(!field_names(fields@).contains(key@));
    }
    false
}

fn collect_unrec_exec(
    fields: &Vec<FieldDef>,
    pairs: &Vec<(String, String)>,
    idx: usize,
) -> (r: Vec<String>)
    requires
        idx <= pairs@.len(),
    ensures
        strs_view(r@) == unrecognized_from(field_names(fields@), pairs_view(pairs@), idx as int),
    decreases pairs@.len() - idx,
{
    if idx >= pairs.len() {
        let r: Vec<String> = Vec::new();
        proof {
            assert(strs_view(r@) =~= unrecognized_from(
                field_names(fields@),
                pairs_view(pairs@),
                idx as int,
            ));
        }
        return r;
    }
    let mut rest = collect_unrec_exec(fields, pairs, idx + 1);
    let ghost rest0 = rest@;
    if !name_in_fields(fields, pairs[idx].0.as_str()) {
        rest.insert(0, pairs[idx].0.clone());
        proof {
            assert(strs_view(rest@) =~= seq![pairs_view(pairs@)[idx as int].0] + strs_view(rest0));
        }
    }
    proof {
        assert(strs_view(rest@) =~= unrecognized_from(
            field_names(fields@),
            pairs_view(pairs@),
            idx as int,
        ));
    }
    rest
}

// ---------------------------------------------------------------------------
// The strict policy
// ---------------------------------------------------------------------------

/// The positional walk of strict mode: for each declared field in schema
/// order, the pair at the field's position must carry the field's name, and
/// non-empty values are appended to the working tokens in schema order.
/// Pairs with empty values are not appended: the target type's own
/// optionality decides whether their absence is acceptable.
pub open spec fn backfill(
    names: Seq<Seq<char>>,
    pairs: Seq<(Seq<char>, Seq<char>)>,
    idx: int,
    acc: Seq<Seq<char>>,
) -> Result<Seq<Seq<char>>, (Seq<char>, Seq<char>)>
    decreases names.len() - idx,
{
    if idx < 0 || idx >= names.len() {
        Ok(acc)
    } else if idx < pairs.len() {
        if names[idx] != pairs[idx].0 {
            Err((names[idx], pairs[idx].0))
        } else if pairs[idx].1.len() > 0 {
            backfill(names, pairs, idx + 1, acc.push(names[idx] + "="@ + pairs[idx].1))
        } else {
            backfill(names, pairs, idx + 1, acc)
        }
    } else {
        Ok(acc)
    }
}

/// What strict merging yields: the path tokens are folded into the working
/// pair list ahead of the query pairs; a declared field carried by more than
/// one pair is a `Duplicate` failure; a key that is no declared field is an
/// `Unrecognized` failure; and unless the unfoldable tokens already cover
/// every field, the positional walk backfills the tokens or fails with
/// `Unexpected`.
pub open spec fn strict_merge(
    names: Seq<Seq<char>>,
    path_tokens: Seq<Seq<char>>,
    qpairs: Seq<(Seq<char>, Seq<char>)>,
) -> Result<Seq<Seq<char>>, (QueryErrorKind, Seq<char>, Seq<char>)> {
    let working = folded_from(path_tokens, 0) + qpairs;
    let kept = kept_from(path_tokens, 0);
    let dups = duplicated_from(names, working, 0);
    if dups.len() > 0 {
        Err((QueryErrorKind::Duplicate, join_sep(dups, ", "@), Seq::empty()))
    } else {
        let unrec = unrecognized_from(names, working, 0);
        if unrec.len() > 0 {
            Err((QueryErrorKind::Unrecognized, join_sep(unrec, ", "@), Seq::empty()))
        } else if kept.len() != names.len() {
            match backfill(names, working, 0, kept) {
                Ok(tokens) => Ok(tokens),
                Err((e, f)) => Err((QueryErrorKind::Unexpected, e, f)),
            }
        } else {
            Ok(kept)
        }
    }
}

/// The ordered decoded pairs of a raw query string, in query order,
/// duplicates preserved.
#[derive(Debug, Clone, PartialEq)]
pub struct QueryFields(pub Vec<(String, String)>);

impl QueryFields {
    /// Parse the raw query string into the pair store.
    pub fn new(query: &str) -> (r: Self)
        ensures
            pairs_view(r.0@) == query_pairs_spec(query@),
    {
        QueryFields(parse_query(query))
    }

    /// Fold each well-formed `key=value` token of `items` into the front of
    /// the pair list, keeping both orders; returns the positions at which the
    /// folded pairs were inserted.
    pub fn inserted(&mut self, items: &Vec<String>) -> (r: Vec<usize>)
        ensures
            pairs_view(final(self).0@) == folded_from(strs_view(items@), 0) + pairs_view(
                old(self).0@,
            ),
            r@.len() == folded_from(strs_view(items@), 0).len(),
            forall|j: int| 0 <= j < r@.len() ==> r@[j] == j,
    {
        let ghost folded = folded_from(strs_view(items@), 0);
        let before = self.0.len();
        fold_into(&mut self.0, items, 0);
        let after = self.0.len();
        proof {
            assert(pairs_view(self.0@).len() == self.0@.len());
            assert(after == folded.len() + before);
        }
        let count = after - before;
        let mut found: Vec<usize> = Vec::new();
        let mut i: usize = 0;
        while i < count
            invariant
                i <= count,
                found@.len() == i,
                forall|j: int| 0 <= j < i ==> found@[j] == j,
            decreases count - i,
        {
            found.push(i);
            i += 1;
        }
        found
    }

    /// Check the working pairs for declared fields supplied more than once.
    pub fn collect_duplicated(&self, fields: &Vec<FieldDef>) -> (r: Result<(), Error>)
        ensures
            ({
                let dups = duplicated_from(field_names(fields@), pairs_view(self.0@), 0);
                match r {
                    Ok(()) => dups.len() == 0,
                    Err(e) => {
                        &&& dups.len() > 0
                        &&& e.message@ == qerr_msg(
                            QueryErrorKind::Duplicate,
                            join_sep(dups, ", "@),
                            Seq::empty(),
                        )
                        &&& e.status_code == BAD_REQUEST
                        &&& e.cause == ErrorCause::Query
                    },
                }
            }),
    {
        let duplicated = collect_dup_exec(fields, &self.0, 0);
        if duplicated.len() > 0 {
            QueryError::Duplicate(join_with(&duplicated, ", ")).to_error()
        } else {
            Ok(())
        }
    }

    /// Check the working pairs for keys that are not declared fields.
    pub fn collect_unrecognized(&self, fields: &Vec<FieldDef>) -> (r: Result<(), Error>)
        ensures
            ({
                let unrec = unrecognized_from(field_names(fields@), pairs_view(self.0@), 0);
                match r {
                    Ok(()) => unrec.len() == 0,
                    Err(e) => {
                        &&& unrec.len() > 0
                        &&& e.message@ == qerr_msg(
                            QueryErrorKind::Unrecognized,
                            join_sep(unrec, ", "@),
                            Seq::empty(),
                        )
                        &&& e.status_code == BAD_REQUEST
                        &&& e.cause == ErrorCause::Query
                    },
                }
            }),
    {
        let unrecognized = collect_unrec_exec(fields, &self.0, 0);
        if unrecognized.len() > 0 {
            QueryError::Unrecognized(join_with(&unrecognized, ", ")).to_error()
        } else {
            Ok(())
        }
    }

    /// Strict merging: fold the path tokens into the working list, reject
    /// duplicate and unrecognized keys, and backfill `paths` in schema order.
    pub fn ordered_fields(self, paths: &mut Vec<String>, fields: &Vec<FieldDef>) -> (r: Result<
        (),
        Error,
    >)
        ensures
            ({
                let m = strict_merge(
                    field_names(fields@),
                    strs_view(old(paths)@),
                    pairs_view(self.0@),
                );
                match r {
                    Ok(()) => m matches Ok(tokens) && strs_view(final(paths)@) == tokens,
                    Err(e) => {
                        &&& m matches Err((k, a, b)) && e.message@ == qerr_msg(k, a, b)
                        &&& e.status_code == BAD_REQUEST
                        &&& e.cause == ErrorCause::Query
                    },
                }
            }),
    {
        let ghost names = field_names(fields@);
        let ghost ptoks0 = strs_view(paths@);
        let ghost kept0 = kept_from(ptoks0, 0);
        let ghost qpairs0 = pairs_view(self.0@);
        let mut this = self;
        fold_into(&mut this.0, paths, 0);
        let ghost working = pairs_view(this.0@);
        let kept = kept_exec(paths, 0);
        *paths = kept;
        match this.collect_duplicated(fields) {
            Err(e) => {
                return Err(e);
            },
            Ok(()) => {},
        }
        match this.collect_unrecognized(fields) {
            Err(e) => {
                return Err(e);
            },
            Ok(()) => {},
        }
        if paths.len() != fields.len() {
            let mut index: usize = 0;
            #[verifier::loop_isolation(false)]
            while index < fields.len()
                invariant
                    index <= fields@.len(),
                    backfill(names, working, index as int, strs_view(paths@)) == backfill(
                        names,
                        working,
                        0,
                        kept0,
                    ),
                decreases fields@.len() - index,
            {
                if index < this.0.len() {
                    let f = &fields[index];
                    let q = &this.0[index];
                    proof {
                        assert(working[index as int] == (q.0@, q.1@));
                        assert(names[index as int] == f.name@);
                    }
                    if !eq_str(f.name.as_str(), q.0.as_str()) {
                        let qe = QueryError::Unexpected(f.name.clone(), q.0.clone());
                        proof {
                            assert(working.len() == this.0@.len());
                            assert(backfill(names, working, index as int, strs_view(paths@))
                                == Err::<Seq<Seq<char>>, (Seq<char>, Seq<char>)>((
                                names[index as int],
                                working[index as int].0,
                            )));
                        }
                        return qe.to_error();
                    }
                    if !q.1.as_str().is_empty() {
                        let ghost acc0 = strs_view(paths@);
                        let token = concat3(f.name.as_str(), "=", q.1.as_str());
                        paths.push(token);
                        proof {
                            assert(strs_view(paths@) =~= acc0.push(
                                names[index as int] + "="@ + working[index as int].1,
                            ));
                        }
                    }
                }
                index += 1;
            }
        }
        Ok(())
    }
}

// ---------------------------------------------------------------------------
// The lenient policy
// ---------------------------------------------------------------------------

/// Lenient selection: for each declared field from `idx` on, search the raw
/// query text for the field's name; where found, take the text up to the
/// next `&` (or the end), and keep it only if it is a well-formed `key=value`
/// token. Tokens never selected are silently ignored.
pub open spec fn lenient_from(
    names: Seq<Seq<char>>,
    q: Seq<char>,
    idx: int,
    acc: Seq<Seq<char>>,
) -> Seq<Seq<char>>
    decreases names.len() - idx,
{
    if idx < 0 || idx >= names.len() {
        acc
    } else {
        let acc2 = match find_sub_from(q, names[idx], 0) {
            None => acc,
            Some(start) => {
                let end = match find_char_from(q, '&', start) {
                    None => q.len() as int,
                    Some(e) => e,
                };
                let param = q.subrange(start, end);
                if contains_char(param, '=') {
                    acc.push(param)
                } else {
                    acc
                }
            },
        };
        lenient_from(names, q, idx + 1, acc2)
    }
}

/// What lenient merging yields: where the path tokens already cover every
/// declared field the query text is not consulted; otherwise each declared
/// field is best-effort located in the raw query text.
pub open spec fn lenient_merge(
    names: Seq<Seq<char>>,
    path_tokens: Seq<Seq<char>>,
    q: Seq<char>,
) -> Seq<Seq<char>> {
    if path_tokens.len() == names.len() {
        path_tokens
    } else {
        lenient_from(names, q, 0, path_tokens)
    }
}

/// Lenient merging: re-arrange the declared fields found in the raw query
/// text into schema order, appending them to the path-derived tokens.
pub fn unordered_fields(paths: &mut Vec<String>, fields: &Vec<FieldDef>, query: &str)
    ensures
        strs_view(final(paths)@) == lenient_merge(
            field_names(fields@),
            strs_view(old(paths)@),
            query@,
        ),
{
    let ghost names = field_names(fields@);
    let ghost ptoks0 = strs_view(paths@);
    if paths.len() != fields.len() {
        let n = query.unicode_len();
        let mut idx: usize = 0;
        #[verifier::loop_isolation(false)]
        while idx < fields.len()
            invariant
                idx <= fields@.len(),
                lenient_from(names, query@, idx as int, strs_view(paths@)) == lenient_from(
                    names,
                    query@,
                    0,
                    ptoks0,
                ),
            decreases fields@.len() - idx,
        {
            proof {
                assert(names[idx as int] == fields@[idx as int].name@);
            }
            match find_sub(query, fields[idx].name.as_str()) {
                None => {},
                Some(start) => {
                    let end = match find_char(query, '&', start) {
                        None => n,
                        Some(e) => e,
                    };
                    let ghost acc0 = strs_view(paths@);
                    let param = query.substring_char(start, end);
                    if has_char(param, '=') {
                        paths.push(param.to_owned());
                        proof {
                            assert(strs_view(paths@) =~= acc0.push(
                                query@.subrange(start as int, end as int),
                            ));
                        }
                    }
                },
            }
            idx += 1;
        }
    }
}

// ---------------------------------------------------------------------------
// Binding
// ---------------------------------------------------------------------------

/// What binding yields for a target shape, captures, raw query and policy:
/// either the decoded entries in schema order, or the message, status and
/// cause of the failure.
pub open spec fn bind_model<D: Params>(
    shape: TargetShape,
    ctx: &D,
    q: Option<Seq<char>>,
    strict: bool,
) -> Result<Seq<(Seq<char>, Option<ValModel>)>, (Seq<char>, u16, CauseKind)> {
    if !shape_accepted(shape) {
        Err((shape_err_msg(shape), INTERNAL_SERVER_ERROR, CauseKind::Query))
    } else {
        let fields = shape_fields(shape);
        let names = field_names(fields);
        let ptoks = collect_paths_from(fields, ctx, 0);
        let tokens_or: Result<Seq<Seq<char>>, (Seq<char>, u16, CauseKind)> = match q {
            None => Ok(ptoks),
            Some(qs) => if strict {
                match strict_merge(names, ptoks, query_pairs_spec(qs)) {
                    Ok(t) => Ok(t),
                    Err((k, a, b)) => Err((qerr_msg(k, a, b), BAD_REQUEST, CauseKind::Query)),
                }
            } else {
                Ok(lenient_merge(names, ptoks, qs))
            },
        };
        match tokens_or {
            Err(e) => Err(e),
            Ok(tokens) => {
                let merged = join_sep(tokens, "&"@);
                match decode_model(fields, merged) {
                    Ok(m) => Ok(m),
                    Err((k, nm)) => Err((decode_err_msg(k, nm), BAD_REQUEST, CauseKind::Query)),
                }
            },
        }
    }
}

impl<T> Query<T> {
    /// The ordered `field=value` tokens contributed by the path captures, in
    /// schema order, independent of capture iteration order.
    pub fn collect_paths<D: Params>(fields: &Vec<FieldDef>, ctx: &D) -> (r: Vec<String>)
        ensures
            strs_view(r@) == collect_paths_from(fields@, ctx, 0),
    {
        collect_paths_rec(fields, ctx, 0)
    }
}

fn collect_paths_rec<D: Params>(fields: &Vec<FieldDef>, ctx: &D, idx: usize) -> (r: Vec<String>)
    requires
        idx <= fields@.len(),
    ensures
        strs_view(r@) == collect_paths_from(fields@, ctx, idx as int),
    decreases fields@.len() - idx,
{
    if idx >= fields.len() {
        let r: Vec<String> = Vec::new();
        proof {
            assert(strs_view(r@) =~= collect_paths_from(fields@, ctx, idx as int));
        }
        return r;
    }
    let mut rest = collect_paths_rec(fields, ctx, idx + 1);
    let ghost rest0 = rest@;
    match paths(fields[idx].name.as_str(), ctx) {
        Some(t) => {
            rest.insert(0, t);
            proof {
                assert(strs_view(rest@) =~= seq![strs_view(rest@)[0]] + strs_view(rest0));
            }
        },
        None => {},
    }
    proof {
        assert(strs_view(rest@) =~= collect_paths_from(fields@, ctx, idx as int));
    }
    rest
}

/// Bind the target shape from the path captures and the raw query string
/// under the given policy: the single operation routing code calls per
/// request per handler parameter.
pub fn bind<D: Params>(
    shape: &TargetShape,
    ctx: &D,
    raw_query: Option<&str>,
    strict: bool,
) -> (r: Result<BoundValue, Error>)
    ensures
        match r {
            Ok(b) => bind_model(*shape, ctx, opt_str_view(raw_query), strict) == Ok::<
                _,
                (Seq<char>, u16, CauseKind),
            >(bound_view(b)),
            Err(e) => bind_model(*shape, ctx, opt_str_view(raw_query), strict) == Err::<
                Seq<(Seq<char>, Option<ValModel>)>,
                _,
            >((e.message@, e.status_code, cause_kind(e.cause))),
        },
{
    let fields = match struct_fields(shape) {
        Ok(f) => f,
        Err(e) => {
            return Err(e);
        },
    };
    let mut paths_ = Query::<BoundValue>::collect_paths(fields, ctx);
    match raw_query {
        Some(q) => {
            if strict {
                match QueryFields::new(q).ordered_fields(&mut paths_, fields) {
                    Ok(()) => {},
                    Err(e) => {
                        return Err(e);
                    },
                }
            } else {
                unordered_fields(&mut paths_, fields, q);
            }
        },
        None => {},
    }
    let merged = join_with(&paths_, "&");
    match decode(fields, merged.as_str()) {
        Ok(b) => Ok(b),
        Err(e) => Err(e),
    }
}

impl Query<BoundValue> {
    /// Deserialize the target shape from the URL's query string and the path
    /// captures.
    ///
    /// # Errors
    /// Only plain named-field record shapes are supported: errors are
    /// returned for tuple, newtype, unit and tagged-union shapes, and for
    /// whatever the active merge policy or the decoder rejects.
    pub fn from_query_path<D: Params>(
        shape: &TargetShape,
        url: &url::Url,
        ctx: &D,
        strict: bool,
    ) -> (r: Result<Self, Error>)
        ensures
            exists|q: Option<Seq<char>>|
                #[trigger] bind_model(*shape, ctx, q, strict) == (match r {
                    Ok(qv) => Ok::<Seq<(Seq<char>, Option<ValModel>)>, (Seq<char>, u16, CauseKind)>(
                        bound_view(qv.0),
                    ),
                    Err(e) => Err((e.message@, e.status_code, cause_kind(e.cause))),
                }),
    {
        let q = url_query(url);
        let ghost qv = opt_str_view(q);
        let b = bind(shape, ctx, q, strict);
        let r: Result<Self, Error> = match b {
            Ok(v) => Ok(Query(v)),
            Err(e) => Err(e),
        };
        proof {
            assert(bind_model(*shape, ctx, qv, strict) == (match r {
                Ok(qv2) => Ok::<Seq<(Seq<char>, Option<ValModel>)>, (Seq<char>, u16, CauseKind)>(
                    bound_view(qv2.0),
                ),
                Err(e) => Err((e.message@, e.status_code, cause_kind(e.cause))),
            }));
        }
        r
    }
}

} // verus!
