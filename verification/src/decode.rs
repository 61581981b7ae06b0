//! The structural deserializer: decodes the final merged `key=value&...`
//! sequence into a flat record value. Required fields with no pair fail;
//! optional fields with no pair resolve to the absent representation.
//! The decoder never sees the merger's strictness policy: it only consumes a
//! single linear key/value sequence.

use vstd::prelude::*;

use crate::error::BAD_REQUEST;
use crate::error::Error;
use crate::error::ErrorCause;
use crate::schema::FieldDef;
use crate::schema::FieldTy;
use crate::text::concat3;
use crate::text::eq_str;
use crate::text::parse_i64;
use crate::text::parse_i64_spec;
use crate::urlq::pairs_view;
use crate::urlq::parse_query;
use crate::urlq::query_pairs_spec;

verus! {

/// A decoded field value.
#[derive(Debug, Clone, PartialEq)]
pub enum FieldValue {
    Int(i64),
    Text(String),
}

/// Model of a decoded field value.
pub enum ValModel {
    IntV(i64),
    TextV(Seq<char>),
}

pub open spec fn val_model(v: FieldValue) -> ValModel {
    match v {
        FieldValue::Int(n) => ValModel::IntV(n),
        FieldValue::Text(s) => ValModel::TextV(s@),
    }
}

pub open spec fn entries_view(v: Seq<(String, Option<FieldValue>)>) -> Seq<
    (Seq<char>, Option<ValModel>),
> {
    v.map_values(
        |e: (String, Option<FieldValue>)|
            (
                e.0@,
                match e.1 {
                    Some(w) => Some(val_model(w)),
                    None => None,
                },
            ),
    )
}

/// A successfully bound value: one entry per declared field, in schema order.
/// An entry is `None` where an optional field was absent.
#[derive(Debug, Clone, PartialEq)]
pub struct BoundValue {
    pub entries: Vec<(String, Option<FieldValue>)>,
}

pub open spec fn bound_view(b: BoundValue) -> Seq<(Seq<char>, Option<ValModel>)> {
    entries_view(b.entries@)
}

/// Value bound to the first pair whose key is `key`.
pub open spec fn find_pair(pairs: Seq<(Seq<char>, Seq<char>)>, key: Seq<char>) -> Option<Seq<char>>
    decreases pairs.len(),
{
    if pairs.len() == 0 {
        None
    } else if pairs[0].0 == key {
        Some(pairs[0].1)
    } else {
        find_pair(pairs.drop_first(), key)
    }
}

/// Value of the first pair with the given key.
pub fn find_pair_exec<'a>(pairs: &'a Vec<(String, String)>, key: &str) -> (r: Option<&'a String>)
    ensures
        match r {
            Some(v) => find_pair(pairs_view(pairs@), key@) == Some(v@),
            None => find_pair(pairs_view(pairs@), key@) is None,
        },
{
    let n = pairs.len();
    let mut i: usize = 0;
    proof {
        assert(pairs_view(pairs@).skip(0) =~= pairs_view(pairs@));
    }
    while i < n
        invariant
            i <= n,
            n == pairs@.len(),
            find_pair(pairs_view(pairs@), key@) == find_pair(
                pairs_view(pairs@).skip(i as int),
                key@,
            ),
        decreases n - i,
    {
        let p = &pairs[i];
        proof {
            assert(pairs_view(pairs@).skip(i as int)[0] == pairs_view(pairs@)[i as int]);
            assert(pairs_view(pairs@).skip(i as int).drop_first() =~= pairs_view(pairs@).skip(
                i + 1,
            ));
        }
        if eq_str(p.0.as_str(), key) {
            return Some(&p.1);
        }
        i += 1;
    }
    proof {
        assert(pairs_view(pairs@).skip(n as int) =~= Seq::<(Seq<char>, Seq<char>)>::empty());
    }
    None
}

/// How the decoder can fail.
#[derive(Debug, Clone, Copy, PartialEq, Eq, Structural)]
pub enum DecodeErrorKind {
    /// A required field had no pair.
    MissingField,
    /// An integer field's value did not parse.
    InvalidInt,
}

pub open spec fn decode_err_msg(kind: DecodeErrorKind, name: Seq<char>) -> Seq<char> {
    match kind {
        DecodeErrorKind::MissingField => "missing field `"@ + name + "`"@,
        DecodeErrorKind::InvalidInt => "invalid integer value in field `"@ + name + "`"@,
    }
}

/// The decode of the fields from `idx` on against the available pairs.
pub open spec fn decode_from(
    fields: Seq<FieldDef>,
    pairs: Seq<(Seq<char>, Seq<char>)>,
    idx: int,
) -> Result<Seq<(Seq<char>, Option<ValModel>)>, (DecodeErrorKind, Seq<char>)>
    decreases fields.len() - idx,
{
    if idx < 0 || idx >= fields.len() {
        Ok(seq![])
    } else {
        let f = fields[idx];
        let entry: Result<Option<ValModel>, (DecodeErrorKind, Seq<char>)> = match find_pair(
            pairs,
            f.name@,
        ) {
            None => if f.required {
                Err((DecodeErrorKind::MissingField, f.name@))
            } else {
                Ok(None)
            },
            Some(v) => match f.ty {
                FieldTy::Text => Ok(Some(ValModel::TextV(v))),
                FieldTy::Int => match parse_i64_spec(v) {
                    Some(n) => Ok(Some(ValModel::IntV(n))),
                    None => Err((DecodeErrorKind::InvalidInt, f.name@)),
                },
            },
        };
        match entry {
            Err(e) => Err(e),
            Ok(val) => match decode_from(fields, pairs, idx + 1) {
                Err(e) => Err(e),
                Ok(rest) => Ok(seq![(f.name@, val)] + rest),
            },
        }
    }
}

/// What decoding the merged sequence yields for the declared fields.
pub open spec fn decode_model(fields: Seq<FieldDef>, merged: Seq<char>) -> Result<
    Seq<(Seq<char>, Option<ValModel>)>,
    (DecodeErrorKind, Seq<char>),
> {
    decode_from(fields, query_pairs_spec(merged), 0)
}

fn decode_entries(fields: &Vec<FieldDef>, pairs: &Vec<(String, String)>, idx: usize) -> (r: Result<
    Vec<(String, Option<FieldValue>)>,
    Error,
>)
    requires
        idx <= fields@.len(),
    ensures
        match r {
            Ok(entries) => decode_from(fields@, pairs_view(pairs@), idx as int) == Ok::<
                _,
                (DecodeErrorKind, Seq<char>),
            >(entries_view(entries@)),
            Err(e) => {
                &&& decode_from(fields@, pairs_view(pairs@), idx as int) matches Err((k, nm))
                    && e.message@ == decode_err_msg(k, nm)
                &&& e.status_code == BAD_REQUEST
                &&& e.cause == ErrorCause::Query
            },
        },
    decreases fields@.len() - idx,
{
    if idx >= fields.len() {
        let entries: Vec<(String, Option<FieldValue>)> = Vec::new();
        proof {
            assert(entries_view(entries@) =~= Seq::<(Seq<char>, Option<ValModel>)>::empty());
        }
        return Ok(entries);
    }
    let f = &fields[idx];
    let value: Option<FieldValue> = match find_pair_exec(pairs, f.name.as_str()) {
        None => {
            if f.required {
                return Err(
                    Error::new(
                        concat3("missing field `", f.name.as_str(), "`"),
                        BAD_REQUEST,
                        ErrorCause::Query,
                    ),
                );
            }
            None
        },
        Some(v) => match f.ty {
            FieldTy::Text => Some(FieldValue::Text(v.clone())),
            FieldTy::Int => match parse_i64(v.as_str()) {
                Some(n) => Some(FieldValue::Int(n)),
                None => {
                    return Err(
                        Error::new(
                            concat3("invalid integer value in field `", f.name.as_str(), "`"),
                            BAD_REQUEST,
                            ErrorCause::Query,
                        ),
                    );
                },
            },
        },
    };
    match decode_entries(fields, pairs, idx + 1) {
        Err(e) => Err(e),
        Ok(mut rest) => {
            let ghost rest0 = rest@;
            rest.insert(0, (f.name.clone(), value));
            proof {
                assert(rest@.drop_first() =~= rest0);
                assert(entries_view(rest@) =~= seq![entries_view(rest@)[0]] + entries_view(rest0));
            }
            Ok(rest)
        },
    }
}

/// Decode the merged `key=value&...` sequence into a value of the target
/// record shape, taking for each declared field the first pair bound to it.
pub fn decode(fields: &Vec<FieldDef>, merged: &str) -> (r: Result<BoundValue, Error>)
    ensures
        match r {
            Ok(b) => decode_model(fields@, merged@) == Ok::<_, (DecodeErrorKind, Seq<char>)>(
                bound_view(b),
            ),
            Err(e) => {
                &&& decode_model(fields@, merged@) matches Err((k, nm)) && e.message@
                    == decode_err_msg(k, nm)
                &&& e.status_code == BAD_REQUEST
                &&& e.cause == ErrorCause::Query
            },
        },
{
    let pairs = parse_query(merged);
    match decode_entries(fields, &pairs, 0) {
        Ok(entries) => Ok(BoundValue { entries }),
        Err(e) => Err(e),
    }
}

/// Value of the entry named `name`: the outer option is the entry's own
/// optionality, so an absent optional field yields `None` just as an
/// undeclared name does.
pub open spec fn entry_lookup(
    entries: Seq<(Seq<char>, Option<ValModel>)>,
    name: Seq<char>,
) -> Option<ValModel>
    decreases entries.len(),
{
    if entries.len() == 0 {
        None
    } else if entries[0].0 == name {
        entries[0].1
    } else {
        entry_lookup(entries.drop_first(), name)
    }
}

impl BoundValue {
    /// The decoded value of the named field, if it was bound.
    pub fn value_of(&self, name: &str) -> (r: Option<&FieldValue>)
        ensures
            match r {
                Some(v) => entry_lookup(bound_view(*self), name@) == Some(val_model(*v)),
                None => entry_lookup(bound_view(*self), name@) is None,
            },
    {
        let n = self.entries.len();
        let mut i: usize = 0;
        proof {
            assert(bound_view(*self).skip(0) =~= bound_view(*self));
        }
        while i < n
            invariant
                i <= n,
                n == self.entries@.len(),
                entry_lookup(bound_view(*self), name@) == entry_lookup(
                    bound_view(*self).skip(i as int),
                    name@,
                ),
            decreases n - i,
        {
            let e = &self.entries[i];
            proof {
                assert(bound_view(*self).skip(i as int)[0] == bound_view(*self)[i as int]);
                assert(bound_view(*self).skip(i as int).drop_first() =~= bound_view(*self).skip(
                    i + 1,
                ));
            }
            if eq_str(e.0.as_str(), name) {
                return match &e.1 {
                    Some(v) => Some(v),
                    None => None,
                };
            }
            i += 1;
        }
        proof {
            assert(bound_view(*self).skip(n as int) =~= Seq::<
                (Seq<char>, Option<ValModel>),
            >::empty());
        }
        None
    }

    /// The named field's value as an integer, if it was bound to one.
    pub fn int_value(&self, name: &str) -> (r: Option<i64>)
        ensures
            r == (match entry_lookup(bound_view(*self), name@) {
                Some(ValModel::IntV(n)) => Some(n),
                _ => None::<i64>,
            }),
    {
        match self.value_of(name) {
            Some(FieldValue::Int(n)) => Some(*n),
            _ => None,
        }
    }

    /// The named field's value as text, if it was bound to some.
    pub fn text_value(&self, name: &str) -> (r: Option<String>)
        ensures
            match r {
                Some(s) => entry_lookup(bound_view(*self), name@) == Some(ValModel::TextV(s@)),
                None => !(entry_lookup(bound_view(*self), name@) matches Some(
                    ValModel::TextV(_),
                )),
            },
    {
        match self.value_of(name) {
            Some(FieldValue::Text(s)) => Some(s.clone()),
            _ => None,
        }
    }
}

} // verus!
