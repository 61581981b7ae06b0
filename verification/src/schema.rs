//! Schema extraction: a target type describes itself as an explicit shape
//! descriptor, and only plain named-field record shapes are accepted for
//! binding. Tuple-like, newtype, unit and tagged-union shapes are rejected
//! with an error naming the shape and the type.

use vstd::prelude::*;

use crate::error::Error;
use crate::error::ErrorCause;
use crate::error::INTERNAL_SERVER_ERROR;

verus! {

/// The kind of value a field holds.
#[derive(Debug, Clone, Copy, PartialEq, Eq, Structural)]
pub enum FieldTy {
    /// A signed 64-bit integer.
    Int,
    /// Free text.
    Text,
}

/// One declared field of a target record type.
#[derive(Debug, Clone, PartialEq)]
pub struct FieldDef {
    pub name: String,
    pub ty: FieldTy,
    pub required: bool,
}

/// The shape of a target type, as declared at its definition.
#[derive(Debug, Clone, PartialEq)]
pub enum TargetShape {
    /// A plain record with named fields, in declaration order.
    Struct { name: String, fields: Vec<FieldDef> },
    /// A tuple struct.
    Tuple { name: String },
    /// A newtype struct.
    NewType { name: String },
    /// A unit struct.
    Unit { name: String },
    /// A tagged union.
    Enum { name: String },
}

/// The declared field names, in declaration order.
pub open spec fn field_names(fields: Seq<FieldDef>) -> Seq<Seq<char>> {
    fields.map_values(|f: FieldDef| f.name@)
}

/// A shape is well formed when its declared field names are distinct.
pub open spec fn shape_wf(shape: TargetShape) -> bool {
    match shape {
        TargetShape::Struct { fields, .. } => forall|i: int, j: int|
            0 <= i < j < fields@.len() ==> fields@[i].name@ != fields@[j].name@,
        _ => true,
    }
}

/// Whether schema extraction accepts the shape: a named-field record with at
/// least one field.
pub open spec fn shape_accepted(shape: TargetShape) -> bool {
    match shape {
        TargetShape::Struct { fields, .. } => fields@.len() > 0,
        _ => false,
    }
}

/// The declared fields of a shape (empty for non-record shapes).
pub open spec fn shape_fields(shape: TargetShape) -> Seq<FieldDef> {
    match shape {
        TargetShape::Struct { fields, .. } => fields@,
        _ => seq![],
    }
}

/// The message with which a shape is rejected.
pub open spec fn shape_err_msg(shape: TargetShape) -> Seq<char> {
    match shape {
        TargetShape::Struct { name, .. } => "`"@ + name@
            + "` unit struct is not supported for `Query`"@,
        TargetShape::Tuple { name } => "`"@ + name@
            + "` tuple struct is not supported for `Query`"@,
        TargetShape::NewType { name } => "`"@ + name@
            + "` tuple struct is not supported for `Query`"@,
        TargetShape::Unit { name } => "`"@ + name@
            + "` unit struct is not supported for `Query`"@,
        TargetShape::Enum { name } => "`"@ + name@
            + "` enum struct is not supported for `Query`"@,
    }
}

fn shape_error(name: &String, middle: &'static str) -> (r: String)
    ensures
        r@ == "`"@ + name@ + middle@,
{
    let mut m = String::from_str("`");
    m.append(name.as_str());
    m.append(middle);
    proof {
        assert(m@ =~= "`"@ + name@ + middle@);
    }
    m
}

/// Returns the ordered, fixed list of declared field names of the target
/// shape, or fails if the shape is not a plain named-field record.
///
/// The result depends on the type's definition alone, never on a request, so
/// callers may compute it once per type and share it.
pub fn struct_fields(shape: &TargetShape) -> (r: Result<&Vec<FieldDef>, Error>)
    ensures
        match r {
            Ok(fields) => shape_accepted(*shape) && (*shape matches TargetShape::Struct {
                fields: f,
                ..
            } && fields == &f),
            Err(e) => !shape_accepted(*shape) && e.message@ == shape_err_msg(*shape)
                && e.status_code == INTERNAL_SERVER_ERROR && e.cause == ErrorCause::Query,
        },
{
    match shape {
        TargetShape::Struct { name, fields } => {
            if fields.len() > 0 {
                Ok(fields)
            } else {
                Err(
                    Error::new(
                        shape_error(name, "` unit struct is not supported for `Query`"),
                        INTERNAL_SERVER_ERROR,
                        ErrorCause::Query,
                    ),
                )
            }
        },
        TargetShape::Tuple { name } => Err(
            Error::new(
                shape_error(name, "` tuple struct is not supported for `Query`"),
                INTERNAL_SERVER_ERROR,
                ErrorCause::Query,
            ),
        ),
        TargetShape::NewType { name } => Err(
            Error::new(
                shape_error(name, "` tuple struct is not supported for `Query`"),
                INTERNAL_SERVER_ERROR,
                ErrorCause::Query,
            ),
        ),
        TargetShape::Unit { name } => Err(
            Error::new(
                shape_error(name, "` unit struct is not supported for `Query`"),
                INTERNAL_SERVER_ERROR,
                ErrorCause::Query,
            ),
        ),
        TargetShape::Enum { name } => Err(
            Error::new(
                shape_error(name, "` enum struct is not supported for `Query`"),
                INTERNAL_SERVER_ERROR,
                ErrorCause::Query,
            ),
        ),
    }
}

} // verus!
