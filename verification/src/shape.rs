//! The type-shape classifier: sorts one field's declared type into plain
//! scalar, optional wrapper, or accumulator collection, and extracts the
//! wrapped inner type where one applies.
//!
//! A type is recognized by the final identifier of its outermost path
//! alone, so a fully qualified spelling of the wrapper is still
//! recognized. Classification is total and mutually exclusive: the
//! optional wrapper takes precedence over an accumulator attribute, and
//! everything unrecognized is a scalar.

use vstd::prelude::*;

use crate::attrs::AttrOutcome;
use crate::attrs::get_each_attr_name;
use crate::attrs::spec_keyed_attr;
use crate::model::DeriveInputDef;
use crate::model::FieldDef;
use crate::model::GenArg;
use crate::model::PathArgs;
use crate::model::StructData;
use crate::model::TypeExpr;
use crate::model::TypeShape;
use crate::model::TypeShapeV;
use crate::model::shape_denotes;

verus! {

/// Does the type's outermost path end in the identifier `name`?
pub open spec fn spec_is_field(t: TypeExpr, name: Seq<char>) -> bool {
    match t {
        TypeExpr::Path(segs) => segs@.len() > 0 && segs@.last().ident@ == name,
        TypeExpr::Other => false,
    }
}

/// Is this type the optional wrapper, by its final path identifier?
pub open spec fn spec_is_optional(t: TypeExpr) -> bool {
    spec_is_field(t, "Option"@)
}

/// The first angle-bracketed type argument of the final path segment,
/// when the segment has an angle-bracketed list whose first argument is
/// a type.
pub open spec fn spec_first_type_arg(t: TypeExpr) -> Option<TypeExpr> {
    match t {
        TypeExpr::Path(segs) => if segs@.len() > 0 {
            match segs@.last().args {
                PathArgs::Angled(args) => if args@.len() > 0 {
                    match args@[0] {
                        GenArg::TypeArg(inner) => Some(inner),
                        GenArg::OtherArg => None,
                    }
                } else {
                    None
                },
                _ => None,
            }
        } else {
            None
        },
        TypeExpr::Other => None,
    }
}

/// The inner type of the single-argument wrapper `name`, when the type
/// is that wrapper and its argument list yields a first type argument.
pub open spec fn spec_inner_type(t: TypeExpr, name: Seq<char>) -> Option<TypeExpr> {
    if spec_is_field(t, name) {
        spec_first_type_arg(t)
    } else {
        None
    }
}

/// The element name of a successfully parsed accumulator attribute.
pub open spec fn spec_each_name(f: FieldDef) -> Option<Seq<char>> {
    match spec_keyed_attr(f.attrs@, "builder"@, "each"@) {
        AttrOutcome::AttrValue(v) => Some(v),
        _ => None,
    }
}

/// The classification of one field: the optional wrapper by type name
/// first, else an accumulator when the field carries a successfully
/// parsed accumulator attribute, else a plain scalar. A malformed
/// accumulator attribute classifies as scalar; the synthesizer reports
/// it separately.
pub open spec fn spec_classify(f: FieldDef) -> TypeShapeV {
    if spec_is_optional(f.ty) {
        TypeShapeV::OptionalV(spec_inner_type(f.ty, "Option"@))
    } else {
        match spec_each_name(f) {
            Some(n) => TypeShapeV::AccumulatorV(spec_first_type_arg(f.ty), n),
            None => TypeShapeV::ScalarV,
        }
    }
}

/// The named-field list of the declaration, when it has one.
pub fn derive_get_struct_fields(ast: &DeriveInputDef) -> (r: Option<&Vec<FieldDef>>)
    ensures
        match r {
            Some(fields) => ast.data == StructData::NamedFields(*fields),
            None => !(ast.data is NamedFields),
        },
{
    match &ast.data {
        StructData::NamedFields(fields) => Some(fields),
        _ => None,
    }
}

/// Does the field's declared type end in the path identifier `name`?
pub fn is_field(field: &FieldDef, name: String) -> (r: bool)
    ensures
        r == spec_is_field(field.ty, name@),
{
    match &field.ty {
        TypeExpr::Path(segs) => {
            let n = segs.len();
            if n > 0 {
                segs[n - 1].ident == name
            } else {
                false
            }
        },
        TypeExpr::Other => false,
    }
}

/// Is the field's declared type the optional wrapper?
pub fn is_field_optional(field: &FieldDef) -> (r: bool)
    ensures
        r == spec_is_optional(field.ty),
{
    is_field(field, "Option".to_owned())
}

/// The first angle-bracketed type argument of the type's final segment.
fn first_type_arg(t: &TypeExpr) -> (r: Option<&TypeExpr>)
    ensures
        match r {
            Some(inner) => spec_first_type_arg(*t) == Some(*inner),
            None => spec_first_type_arg(*t) is None,
        },
{
    match t {
        TypeExpr::Path(segs) => {
            let n = segs.len();
            if n > 0 {
                match &segs[n - 1].args {
                    PathArgs::Angled(args) => if args.len() > 0 {
                        match &args[0] {
                            GenArg::TypeArg(inner) => Some(inner),
                            GenArg::OtherArg => None,
                        }
                    } else {
                        None
                    },
                    _ => None,
                }
            } else {
                None
            }
        },
        TypeExpr::Other => None,
    }
}

/// The inner type of the single-argument wrapper `container_ident`, when
/// the field's type is that wrapper and an inner type is extractable.
pub fn extract_inner_type<'a>(field: &'a FieldDef, container_ident: String) -> (r: Option<
    &'a TypeExpr,
>)
    ensures
        match r {
            Some(inner) => spec_inner_type(field.ty, container_ident@) == Some(*inner),
            None => spec_inner_type(field.ty, container_ident@) is None,
        },
{
    if is_field(field, container_ident) {
        first_type_arg(&field.ty)
    } else {
        None
    }
}

/// The final path identifier of the field's declared type.
pub open spec fn spec_field_type_name(t: TypeExpr) -> Option<Seq<char>> {
    match t {
        TypeExpr::Path(segs) => if segs@.len() > 0 {
            Some(segs@.last().ident@)
        } else {
            None
        },
        TypeExpr::Other => None,
    }
}

/// The name a marker-wrapped parameter appears under: when the field's
/// type is the marker wrapper `PhantomData`, the first path identifier
/// of its first type argument.
pub open spec fn spec_phantom_sub_name(t: TypeExpr) -> Option<Seq<char>> {
    match spec_inner_type(t, "PhantomData"@) {
        Some(inner) => match inner {
            TypeExpr::Path(segs) => if segs@.len() > 0 {
                Some(segs@[0].ident@)
            } else {
                None
            },
            TypeExpr::Other => None,
        },
        None => None,
    }
}

/// The final path identifier of the field's declared type, when the type
/// is a nonempty path.
pub fn get_field_type_name(field: &FieldDef) -> (r: Option<String>)
    ensures
        match r {
            Some(s) => spec_field_type_name(field.ty) == Some(s@),
            None => spec_field_type_name(field.ty) is None,
        },
{
    match &field.ty {
        TypeExpr::Path(segs) => {
            let n = segs.len();
            if n > 0 {
                Some(segs[n - 1].ident.clone())
            } else {
                None
            }
        },
        TypeExpr::Other => None,
    }
}

/// The parameter name inside a marker-wrapper field, used to tell
/// marker-only parameters apart from data-carrying ones.
pub fn get_phantomdata_sub_type_name(field: &FieldDef) -> (r: Option<String>)
    ensures
        match r {
            Some(s) => spec_phantom_sub_name(field.ty) == Some(s@),
            None => spec_phantom_sub_name(field.ty) is None,
        },
{
    match extract_inner_type(field, "PhantomData".to_owned()) {
        Some(TypeExpr::Path(segs)) => if segs.len() > 0 {
            Some(segs[0].ident.clone())
        } else {
            None
        },
        _ => None,
    }
}

/// Classifies one field into its shape, carrying the extractable inner
/// type and, for an accumulator, the attribute's element name.
pub fn classify<'a>(field: &'a FieldDef) -> (s: TypeShape<'a>)
    ensures
        shape_denotes(s, spec_classify(*field)),
{
    if is_field_optional(field) {
        TypeShape::Optional(extract_inner_type(field, "Option".to_owned()))
    } else {
        match get_each_attr_name(field) {
            Some(Ok(each)) => TypeShape::Accumulator(first_type_arg(&field.ty), each),
            _ => TypeShape::Scalar,
        }
    }
}

} // verus!
