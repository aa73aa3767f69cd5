//! The syntactic model that the generators work on.
//!
//! A declaration reaches the engine as plain values: identifiers are
//! strings, type expressions are paths of segments with optional
//! angle-bracketed argument lists, and metadata annotations are key /
//! string-literal shapes.

use vstd::prelude::*;

verus! {

/// One segment of a path type expression: an identifier together with
/// whatever generic arguments follow it.
pub struct PathSeg {
    pub ident: String,
    pub args: PathArgs,
}

/// The generic-argument list attached to one path segment.
pub enum PathArgs {
    /// No argument list at all.
    NoArgs,
    /// An angle-bracketed list, `<...>`.
    Angled(Vec<GenArg>),
    /// A parenthesized list (function-style arguments).
    Parenthesized,
}

/// One generic argument inside an angle-bracketed list.
pub enum GenArg {
    /// A type argument.
    TypeArg(TypeExpr),
    /// A lifetime, const, or binding argument: never a wrapped inner type.
    OtherArg,
}

/// A declared type expression, as far as the generators inspect it.
pub enum TypeExpr {
    /// A (possibly qualified) path, such as `a::b::C<D>`.
    Path(Vec<PathSeg>),
    /// Any non-path type (reference, tuple, slice, ...): always a scalar.
    Other,
}

/// A literal inside a metadata annotation.
pub enum LitValue {
    /// A string literal, carrying its contents.
    StrLit(String),
    /// Any other literal kind: never a recognized value.
    OtherLit,
}

/// A parsed metadata annotation body.
pub enum Meta {
    /// A bare path, `#[key]`.
    PathMeta(Vec<String>),
    /// A key / literal pair, `#[key = lit]`.
    NameValue(Vec<String>, LitValue),
    /// A keyed list, `#[key(...)]`.
    ListMeta(Vec<String>, Vec<NestedMeta>),
}

/// One element of a keyed metadata list.
pub enum NestedMeta {
    /// A nested annotation body.
    MetaItem(Meta),
    /// A bare literal element.
    LitItem(LitValue),
}

/// One attribute attached to a field: `Parsed` when its body has the
/// structured key / value shape, `Unparsed` when it does not (such an
/// attribute is never recognized).
pub enum Attr {
    Parsed(Meta),
    Unparsed,
}

/// Does a meta path consist of exactly the single identifier `name`?
pub open spec fn path_is_ident(path: Seq<String>, name: Seq<char>) -> bool {
    path.len() == 1 && path[0]@ == name
}

/// The path of a metadata annotation body.
pub open spec fn meta_path(m: Meta) -> Seq<String> {
    match m {
        Meta::PathMeta(p) => p@,
        Meta::NameValue(p, _) => p@,
        Meta::ListMeta(p, _) => p@,
    }
}

/// One declared struct member: its name, its declared type, and its
/// attached metadata annotations in source order.
pub struct FieldDef {
    pub name: String,
    pub ty: TypeExpr,
    pub attrs: Vec<Attr>,
}

/// One declared generic parameter.
pub enum GenericParamDef {
    /// A type parameter, carrying its name.
    TypeParam(String),
    /// A lifetime or const parameter: never bound by the generators.
    OtherParam,
}

/// The body of the declaration handed to a deriver.
pub enum StructData {
    /// A struct with named fields, in declaration order.
    NamedFields(Vec<FieldDef>),
    /// A tuple struct: unsupported by the derivers.
    UnnamedFields,
    /// A unit struct: unsupported by the derivers.
    UnitStruct,
    /// An enum or union: unsupported by the derivers.
    NotAStruct,
}

/// A whole data-type declaration as a deriver receives it.
pub struct DeriveInputDef {
    pub ident: String,
    pub generics: Vec<GenericParamDef>,
    pub data: StructData,
}

/// The classification of one field, at the specification level. The
/// wrapped inner type, when one applies, is the existing subterm of the
/// field's declared type.
pub ghost enum TypeShapeV {
    /// A plain scalar: required at construction time.
    ScalarV,
    /// The optional wrapper, with its wrapped inner type when the
    /// argument list yields one.
    OptionalV(Option<TypeExpr>),
    /// An accumulator collection: the element name from the attribute,
    /// and the collection's first type argument when it yields one.
    AccumulatorV(Option<TypeExpr>, Seq<char>),
}

/// The classification of one field, as executable code receives it; the
/// inner types borrow from the inspected field.
pub enum TypeShape<'a> {
    /// A plain scalar: required at construction time.
    Scalar,
    /// The optional wrapper and its wrapped inner type, when extractable.
    Optional(Option<&'a TypeExpr>),
    /// An accumulator collection: its element type when extractable, and
    /// the element name taken from the attribute.
    Accumulator(Option<&'a TypeExpr>, String),
}

/// Does an executable classification denote the spec-level one?
pub open spec fn shape_denotes<'a>(s: TypeShape<'a>, v: TypeShapeV) -> bool {
    match (s, v) {
        (TypeShape::Scalar, TypeShapeV::ScalarV) => true,
        (TypeShape::Optional(i), TypeShapeV::OptionalV(iv)) => match (i, iv) {
            (Some(t), Some(tv)) => *t == tv,
            (None, None) => true,
            _ => false,
        },
        (TypeShape::Accumulator(i, n), TypeShapeV::AccumulatorV(iv, nv)) => n@ == nv
            && match (i, iv) {
            (Some(t), Some(tv)) => *t == tv,
            (None, None) => true,
            _ => false,
        },
        _ => false,
    }
}

} // verus!
