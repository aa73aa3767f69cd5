//! The builder synthesizer: turns the classified field list of a named-
//! field struct declaration into a plan for the companion builder type.
//!
//! The plan lists, for every field in declaration order: the field's
//! kind, its setter (name, parameter source, and whether it appends one
//! element or replaces the value), and the required-field validation
//! message for scalar fields. Construction-time semantics of the planned
//! builder live in `builder_state`.
//!
//! Per-field planning:
//! - a scalar field's builder slot wraps the declared type in an absent
//!   placeholder, its setter bears the field's own name, and construction
//!   validates its presence;
//! - an optional field keeps its declared type, its setter bears the
//!   field's name and takes the wrapped inner type (no setter when no
//!   inner type is extractable), and no presence check is emitted;
//! - an accumulator field keeps its declared type, starts from an empty
//!   collection, and its setter bears the attribute's element name and
//!   appends one element per call (no setter when the collection type
//!   yields no element type).

use vstd::prelude::*;
use vstd::string::StringExecFns;

use crate::attrs::AttrOutcome;
use crate::attrs::get_each_attr_name;
use crate::attrs::keyed_err_msg;
use crate::attrs::spec_keyed_attr;
use crate::model::DeriveInputDef;
use crate::model::FieldDef;
use crate::model::StructData;
use crate::model::TypeShape;
use crate::model::TypeShapeV;
use crate::shape::classify;
use crate::shape::derive_get_struct_fields;
use crate::shape::spec_classify;

verus! {

/// The kind a field was classified into.
#[derive(Clone, Copy, PartialEq, Eq, Structural)]
pub enum FieldKind {
    /// A scalar: present in the builder behind an absent placeholder,
    /// validated at construction time.
    Required,
    /// The optional wrapper: kept as declared, never validated.
    Optional,
    /// An accumulator collection: starts empty, filled one element per
    /// setter call, never validated.
    Accumulator,
}

/// Where the setter's parameter type comes from.
#[derive(Clone, Copy, PartialEq, Eq, Structural)]
pub enum ParamSrc {
    /// The field's declared type itself.
    DeclaredTy,
    /// The first type argument of the declared type's final segment.
    InnerTy,
}

/// One planned setter.
pub struct Setter {
    pub name: String,
    pub param: ParamSrc,
    /// Appends one element to the collection instead of replacing the
    /// stored value.
    pub appends: bool,
}

/// The plan for one field of the builder, in declaration order.
pub struct MemberPlan {
    pub field_name: String,
    pub kind: FieldKind,
    pub setter: Option<Setter>,
    /// The validation message used when this required field is missing.
    pub check_msg: Option<String>,
}

/// The whole builder plan for one declaration.
pub struct BuilderPlan {
    pub struct_name: String,
    pub builder_name: String,
    pub members: Vec<MemberPlan>,
}

/// Specification-level view of a planned setter.
pub ghost struct SetterV {
    pub name: Seq<char>,
    pub param: ParamSrc,
    pub appends: bool,
}

/// Specification-level view of one field's plan.
pub ghost struct MemberPlanV {
    pub field_name: Seq<char>,
    pub kind: FieldKind,
    pub setter: Option<SetterV>,
    pub check_msg: Option<Seq<char>>,
}

/// Specification-level view of a builder plan.
pub ghost struct BuilderPlanV {
    pub struct_name: Seq<char>,
    pub builder_name: Seq<char>,
    pub members: Seq<MemberPlanV>,
}

impl View for Setter {
    type V = SetterV;

    open spec fn view(&self) -> SetterV {
        SetterV { name: self.name@, param: self.param, appends: self.appends }
    }
}

impl View for MemberPlan {
    type V = MemberPlanV;

    open spec fn view(&self) -> MemberPlanV {
        MemberPlanV {
            field_name: self.field_name@,
            kind: self.kind,
            setter: match self.setter {
                Some(s) => Some(s@),
                None => None,
            },
            check_msg: match self.check_msg {
                Some(m) => Some(m@),
                None => None,
            },
        }
    }
}

impl View for BuilderPlan {
    type V = BuilderPlanV;

    open spec fn view(&self) -> BuilderPlanV {
        BuilderPlanV {
            struct_name: self.struct_name@,
            builder_name: self.builder_name@,
            members: self.members@.map_values(|m: MemberPlan| m@),
        }
    }
}

/// The builder type's name: the struct's name with `Builder` appended.
pub open spec fn builder_name_of(name: Seq<char>) -> Seq<char> {
    name + "Builder"@
}

/// The validation message naming a missing required field.
pub open spec fn missing_msg(name: Seq<char>) -> Seq<char> {
    "Field "@ + name + " is missing"@
}

/// The plan for one field, from its classification.
pub open spec fn spec_member_plan(f: FieldDef) -> MemberPlanV {
    match spec_classify(f) {
        TypeShapeV::ScalarV => MemberPlanV {
            field_name: f.name@,
            kind: FieldKind::Required,
            setter: Some(SetterV { name: f.name@, param: ParamSrc::DeclaredTy, appends: false }),
            check_msg: Some(missing_msg(f.name@)),
        },
        TypeShapeV::OptionalV(inner) => MemberPlanV {
            field_name: f.name@,
            kind: FieldKind::Optional,
            setter: match inner {
                Some(_) => Some(
                    SetterV { name: f.name@, param: ParamSrc::InnerTy, appends: false },
                ),
                None => None,
            },
            check_msg: None,
        },
        TypeShapeV::AccumulatorV(inner, each) => MemberPlanV {
            field_name: f.name@,
            kind: FieldKind::Accumulator,
            setter: match inner {
                Some(_) => Some(SetterV { name: each, param: ParamSrc::InnerTy, appends: true }),
                None => None,
            },
            check_msg: None,
        },
    }
}

/// Does this field carry a malformed accumulator attribute?
pub open spec fn field_attr_bad(f: FieldDef) -> bool {
    spec_keyed_attr(f.attrs@, "builder"@, "each"@) is AttrBad
}

/// Index of the first field with a malformed accumulator attribute.
pub open spec fn first_bad_field(fields: Seq<FieldDef>) -> Option<int>
    decreases fields,
{
    if fields.len() == 0 {
        None
    } else if field_attr_bad(fields[0]) {
        Some(0int)
    } else {
        match first_bad_field(fields.drop_first()) {
            Some(i) => Some(i + 1),
            None => None,
        }
    }
}

/// If everything before `i` is clean and `i` is bad, `i` is the first
/// bad field.
proof fn lemma_first_bad_at(fields: Seq<FieldDef>, i: int)
    requires
        0 <= i < fields.len(),
        field_attr_bad(fields[i]),
        forall|j: int| 0 <= j < i ==> !field_attr_bad(#[trigger] fields[j]),
    ensures
        first_bad_field(fields) == Some(i),
    decreases fields,
{
    if i > 0 {
        lemma_first_bad_at(fields.drop_first(), i - 1);
    }
}

/// If no field is bad, there is no first bad field.
proof fn lemma_no_bad_field(fields: Seq<FieldDef>)
    requires
        forall|j: int| 0 <= j < fields.len() ==> !field_attr_bad(#[trigger] fields[j]),
    ensures
        first_bad_field(fields) is None,
    decreases fields,
{
    if fields.len() > 0 {
        lemma_no_bad_field(fields.drop_first());
    }
}

/// An error that aborts one derivation.
pub enum DeriveError {
    /// The declaration is not a struct with named fields.
    UnsupportedShape,
    /// A malformed accumulator attribute: the field's index, the
    /// offending attribute's index on that field, and the diagnostic.
    BadAttr { field: usize, attr: usize, msg: String },
}

/// Builds the validation message naming a missing required field.
pub fn build_missing_msg(name: &String) -> (r: String)
    ensures
        r@ == missing_msg(name@),
{
    let mut s: String = "Field ".to_owned();
    s.append(name.as_str());
    s.append(" is missing");
    s
}

/// Plans the builder for one declaration.
///
/// Succeeds exactly on named-field structs whose fields carry no
/// malformed accumulator attribute; the first offender in declaration
/// order is reported. On success the plan covers every field in
/// declaration order.
pub fn derive(input: &DeriveInputDef) -> (r: Result<BuilderPlan, DeriveError>)
    ensures
        match r {
            Ok(plan) => {
                &&& input.data matches StructData::NamedFields(fields)
                &&& first_bad_field(fields@) is None
                &&& plan@.struct_name == input.ident@
                &&& plan@.builder_name == builder_name_of(input.ident@)
                &&& plan@.members.len() == fields@.len()
                &&& forall|i: int|
                    0 <= i < fields@.len() ==> #[trigger] plan@.members[i] == spec_member_plan(
                        fields@[i],
                    )
            },
            Err(DeriveError::UnsupportedShape) => !(input.data is NamedFields),
            Err(DeriveError::BadAttr { field, attr, msg }) => {
                &&& input.data matches StructData::NamedFields(fields)
                &&& first_bad_field(fields@) == Some(field as int)
                &&& spec_keyed_attr(fields@[field as int].attrs@, "builder"@, "each"@)
                    == AttrOutcome::AttrBad(attr as int)
                &&& msg@ == keyed_err_msg(fields@[field as int].attrs@, "builder"@, "each"@)
            },
        },
{
    let fields = match derive_get_struct_fields(input) {
        Some(f) => f,
        None => {
            return Err(DeriveError::UnsupportedShape);
        },
    };
    let n = fields.len();
    let mut members: Vec<MemberPlan> = Vec::new();
    let mut i: usize = 0;
    while i < n
        invariant
            input.data == StructData::NamedFields(*fields),
            i <= n,
            n == fields@.len(),
            members@.len() == i,
            forall|j: int|
                0 <= j < i ==> (#[trigger] members@[j])@ == spec_member_plan(fields@[j]),
            forall|j: int| 0 <= j < i ==> !field_attr_bad(#[trigger] fields@[j]),
        decreases n - i,
    {
        let f = &fields[i];
        match get_each_attr_name(f) {
            Some(Err(e)) => {
                proof {
                    lemma_first_bad_at(fields@, i as int);
                }
                return Err(DeriveError::BadAttr { field: i, attr: e.attr, msg: e.msg });
            },
            _ => {},
        }
        let member = match classify(f) {
            TypeShape::Scalar => MemberPlan {
                field_name: f.name.clone(),
                kind: FieldKind::Required,
                setter: Some(
                    Setter { name: f.name.clone(), param: ParamSrc::DeclaredTy, appends: false },
                ),
                check_msg: Some(build_missing_msg(&f.name)),
            },
            TypeShape::Optional(inner) => MemberPlan {
                field_name: f.name.clone(),
                kind: FieldKind::Optional,
                setter: match inner {
                    Some(_) => Some(
                        Setter { name: f.name.clone(), param: ParamSrc::InnerTy, appends: false },
                    ),
                    None => None,
                },
                check_msg: None,
            },
            TypeShape::Accumulator(inner, each) => MemberPlan {
                field_name: f.name.clone(),
                kind: FieldKind::Accumulator,
                setter: match inner {
                    Some(_) => Some(Setter { name: each, param: ParamSrc::InnerTy, appends: true }),
                    None => None,
                },
                check_msg: None,
            },
        };
        members.push(member);
        i = i + 1;
    }
    proof {
        lemma_no_bad_field(fields@);
    }
    let builder_name = input.ident.clone().concat("Builder");
    Ok(BuilderPlan { struct_name: input.ident.clone(), builder_name, members })
}

} // verus!
