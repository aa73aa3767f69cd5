//! The debug synthesizer: plans a structured-format implementation for a
//! named-field struct declaration.
//!
//! The plan renders each field by name in declaration order, substituting
//! the field's custom format pattern when its annotation carries one.
//! For the implementation's constraint clause the synthesizer infers the
//! minimal formatting bounds: it walks every field type for
//! associated-type paths rooted at a declared type parameter (the pattern
//! `Param::Assoc`, however deeply nested) and bounds exactly those path
//! expressions, never the bare parameter. A parameter that only ever
//! appears as a whole type - say inside a marker wrapper - therefore
//! stays unbounded.

use vstd::prelude::*;

use crate::attrs::get_attr_lit;
use crate::attrs::spec_direct_attr;
use crate::builder::DeriveError;
use crate::model::DeriveInputDef;
use crate::model::FieldDef;
use crate::model::GenArg;
use crate::model::GenericParamDef;
use crate::model::PathArgs;
use crate::model::PathSeg;
use crate::model::StructData;
use crate::model::TypeExpr;
use crate::shape::derive_get_struct_fields;

verus! {

/// The values behind a sequence of borrowed type expressions.
pub open spec fn vals(rs: Seq<&TypeExpr>) -> Seq<TypeExpr> {
    rs.map_values(|x: &TypeExpr| *x)
}

/// The views of a list of strings.
pub open spec fn names_view(ns: Seq<String>) -> Seq<Seq<char>> {
    ns.map_values(|s: String| s@)
}

/// The names of the declared type parameters, in declaration order.
pub open spec fn type_param_names(gs: Seq<GenericParamDef>) -> Seq<Seq<char>>
    decreases gs,
{
    if gs.len() == 0 {
        Seq::empty()
    } else {
        (match gs[0] {
            GenericParamDef::TypeParam(n) => seq![n@],
            GenericParamDef::OtherParam => Seq::empty(),
        }) + type_param_names(gs.drop_first())
    }
}

/// The associated-type paths in one type expression, in pre-order: every
/// path of at least two segments whose first segment is a declared type
/// parameter, the enclosing path before the paths nested in its
/// arguments.
pub open spec fn assoc_paths_in_ty(t: TypeExpr, names: Seq<Seq<char>>) -> Seq<TypeExpr>
    decreases t,
{
    match t {
        TypeExpr::Path(segs) => (if segs@.len() >= 2 && names.contains(segs@[0].ident@) {
            seq![t]
        } else {
            Seq::empty()
        }) + assoc_paths_in_segs(segs@, names),
        TypeExpr::Other => Seq::empty(),
    }
}

/// The associated-type paths nested in a list of path segments.
pub open spec fn assoc_paths_in_segs(s: Seq<PathSeg>, names: Seq<Seq<char>>) -> Seq<TypeExpr>
    decreases s,
{
    if s.len() == 0 {
        Seq::empty()
    } else {
        assoc_paths_in_seg(s[0], names) + assoc_paths_in_segs(s.drop_first(), names)
    }
}

/// The associated-type paths nested in one path segment's arguments.
pub open spec fn assoc_paths_in_seg(sg: PathSeg, names: Seq<Seq<char>>) -> Seq<TypeExpr>
    decreases sg,
{
    match sg.args {
        PathArgs::Angled(args) => assoc_paths_in_args(args@, names),
        _ => Seq::empty(),
    }
}

/// The associated-type paths nested in a generic-argument list.
pub open spec fn assoc_paths_in_args(a: Seq<GenArg>, names: Seq<Seq<char>>) -> Seq<TypeExpr>
    decreases a,
{
    if a.len() == 0 {
        Seq::empty()
    } else {
        assoc_paths_in_arg(a[0], names) + assoc_paths_in_args(a.drop_first(), names)
    }
}

/// The associated-type paths nested in one generic argument.
pub open spec fn assoc_paths_in_arg(g: GenArg, names: Seq<Seq<char>>) -> Seq<TypeExpr>
    decreases g,
{
    match g {
        GenArg::TypeArg(t) => assoc_paths_in_ty(t, names),
        GenArg::OtherArg => Seq::empty(),
    }
}

/// The associated-type paths across a field list, in declaration order.
pub open spec fn assoc_paths_in_fields(fs: Seq<FieldDef>, names: Seq<Seq<char>>) -> Seq<TypeExpr>
    decreases fs,
{
    if fs.len() == 0 {
        Seq::empty()
    } else {
        assoc_paths_in_ty(fs[0].ty, names) + assoc_paths_in_fields(fs.drop_first(), names)
    }
}

/// The head identifier of a path type.
pub open spec fn path_head(t: TypeExpr) -> Option<Seq<char>> {
    match t {
        TypeExpr::Path(segs) => if segs@.len() > 0 {
            Some(segs@[0].ident@)
        } else {
            None
        },
        TypeExpr::Other => None,
    }
}

/// Among collected paths, those rooted at one parameter, in collection
/// order.
pub open spec fn paths_with_head(ts: Seq<TypeExpr>, p: Seq<char>) -> Seq<TypeExpr>
    decreases ts,
{
    if ts.len() == 0 {
        Seq::empty()
    } else {
        (if path_head(ts[0]) == Some(p) {
            seq![ts[0]]
        } else {
            Seq::empty()
        }) + paths_with_head(ts.drop_first(), p)
    }
}

/// The inferred constraint clause: for each type parameter in
/// declaration order, the associated-type paths rooted at it, each of
/// which receives the formatting bound.
pub open spec fn spec_bound_preds(all: Seq<TypeExpr>, names: Seq<Seq<char>>) -> Seq<TypeExpr>
    decreases names,
{
    if names.len() == 0 {
        Seq::empty()
    } else {
        paths_with_head(all, names[0]) + spec_bound_preds(all, names.drop_first())
    }
}

/// The associated-type paths of a whole declaration: those of its field
/// types when it has named fields, none otherwise.
pub open spec fn spec_assoc_of_input(input: DeriveInputDef) -> Seq<TypeExpr> {
    match input.data {
        StructData::NamedFields(fields) => assoc_paths_in_fields(
            fields@,
            type_param_names(input.generics@),
        ),
        _ => Seq::empty(),
    }
}

/// Mapping to values distributes over concatenation.
proof fn lemma_vals_concat<'a>(a: Seq<&'a TypeExpr>, b: Seq<&'a TypeExpr>)
    ensures
        vals(a + b) == vals(a) + vals(b),
{
    assert forall|i: int| 0 <= i < (a + b).len() implies vals(a + b)[i] == (vals(a) + vals(
        b,
    ))[i] by {
        if i < a.len() {
            assert((a + b)[i] == a[i]);
        } else {
            assert((a + b)[i] == b[i - a.len()]);
        }
    }
    assert(vals(a + b) =~= vals(a) + vals(b));
}

/// Is this identifier one of the declared parameter names?
fn contains_name(names: &Vec<String>, x: &String) -> (r: bool)
    ensures
        r == names_view(names@).contains(x@),
{
    let n = names.len();
    let mut i: usize = 0;
    while i < n
        invariant
            i <= n,
            n == names@.len(),
            forall|j: int| 0 <= j < i ==> names_view(names@)[j] != x@,
        decreases n - i,
    {
        if names[i] == *x {
            proof {
                assert(names_view(names@)[i as int] == x@);
            }
            return true;
        }
        i = i + 1;
    }
    proof {
        assert forall|j: int| 0 <= j < names_view(names@).len() implies names_view(names@)[j]
            != x@ by {}
    }
    false
}

/// Collects the associated-type paths in one type expression.
fn collect_ty<'a>(t: &'a TypeExpr, names: &Vec<String>) -> (r: Vec<&'a TypeExpr>)
    ensures
        vals(r@) == assoc_paths_in_ty(*t, names_view(names@)),
    decreases *t,
{
    let ghost nv = names_view(names@);
    let mut r: Vec<&'a TypeExpr> = Vec::new();
    match t {
        TypeExpr::Path(segs) => {
            if segs.len() >= 2 && contains_name(names, &segs[0].ident) {
                r.push(t);
            }
            proof {
                assert(segs@.skip(0) =~= segs@);
                assert(vals(r@) + assoc_paths_in_segs(segs@.skip(0), nv) =~= assoc_paths_in_ty(
                    *t,
                    nv,
                ));
            }
            let n = segs.len();
            let mut i: usize = 0;
            while i < n
                invariant
                    i <= n,
                    n == segs@.len(),
                    nv == names_view(names@),
                    *t == TypeExpr::Path(*segs),
                    vals(r@) + assoc_paths_in_segs(segs@.skip(i as int), nv) == assoc_paths_in_ty(
                        *t,
                        nv,
                    ),
                decreases n - i,
            {
                proof {
                    assert(decreases_to!(*t => *segs));
                    assert(decreases_to!(*segs => segs@));
                    assert(decreases_to!(segs@ => segs@[i as int]));
                }
                let ghost r_pre = r@;
                let mut sub = collect_seg(&segs[i], names);
                let ghost sub_pre = sub@;
                r.append(&mut sub);
                proof {
                    lemma_vals_concat(r_pre, sub_pre);
                    assert(segs@.skip(i as int)[0] == segs@[i as int]);
                    assert(segs@.skip(i as int).drop_first() =~= segs@.skip(i as int + 1));
                    assert(vals(r@) + assoc_paths_in_segs(segs@.skip(i as int + 1), nv)
                        =~= assoc_paths_in_ty(*t, nv));
                }
                i = i + 1;
            }
            proof {
                assert(segs@.skip(n as int) =~= Seq::<PathSeg>::empty());
                assert(vals(r@) =~= vals(r@) + assoc_paths_in_segs(segs@.skip(n as int), nv));
            }
        },
        TypeExpr::Other => {
            proof {
                assert(vals(r@) =~= Seq::<TypeExpr>::empty());
            }
        },
    }
    r
}

/// Collects the associated-type paths nested in one path segment.
fn collect_seg<'a>(sg: &'a PathSeg, names: &Vec<String>) -> (r: Vec<&'a TypeExpr>)
    ensures
        vals(r@) == assoc_paths_in_seg(*sg, names_view(names@)),
    decreases *sg,
{
    let ghost nv = names_view(names@);
    let mut r: Vec<&'a TypeExpr> = Vec::new();
    match &sg.args {
        PathArgs::Angled(args) => {
            proof {
                assert(args@.skip(0) =~= args@);
                assert(vals(r@) + assoc_paths_in_args(args@.skip(0), nv) =~= assoc_paths_in_seg(
                    *sg,
                    nv,
                ));
            }
            let n = args.len();
            let mut i: usize = 0;
            while i < n
                invariant
                    i <= n,
                    n == args@.len(),
                    nv == names_view(names@),
                    sg.args == PathArgs::Angled(*args),
                    vals(r@) + assoc_paths_in_args(args@.skip(i as int), nv) == assoc_paths_in_seg(
                        *sg,
                        nv,
                    ),
                decreases n - i,
            {
                proof {
                    assert(decreases_to!(*sg => sg.args));
                    assert(decreases_to!(sg.args => *args));
                    assert(decreases_to!(*args => args@));
                    assert(decreases_to!(args@ => args@[i as int]));
                }
                let ghost r_pre = r@;
                let mut sub = collect_arg(&args[i], names);
                let ghost sub_pre = sub@;
                r.append(&mut sub);
                proof {
                    lemma_vals_concat(r_pre, sub_pre);
                    assert(args@.skip(i as int)[0] == args@[i as int]);
                    assert(args@.skip(i as int).drop_first() =~= args@.skip(i as int + 1));
                    assert(vals(r@) + assoc_paths_in_args(args@.skip(i as int + 1), nv)
                        =~= assoc_paths_in_seg(*sg, nv));
                }
                i = i + 1;
            }
            proof {
                assert(args@.skip(n as int) =~= Seq::<GenArg>::empty());
                assert(vals(r@) =~= vals(r@) + assoc_paths_in_args(args@.skip(n as int), nv));
            }
        },
        _ => {
            proof {
                assert(vals(r@) =~= Seq::<TypeExpr>::empty());
            }
        },
    }
    r
}

/// Collects the associated-type paths nested in one generic argument.
fn collect_arg<'a>(g: &'a GenArg, names: &Vec<String>) -> (r: Vec<&'a TypeExpr>)
    ensures
        vals(r@) == assoc_paths_in_arg(*g, names_view(names@)),
    decreases *g,
{
    match g {
        GenArg::TypeArg(t) => collect_ty(t, names),
        GenArg::OtherArg => {
            let r: Vec<&'a TypeExpr> = Vec::new();
            proof {
                assert(vals(r@) =~= Seq::<TypeExpr>::empty());
            }
            r
        },
    }
}

/// Mapping to views distributes over concatenation.
proof fn lemma_names_concat(a: Seq<String>, b: Seq<String>)
    ensures
        names_view(a + b) == names_view(a) + names_view(b),
{
    assert forall|i: int| 0 <= i < (a + b).len() implies names_view(a + b)[i] == (names_view(a)
        + names_view(b))[i] by {
        if i < a.len() {
            assert((a + b)[i] == a[i]);
        } else {
            assert((a + b)[i] == b[i - a.len()]);
        }
    }
    assert(names_view(a + b) =~= names_view(a) + names_view(b));
}

/// The names of the declared type parameters, in declaration order.
fn collect_type_params(input: &DeriveInputDef) -> (r: Vec<String>)
    ensures
        names_view(r@) == type_param_names(input.generics@),
{
    let gs = &input.generics;
    let n = gs.len();
    let mut r: Vec<String> = Vec::new();
    let mut i: usize = 0;
    proof {
        assert(gs@.skip(0) =~= gs@);
        assert(names_view(r@) + type_param_names(gs@.skip(0)) =~= type_param_names(gs@));
    }
    while i < n
        invariant
            i <= n,
            n == gs@.len(),
            gs@ == input.generics@,
            names_view(r@) + type_param_names(gs@.skip(i as int)) == type_param_names(gs@),
        decreases n - i,
    {
        let ghost r_pre = r@;
        match &gs[i] {
            GenericParamDef::TypeParam(name) => {
                r.push(name.clone());
                proof {
                    assert(r@ =~= r_pre + seq![gs@[i as int]->TypeParam_0]);
                    lemma_names_concat(r_pre, seq![gs@[i as int]->TypeParam_0]);
                    assert(names_view(seq![gs@[i as int]->TypeParam_0]) =~= seq![
                        gs@[i as int]->TypeParam_0@,
                    ]);
                }
            },
            GenericParamDef::OtherParam => {},
        }
        proof {
            assert(gs@.skip(i as int)[0] == gs@[i as int]);
            assert(gs@.skip(i as int).drop_first() =~= gs@.skip(i as int + 1));
            assert(names_view(r@) + type_param_names(gs@.skip(i as int + 1)) =~= type_param_names(
                gs@,
            ));
        }
        i = i + 1;
    }
    proof {
        assert(gs@.skip(n as int) =~= Seq::<GenericParamDef>::empty());
        assert(names_view(r@) =~= names_view(r@) + type_param_names(gs@.skip(n as int)));
    }
    r
}

/// The collected paths rooted at one parameter, in collection order.
fn paths_for_param<'a>(all: &Vec<&'a TypeExpr>, p: &String) -> (r: Vec<&'a TypeExpr>)
    ensures
        vals(r@) == paths_with_head(vals(all@), p@),
{
    let n = all.len();
    let mut r: Vec<&'a TypeExpr> = Vec::new();
    let mut i: usize = 0;
    proof {
        assert(vals(all@).skip(0) =~= vals(all@));
        assert(vals(r@) + paths_with_head(vals(all@).skip(0), p@) =~= paths_with_head(
            vals(all@),
            p@,
        ));
    }
    while i < n
        invariant
            i <= n,
            n == all@.len(),
            vals(r@) + paths_with_head(vals(all@).skip(i as int), p@) == paths_with_head(
                vals(all@),
                p@,
            ),
        decreases n - i,
    {
        let ghost r_pre = r@;
        let keep = match all[i] {
            TypeExpr::Path(segs) => segs.len() > 0 && segs[0].ident == *p,
            TypeExpr::Other => false,
        };
        if keep {
            r.push(all[i]);
            proof {
                assert(path_head(vals(all@)[i as int]) == Some(p@));
                lemma_vals_concat(r_pre, seq![all@[i as int]]);
                assert(r@ =~= r_pre + seq![all@[i as int]]);
                assert(vals(seq![all@[i as int]]) =~= seq![vals(all@)[i as int]]);
            }
        } else {
            proof {
                assert(path_head(vals(all@)[i as int]) != Some(p@));
            }
        }
        proof {
            assert(vals(all@).skip(i as int)[0] == vals(all@)[i as int]);
            assert(vals(all@).skip(i as int).drop_first() =~= vals(all@).skip(i as int + 1));
            assert(vals(r@) + paths_with_head(vals(all@).skip(i as int + 1), p@)
                =~= paths_with_head(vals(all@), p@));
        }
        i = i + 1;
    }
    proof {
        assert(vals(all@).skip(n as int) =~= Seq::<TypeExpr>::empty());
        assert(vals(r@) =~= vals(r@) + paths_with_head(vals(all@).skip(n as int), p@));
    }
    r
}

/// The associated-type paths across the whole declaration.
fn collect_all<'a>(input: &'a DeriveInputDef, names: &Vec<String>) -> (r: Vec<&'a TypeExpr>)
    requires
        names_view(names@) == type_param_names(input.generics@),
    ensures
        vals(r@) == spec_assoc_of_input(*input),
{
    let ghost nv = names_view(names@);
    let mut r: Vec<&'a TypeExpr> = Vec::new();
    match &input.data {
        StructData::NamedFields(fields) => {
            let n = fields.len();
            let mut i: usize = 0;
            proof {
                assert(fields@.skip(0) =~= fields@);
                assert(vals(r@) + assoc_paths_in_fields(fields@.skip(0), nv)
                    =~= assoc_paths_in_fields(fields@, nv));
            }
            while i < n
                invariant
                    i <= n,
                    n == fields@.len(),
                    nv == names_view(names@),
                    input.data == StructData::NamedFields(*fields),
                    vals(r@) + assoc_paths_in_fields(fields@.skip(i as int), nv)
                        == assoc_paths_in_fields(fields@, nv),
                decreases n - i,
            {
                let ghost r_pre = r@;
                let mut sub = collect_ty(&fields[i].ty, names);
                let ghost sub_pre = sub@;
                r.append(&mut sub);
                proof {
                    lemma_vals_concat(r_pre, sub_pre);
                    assert(fields@.skip(i as int)[0] == fields@[i as int]);
                    assert(fields@.skip(i as int).drop_first() =~= fields@.skip(i as int + 1));
                    assert(vals(r@) + assoc_paths_in_fields(fields@.skip(i as int + 1), nv)
                        =~= assoc_paths_in_fields(fields@, nv));
                }
                i = i + 1;
            }
            proof {
                assert(fields@.skip(n as int) =~= Seq::<FieldDef>::empty());
                assert(vals(r@) =~= vals(r@) + assoc_paths_in_fields(fields@.skip(n as int), nv));
            }
        },
        _ => {
            proof {
                assert(vals(r@) =~= Seq::<TypeExpr>::empty());
            }
        },
    }
    r
}

/// The capability-bound ledger: for every declared type parameter, in
/// declaration order, the associated-type path expressions rooted at it,
/// in the order the walk over the field types finds them.
pub fn get_generic_associated_types<'a>(input: &'a DeriveInputDef) -> (r: Vec<
    (String, Vec<&'a TypeExpr>),
>)
    ensures
        ({
            let names = type_param_names(input.generics@);
            let all = spec_assoc_of_input(*input);
            &&& r@.len() == names.len()
            &&& forall|k: int|
                0 <= k < names.len() ==> (#[trigger] r@[k]).0@ == names[k] && vals(r@[k].1@)
                    == paths_with_head(all, names[k])
        }),
{
    let params = collect_type_params(input);
    let all = collect_all(input, &params);
    let n = params.len();
    let mut r: Vec<(String, Vec<&'a TypeExpr>)> = Vec::new();
    let mut k: usize = 0;
    while k < n
        invariant
            k <= n,
            n == params@.len(),
            names_view(params@) == type_param_names(input.generics@),
            vals(all@) == spec_assoc_of_input(*input),
            r@.len() == k,
            forall|j: int|
                0 <= j < k ==> (#[trigger] r@[j]).0@ == names_view(params@)[j] && vals(r@[j].1@)
                    == paths_with_head(vals(all@), names_view(params@)[j]),
        decreases n - k,
    {
        let part = paths_for_param(&all, &params[k]);
        r.push((params[k].clone(), part));
        proof {
            assert(names_view(params@)[k as int] == params@[k as int]@);
        }
        k = k + 1;
    }
    r
}

/// One planned render call: the field's name literal and, when its
/// annotation carries one, the custom format pattern its value is passed
/// through before rendering.
pub struct FieldCall {
    pub name: String,
    pub pattern: Option<String>,
}

/// Specification-level view of one render call.
pub ghost struct FieldCallV {
    pub name: Seq<char>,
    pub pattern: Option<Seq<char>>,
}

impl View for FieldCall {
    type V = FieldCallV;

    open spec fn view(&self) -> FieldCallV {
        FieldCallV {
            name: self.name@,
            pattern: match self.pattern {
                Some(p) => Some(p@),
                None => None,
            },
        }
    }
}

/// The planned formatting implementation: the rendered type name, the
/// inferred constraint predicates (each path expression receives the
/// formatting bound), and one render call per field in declaration
/// order.
pub struct DebugPlan<'a> {
    pub struct_name: String,
    pub bound_preds: Vec<&'a TypeExpr>,
    pub field_calls: Vec<FieldCall>,
}

/// The render call planned for one field.
pub open spec fn spec_field_call(f: FieldDef) -> FieldCallV {
    FieldCallV { name: f.name@, pattern: spec_direct_attr(f.attrs@, "debug"@) }
}

/// Plans the formatting implementation for one declaration.
///
/// Succeeds exactly on named-field structs. The plan renders every field
/// by name in declaration order; a field whose annotation carries a
/// format pattern renders through that pattern, every other field
/// renders in the default form. The constraint predicates are, for each
/// type parameter in declaration order, the associated-type paths rooted
/// at it, in the order the walk over the field types finds them; a
/// parameter without such a path receives no bound.
pub fn derive<'a>(input: &'a DeriveInputDef) -> (r: Result<DebugPlan<'a>, DeriveError>)
    ensures
        match r {
            Ok(plan) => {
                &&& input.data matches StructData::NamedFields(fields)
                &&& plan.struct_name@ == input.ident@
                &&& plan.field_calls@.len() == fields@.len()
                &&& forall|i: int|
                    0 <= i < fields@.len() ==> (#[trigger] plan.field_calls@[i])@
                        == spec_field_call(fields@[i])
                &&& vals(plan.bound_preds@) == spec_bound_preds(
                    spec_assoc_of_input(*input),
                    type_param_names(input.generics@),
                )
            },
            Err(e) => e is UnsupportedShape && !(input.data is NamedFields),
        },
{
    let fields = match derive_get_struct_fields(input) {
        Some(f) => f,
        None => {
            return Err(DeriveError::UnsupportedShape);
        },
    };
    let n = fields.len();
    let mut field_calls: Vec<FieldCall> = Vec::new();
    let mut i: usize = 0;
    while i < n
        invariant
            i <= n,
            n == fields@.len(),
            field_calls@.len() == i,
            forall|j: int|
                0 <= j < i ==> (#[trigger] field_calls@[j])@ == spec_field_call(fields@[j]),
        decreases n - i,
    {
        let f = &fields[i];
        let pattern = get_attr_lit(f, "debug");
        field_calls.push(FieldCall { name: f.name.clone(), pattern });
        i = i + 1;
    }
    let params = collect_type_params(input);
    let all = collect_all(input, &params);
    let ghost names = type_param_names(input.generics@);
    let ghost all_s = spec_assoc_of_input(*input);
    let m = params.len();
    let mut bound_preds: Vec<&'a TypeExpr> = Vec::new();
    let mut k: usize = 0;
    proof {
        assert(names.skip(0) =~= names);
        assert(vals(bound_preds@) + spec_bound_preds(all_s, names.skip(0)) =~= spec_bound_preds(
            all_s,
            names,
        ));
    }
    while k < m
        invariant
            k <= m,
            m == params@.len(),
            names_view(params@) == names,
            names == type_param_names(input.generics@),
            vals(all@) == all_s,
            all_s == spec_assoc_of_input(*input),
            vals(bound_preds@) + spec_bound_preds(all_s, names.skip(k as int)) == spec_bound_preds(
                all_s,
                names,
            ),
        decreases m - k,
    {
        let ghost preds_pre = bound_preds@;
        let mut part = paths_for_param(&all, &params[k]);
        let ghost part_pre = part@;
        bound_preds.append(&mut part);
        proof {
            lemma_vals_concat(preds_pre, part_pre);
            assert(names_view(params@)[k as int] == params@[k as int]@);
            assert(names.skip(k as int)[0] == names[k as int]);
            assert(names.skip(k as int).drop_first() =~= names.skip(k as int + 1));
            assert(vals(bound_preds@) + spec_bound_preds(all_s, names.skip(k as int + 1))
                =~= spec_bound_preds(all_s, names));
        }
        k = k + 1;
    }
    proof {
        assert(names.skip(m as int) =~= Seq::<Seq<char>>::empty());
        assert(vals(bound_preds@) =~= vals(bound_preds@) + spec_bound_preds(
            all_s,
            names.skip(m as int),
        ));
    }
    Ok(DebugPlan { struct_name: input.ident.clone(), bound_preds, field_calls })
}

} // verus!
