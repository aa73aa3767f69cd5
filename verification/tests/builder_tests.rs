use derive_engine::attrs::get_attr_lit;
use derive_engine::attrs::get_each_attr_name;
use derive_engine::builder::BuilderPlan;
use derive_engine::builder::DeriveError;
use derive_engine::builder::FieldKind;
use derive_engine::builder::ParamSrc;
use derive_engine::builder_state::BuilderState;
use derive_engine::builder_state::FieldVal;
use derive_engine::model::Attr;
use derive_engine::model::DeriveInputDef;
use derive_engine::model::FieldDef;
use derive_engine::model::GenArg;
use derive_engine::model::LitValue;
use derive_engine::model::Meta;
use derive_engine::model::NestedMeta;
use derive_engine::model::PathArgs;
use derive_engine::model::PathSeg;
use derive_engine::model::StructData;
use derive_engine::model::TypeExpr;
use derive_engine::model::TypeShape;
use derive_engine::shape::classify;
use derive_engine::shape::extract_inner_type;
use derive_engine::shape::is_field_optional;

fn seg(name: &str) -> PathSeg {
    PathSeg { ident: name.to_string(), args: PathArgs::NoArgs }
}

fn seg_with_arg(name: &str, inner: TypeExpr) -> PathSeg {
    PathSeg { ident: name.to_string(), args: PathArgs::Angled(vec![GenArg::TypeArg(inner)]) }
}

fn plain_ty(name: &str) -> TypeExpr {
    TypeExpr::Path(vec![seg(name)])
}

fn wrapped_ty(wrapper: &str, inner: TypeExpr) -> TypeExpr {
    TypeExpr::Path(vec![seg_with_arg(wrapper, inner)])
}

fn field(name: &str, ty: TypeExpr) -> FieldDef {
    FieldDef { name: name.to_string(), ty, attrs: vec![] }
}

fn each_attr(value: &str) -> Attr {
    Attr::Parsed(Meta::ListMeta(
        vec!["builder".to_string()],
        vec![NestedMeta::MetaItem(Meta::NameValue(
            vec!["each".to_string()],
            LitValue::StrLit(value.to_string()),
        ))],
    ))
}

fn named_input(name: &str, fields: Vec<FieldDef>) -> DeriveInputDef {
    DeriveInputDef {
        ident: name.to_string(),
        generics: vec![],
        data: StructData::NamedFields(fields),
    }
}

fn plan_of(input: &DeriveInputDef) -> BuilderPlan {
    match derive_engine::builder::derive(input) {
        Ok(p) => p,
        Err(_) => panic!("expected a builder plan"),
    }
}

#[test]
fn scalar_ordering_names_first_field_then_succeeds() {
    let input = named_input(
        "Command",
        vec![field("a", plain_ty("u32")), field("b", plain_ty("String"))],
    );
    let plan = plan_of(&input);
    assert_eq!(plan.struct_name, "Command");
    assert_eq!(plan.builder_name, "CommandBuilder");
    assert_eq!(plan.members.len(), 2);
    assert!(matches!(plan.members[0].kind, FieldKind::Required));
    assert!(matches!(plan.members[1].kind, FieldKind::Required));
    assert_eq!(plan.members[0].check_msg.as_deref(), Some("Field a is missing"));

    let empty: BuilderState<i64> = BuilderState::new_state(&plan);
    match empty.build() {
        Err(msg) => assert_eq!(msg, "Field a is missing"),
        Ok(_) => panic!("an empty builder must fail validation"),
    }

    let mut st: BuilderState<i64> = BuilderState::new_state(&plan);
    st.set(0, 7);
    st.set(1, 8);
    match st.build() {
        Ok(vals) => {
            assert_eq!(vals.len(), 2);
            assert!(matches!(vals[0], FieldVal::ScalarVal(7)));
            assert!(matches!(vals[1], FieldVal::ScalarVal(8)));
        },
        Err(_) => panic!("a fully set builder must build"),
    }
}

#[test]
fn second_field_reported_once_first_is_set() {
    let input = named_input(
        "Command",
        vec![field("a", plain_ty("u32")), field("b", plain_ty("String"))],
    );
    let plan = plan_of(&input);
    let mut st: BuilderState<i64> = BuilderState::new_state(&plan);
    st.set(0, 1);
    match st.build() {
        Err(msg) => assert_eq!(msg, "Field b is missing"),
        Ok(_) => panic!("builder with one missing field must fail"),
    }
}

#[test]
fn optional_field_may_stay_unset() {
    let input = named_input(
        "Command",
        vec![
            field("a", plain_ty("u32")),
            field("b", wrapped_ty("Option", plain_ty("String"))),
        ],
    );
    let plan = plan_of(&input);
    assert!(matches!(plan.members[1].kind, FieldKind::Optional));
    assert!(plan.members[1].check_msg.is_none());
    let setter = plan.members[1].setter.as_ref().expect("optional field keeps its setter");
    assert_eq!(setter.name, "b");
    assert!(matches!(setter.param, ParamSrc::InnerTy));
    assert!(!setter.appends);

    let mut st: BuilderState<i64> = BuilderState::new_state(&plan);
    st.set(0, 5);
    match st.build() {
        Ok(vals) => {
            assert!(matches!(vals[0], FieldVal::ScalarVal(5)));
            assert!(matches!(vals[1], FieldVal::OptVal(None)));
        },
        Err(_) => panic!("an unset optional field is not a construction error"),
    }
}

#[test]
fn accumulator_collects_in_call_order() {
    let mut args_field = field("args", wrapped_ty("Vec", plain_ty("String")));
    args_field.attrs.push(each_attr("arg"));
    let input = named_input("Command", vec![args_field]);
    let plan = plan_of(&input);
    assert!(matches!(plan.members[0].kind, FieldKind::Accumulator));
    let setter = plan.members[0].setter.as_ref().expect("accumulator field has a setter");
    assert_eq!(setter.name, "arg");
    assert!(setter.appends);
    assert!(matches!(setter.param, ParamSrc::InnerTy));

    let zero: BuilderState<i64> = BuilderState::new_state(&plan);
    match zero.build() {
        Ok(vals) => match &vals[0] {
            FieldVal::ListVal(items) => assert!(items.is_empty()),
            _ => panic!("an accumulator slot assembles into a collection"),
        },
        Err(_) => panic!("zero appends are not a missing-field error"),
    }

    let mut st: BuilderState<i64> = BuilderState::new_state(&plan);
    st.append(0, 10);
    st.append(0, 20);
    st.append(0, 30);
    match st.build() {
        Ok(vals) => match &vals[0] {
            FieldVal::ListVal(items) => assert_eq!(items, &vec![10, 20, 30]),
            _ => panic!("an accumulator slot assembles into a collection"),
        },
        Err(_) => panic!("appends never block construction"),
    }
}

#[test]
fn round_trip_reproduces_the_record() {
    let mut args_field = field("c", wrapped_ty("Vec", plain_ty("String")));
    args_field.attrs.push(each_attr("item"));
    let input = named_input(
        "Command",
        vec![
            field("a", plain_ty("u32")),
            field("b", wrapped_ty("Option", plain_ty("u32"))),
            args_field,
        ],
    );
    let plan = plan_of(&input);
    let mut st: BuilderState<i64> = BuilderState::new_state(&plan);
    st.set(0, 1);
    st.set(1, 2);
    st.append(2, 3);
    st.append(2, 4);
    match st.build() {
        Ok(vals) => {
            assert_eq!(vals.len(), 3);
            assert!(matches!(vals[0], FieldVal::ScalarVal(1)));
            assert!(matches!(vals[1], FieldVal::OptVal(Some(2))));
            match &vals[2] {
                FieldVal::ListVal(items) => assert_eq!(items, &vec![3, 4]),
                _ => panic!("third field is a collection"),
            }
        },
        Err(_) => panic!("the fully set builder must reproduce the record"),
    }
}

#[test]
fn malformed_each_attribute_is_reported() {
    let mut bad_field = field("args", wrapped_ty("Vec", plain_ty("String")));
    bad_field.attrs.push(Attr::Parsed(Meta::ListMeta(
        vec!["builder".to_string()],
        vec![NestedMeta::MetaItem(Meta::NameValue(
            vec!["eac".to_string()],
            LitValue::StrLit("arg".to_string()),
        ))],
    )));
    let input = named_input("Command", vec![field("a", plain_ty("u32")), bad_field]);
    match derive_engine::builder::derive(&input) {
        Err(DeriveError::BadAttr { field: f, attr, msg }) => {
            assert_eq!(f, 1);
            assert_eq!(attr, 0);
            assert_eq!(msg, "expected `builder(each = \"...\")`");
        },
        _ => panic!("a wrong key under the accumulator attribute is an error"),
    }
}

#[test]
fn bare_builder_attribute_is_reported() {
    let mut bad_field = field("args", wrapped_ty("Vec", plain_ty("String")));
    bad_field.attrs.push(Attr::Parsed(Meta::PathMeta(vec!["builder".to_string()])));
    let input = named_input("Command", vec![bad_field]);
    match derive_engine::builder::derive(&input) {
        Err(DeriveError::BadAttr { field: f, attr, msg }) => {
            assert_eq!(f, 0);
            assert_eq!(attr, 0);
            assert_eq!(msg, "expected `builder(each = \"...\")`");
        },
        _ => panic!("a bare recognized key is an error"),
    }
}

#[test]
fn tuple_struct_is_unsupported() {
    let input = DeriveInputDef {
        ident: "Pair".to_string(),
        generics: vec![],
        data: StructData::UnnamedFields,
    };
    match derive_engine::builder::derive(&input) {
        Err(DeriveError::UnsupportedShape) => {},
        _ => panic!("a tuple struct must fail with a shape error"),
    }
}

#[test]
fn qualified_optional_wrapper_is_recognized() {
    let ty = TypeExpr::Path(vec![
        seg("std"),
        seg("option"),
        seg_with_arg("Option", plain_ty("String")),
    ]);
    let f = field("b", ty);
    assert!(is_field_optional(&f));
    match extract_inner_type(&f, "Option".to_string()) {
        Some(TypeExpr::Path(segs)) => assert_eq!(segs[0].ident, "String"),
        _ => panic!("the wrapped inner type is extractable"),
    }
}

#[test]
fn optional_takes_precedence_over_accumulator() {
    let mut f = field("b", wrapped_ty("Option", plain_ty("String")));
    f.attrs.push(each_attr("item"));
    match classify(&f) {
        TypeShape::Optional(Some(_)) => {},
        _ => panic!("the optional wrapper wins over the accumulator attribute"),
    }
}

#[test]
fn missing_attribute_is_no_error() {
    let f = field("a", plain_ty("u32"));
    assert!(get_each_attr_name(&f).is_none());
    assert!(get_attr_lit(&f, "debug").is_none());
}

#[test]
fn recognized_attribute_behind_unrelated_one_is_found() {
    let mut f = field("a", plain_ty("u32"));
    f.attrs.push(Attr::Parsed(Meta::NameValue(
        vec!["other".to_string()],
        LitValue::StrLit("x".to_string()),
    )));
    f.attrs.push(each_attr("arg"));
    match get_each_attr_name(&f) {
        Some(Ok(name)) => assert_eq!(name, "arg"),
        _ => panic!("a recognized annotation behind an unrelated one must be found"),
    }
}

#[test]
fn duplicate_each_attribute_is_an_error() {
    let mut f = field("a", plain_ty("u32"));
    f.attrs.push(Attr::Parsed(Meta::NameValue(
        vec!["other".to_string()],
        LitValue::StrLit("x".to_string()),
    )));
    f.attrs.push(each_attr("first"));
    f.attrs.push(each_attr("second"));
    match get_each_attr_name(&f) {
        Some(Err(e)) => {
            assert_eq!(e.attr, 2);
            assert_eq!(e.msg, "duplicate `builder` attribute");
        },
        _ => panic!("a second annotation under the key is a duplicate error"),
    }
}

#[test]
fn last_format_attribute_wins() {
    let mut f = field("a", plain_ty("u32"));
    f.attrs.push(Attr::Parsed(Meta::NameValue(
        vec!["debug".to_string()],
        LitValue::StrLit("{:x}".to_string()),
    )));
    f.attrs.push(Attr::Parsed(Meta::NameValue(
        vec!["debug".to_string()],
        LitValue::StrLit("{:b}".to_string()),
    )));
    match get_attr_lit(&f, "debug") {
        Some(pattern) => assert_eq!(pattern, "{:b}"),
        None => panic!("the last annotation under the key decides"),
    }
}

#[test]
fn unparsed_attribute_is_skipped() {
    let mut f = field("a", plain_ty("u32"));
    f.attrs.push(Attr::Unparsed);
    f.attrs.push(each_attr("arg"));
    match get_each_attr_name(&f) {
        Some(Ok(name)) => assert_eq!(name, "arg"),
        _ => panic!("an unparsed annotation never hides a recognized one"),
    }
}
