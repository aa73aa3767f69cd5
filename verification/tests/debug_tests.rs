use derive_engine::builder::DeriveError;
use derive_engine::debug_gen::get_generic_associated_types;
use derive_engine::model::Attr;
use derive_engine::model::DeriveInputDef;
use derive_engine::model::FieldDef;
use derive_engine::model::GenArg;
use derive_engine::model::GenericParamDef;
use derive_engine::model::LitValue;
use derive_engine::model::Meta;
use derive_engine::model::PathArgs;
use derive_engine::model::PathSeg;
use derive_engine::model::StructData;
use derive_engine::model::TypeExpr;
use derive_engine::shape::get_field_type_name;
use derive_engine::shape::get_phantomdata_sub_type_name;

fn seg(name: &str) -> PathSeg {
    PathSeg { ident: name.to_string(), args: PathArgs::NoArgs }
}

fn seg_with_arg(name: &str, inner: TypeExpr) -> PathSeg {
    PathSeg { ident: name.to_string(), args: PathArgs::Angled(vec![GenArg::TypeArg(inner)]) }
}

fn plain_ty(name: &str) -> TypeExpr {
    TypeExpr::Path(vec![seg(name)])
}

fn wrapped_ty(wrapper: &str, inner: TypeExpr) -> TypeExpr {
    TypeExpr::Path(vec![seg_with_arg(wrapper, inner)])
}

fn assoc_ty(param: &str, assoc: &str) -> TypeExpr {
    TypeExpr::Path(vec![seg(param), seg(assoc)])
}

fn field(name: &str, ty: TypeExpr) -> FieldDef {
    FieldDef { name: name.to_string(), ty, attrs: vec![] }
}

fn format_attr(pattern: &str) -> Attr {
    Attr::Parsed(Meta::NameValue(
        vec!["debug".to_string()],
        LitValue::StrLit(pattern.to_string()),
    ))
}

fn path_idents(t: &TypeExpr) -> Vec<String> {
    match t {
        TypeExpr::Path(segs) => segs.iter().map(|s| s.ident.clone()).collect(),
        TypeExpr::Other => vec![],
    }
}

#[test]
fn field_order_and_patterns_follow_the_declaration() {
    let mut second = field("value", plain_ty("u8"));
    second.attrs.push(format_attr("0b{:08b}"));
    let input = DeriveInputDef {
        ident: "Packet".to_string(),
        generics: vec![],
        data: StructData::NamedFields(vec![field("kind", plain_ty("u32")), second]),
    };
    let plan = match derive_engine::debug_gen::derive(&input) {
        Ok(p) => p,
        Err(_) => panic!("expected a formatting plan"),
    };
    assert_eq!(plan.struct_name, "Packet");
    assert_eq!(plan.field_calls.len(), 2);
    assert_eq!(plan.field_calls[0].name, "kind");
    assert!(plan.field_calls[0].pattern.is_none());
    assert_eq!(plan.field_calls[1].name, "value");
    assert_eq!(plan.field_calls[1].pattern.as_deref(), Some("0b{:08b}"));
    assert!(plan.bound_preds.is_empty());
}

#[test]
fn wrong_shape_under_format_key_falls_back_to_default() {
    let mut f = field("value", plain_ty("u8"));
    f.attrs.push(Attr::Parsed(Meta::PathMeta(vec!["debug".to_string()])));
    let input = DeriveInputDef {
        ident: "Packet".to_string(),
        generics: vec![],
        data: StructData::NamedFields(vec![f]),
    };
    let plan = match derive_engine::debug_gen::derive(&input) {
        Ok(p) => p,
        Err(_) => panic!("expected a formatting plan"),
    };
    assert!(plan.field_calls[0].pattern.is_none());
}

#[test]
fn associated_type_usage_is_bounded() {
    let input = DeriveInputDef {
        ident: "Wrapper".to_string(),
        generics: vec![GenericParamDef::TypeParam("T".to_string())],
        data: StructData::NamedFields(vec![
            field("marker", wrapped_ty("PhantomData", plain_ty("T"))),
            field("value", assoc_ty("T", "Value")),
        ]),
    };
    let plan = match derive_engine::debug_gen::derive(&input) {
        Ok(p) => p,
        Err(_) => panic!("expected a formatting plan"),
    };
    assert_eq!(plan.bound_preds.len(), 1);
    assert_eq!(path_idents(plan.bound_preds[0]), vec!["T".to_string(), "Value".to_string()]);
}

#[test]
fn marker_only_parameter_stays_unbounded() {
    let input = DeriveInputDef {
        ident: "Wrapper".to_string(),
        generics: vec![GenericParamDef::TypeParam("T".to_string())],
        data: StructData::NamedFields(vec![
            field("marker", wrapped_ty("PhantomData", plain_ty("T"))),
        ]),
    };
    let plan = match derive_engine::debug_gen::derive(&input) {
        Ok(p) => p,
        Err(_) => panic!("expected a formatting plan"),
    };
    assert!(plan.bound_preds.is_empty());
}

#[test]
fn nested_associated_type_is_found() {
    let input = DeriveInputDef {
        ident: "Wrapper".to_string(),
        generics: vec![GenericParamDef::TypeParam("T".to_string())],
        data: StructData::NamedFields(vec![
            field("values", wrapped_ty("Vec", assoc_ty("T", "Value"))),
        ]),
    };
    let plan = match derive_engine::debug_gen::derive(&input) {
        Ok(p) => p,
        Err(_) => panic!("expected a formatting plan"),
    };
    assert_eq!(plan.bound_preds.len(), 1);
    assert_eq!(path_idents(plan.bound_preds[0]), vec!["T".to_string(), "Value".to_string()]);
}

#[test]
fn ledger_groups_paths_by_parameter_in_declaration_order() {
    let input = DeriveInputDef {
        ident: "Pair".to_string(),
        generics: vec![
            GenericParamDef::TypeParam("A".to_string()),
            GenericParamDef::OtherParam,
            GenericParamDef::TypeParam("B".to_string()),
        ],
        data: StructData::NamedFields(vec![
            field("x", assoc_ty("B", "Out")),
            field("y", assoc_ty("A", "In")),
        ]),
    };
    let ledger = get_generic_associated_types(&input);
    assert_eq!(ledger.len(), 2);
    assert_eq!(ledger[0].0, "A");
    assert_eq!(ledger[0].1.len(), 1);
    assert_eq!(path_idents(ledger[0].1[0]), vec!["A".to_string(), "In".to_string()]);
    assert_eq!(ledger[1].0, "B");
    assert_eq!(ledger[1].1.len(), 1);
    assert_eq!(path_idents(ledger[1].1[0]), vec!["B".to_string(), "Out".to_string()]);
}

#[test]
fn debug_derive_rejects_non_structs() {
    let input = DeriveInputDef {
        ident: "Choice".to_string(),
        generics: vec![],
        data: StructData::NotAStruct,
    };
    match derive_engine::debug_gen::derive(&input) {
        Err(DeriveError::UnsupportedShape) => {},
        _ => panic!("only named-field structs are supported"),
    }
}

#[test]
fn type_name_helpers_read_the_path() {
    let f = field("b", wrapped_ty("Option", plain_ty("String")));
    assert_eq!(get_field_type_name(&f).as_deref(), Some("Option"));
    assert!(get_phantomdata_sub_type_name(&f).is_none());

    let m = field("marker", wrapped_ty("PhantomData", plain_ty("T")));
    assert_eq!(get_field_type_name(&m).as_deref(), Some("PhantomData"));
    assert_eq!(get_phantomdata_sub_type_name(&m).as_deref(), Some("T"));

    let o = field("r", TypeExpr::Other);
    assert!(get_field_type_name(&o).is_none());
}
