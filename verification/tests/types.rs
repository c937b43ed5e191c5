use r2e_macros::types::{
    extract_event_type_from_arc, infer_path_param_openapi_type, is_no_body_type, is_option_wrapping_json,
    is_string_type, is_wrapper_type, rust_type_to_openapi_str, string_map_value_type, type_name_str,
    type_to_openapi_str, type_to_schema_name, unwrap_extractor_inner, unwrap_result_type, GenArg, Seg,
    SegArgs, Ty, TyKind,
};

fn ty(name: &str, args: Vec<Ty>) -> Ty {
    let a = if args.is_empty() { SegArgs::Plain } else { SegArgs::Angle(args.into_iter().map(GenArg::Type).collect()) };
    Ty { kind: TyKind::Path(vec![Seg { ident: name.to_string(), args: a }]), tokens: name.to_string() }
}

fn unit() -> Ty {
    Ty { kind: TyKind::Tuple(vec![]), tokens: "()".to_string() }
}

#[test]
fn openapi_types() {
    assert_eq!(type_to_openapi_str(&ty("u64", vec![])), "integer");
    assert_eq!(type_to_openapi_str(&ty("f32", vec![])), "number");
    assert_eq!(type_to_openapi_str(&ty("bool", vec![])), "boolean");
    assert_eq!(type_to_openapi_str(&ty("Uuid", vec![])), "string");
    assert_eq!(type_to_openapi_str(&unit()), "string");
    assert_eq!(infer_path_param_openapi_type(&ty("Path", vec![ty("i32", vec![])])), "integer");
    assert_eq!(infer_path_param_openapi_type(&ty("Query", vec![ty("i32", vec![])])), "string");
    assert_eq!(rust_type_to_openapi_str(&ty("Option", vec![ty("usize", vec![])])), "integer");
    assert_eq!(rust_type_to_openapi_str(&ty("String", vec![])), "string");
}

#[test]
fn schema_names() {
    assert_eq!(type_to_schema_name(&ty("User", vec![])), "User");
    assert_eq!(type_to_schema_name(&ty("Page", vec![ty("User", vec![])])), "Page_User");
    assert_eq!(type_to_schema_name(&ty("Pair", vec![ty("A", vec![]), ty("Vec", vec![ty("B", vec![])])])), "Pair_A_Vec_B");
}

#[test]
fn short_type_names() {
    assert_eq!(type_name_str(&ty("Option", vec![ty("Vec", vec![ty("String", vec![])])])), "Option<Vec<String>>");
    assert_eq!(type_name_str(&ty("HashMap", vec![ty("String", vec![]), ty("u8", vec![])])), "HashMap");
}

#[test]
fn wrappers_and_bodies() {
    assert!(is_wrapper_type(&ty("Json", vec![ty("A", vec![])])));
    assert!(is_wrapper_type(&ty("Form", vec![ty("A", vec![])])));
    assert!(!is_wrapper_type(&ty("Params", vec![])));
    assert!(is_no_body_type(&ty("StatusCode", vec![])));
    assert!(is_no_body_type(&unit()));
    assert!(!is_no_body_type(&ty("Json", vec![ty("A", vec![])])));
    assert!(is_string_type(&ty("String", vec![])));
    assert!(is_option_wrapping_json(&ty("Option", vec![ty("Json", vec![ty("A", vec![])])])));
}

#[test]
fn unwrapping() {
    assert_eq!(unwrap_extractor_inner(&ty("Query", vec![ty("Filter", vec![])])).tokens, "Filter");
    assert_eq!(unwrap_extractor_inner(&ty("Json", vec![ty("Filter", vec![])])).tokens, "Json");
    assert_eq!(unwrap_result_type(&ty("Result", vec![ty("User", vec![]), ty("Error", vec![])])).tokens, "User");
    let map = ty("BTreeMap", vec![ty("String", vec![]), ty("Pool", vec![])]);
    assert_eq!(string_map_value_type(&map).unwrap().tokens, "Pool");
    assert!(string_map_value_type(&ty("HashMap", vec![ty("u8", vec![]), ty("Pool", vec![])])).is_none());
    assert_eq!(extract_event_type_from_arc(&ty("Arc", vec![ty("OrderPlaced", vec![])])).ok().unwrap().tokens, "OrderPlaced");
    assert!(extract_event_type_from_arc(&ty("Box", vec![ty("OrderPlaced", vec![])])).is_err());
}
