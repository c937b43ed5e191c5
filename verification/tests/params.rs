use r2e_macros::attrs::{Attr, AttrForm, Lit, MetaArg, MetaValue};
use r2e_macros::naming::RenameAll;
use r2e_macros::params::{
    missing_message, param_info, plan_field_construction, OnMissing, parse_nested_mode, parse_param_options, parse_serde_field_attrs,
    parse_serde_rename_all, plan_params, DefaultValue, NestedMode, ParamLocation, ParamSource,
    ParamsFieldInput, ParamsShape, ParamsSpan, ParsedField,
};
use r2e_macros::types::{GenArg, Seg, SegArgs, Ty, TyKind};

fn list(name: &str, args: Vec<MetaArg>) -> Attr<()> {
    Attr { ident: Some(name.to_string()), form: AttrForm::List, meta: Ok(args), values: Err(String::new()), raw: () }
}

fn marker(name: &str) -> Attr<()> {
    Attr {
        ident: Some(name.to_string()),
        form: AttrForm::Bare,
        meta: Err(format!("expected attribute arguments in parentheses: #[{name}(...)]")),
        values: Err(String::new()),
        raw: (),
    }
}

fn header(name: &str) -> Attr<()> {
    Attr { ident: Some("header".to_string()), form: AttrForm::List, meta: Err(String::new()), values: Ok(vec![Lit::Str(name.to_string())]), raw: () }
}

fn flag(key: &str) -> MetaArg {
    MetaArg { key: key.to_string(), value: MetaValue::Bare, rendered: String::new() }
}

fn st(key: &str, v: &str) -> MetaArg {
    MetaArg { key: key.to_string(), value: MetaValue::Eq(Lit::Str(v.to_string())), rendered: format!("{v:?}") }
}

fn num(key: &str, d: &str) -> MetaArg {
    MetaArg { key: key.to_string(), value: MetaValue::Eq(Lit::Int(d.to_string())), rendered: d.to_string() }
}

fn ty(name: &str, args: Vec<Ty>) -> Ty {
    let a = if args.is_empty() { SegArgs::Plain } else { SegArgs::Angle(args.into_iter().map(GenArg::Type).collect()) };
    Ty { kind: TyKind::Path(vec![Seg { ident: name.to_string(), args: a }]), tokens: name.to_string() }
}

fn field(name: &str, t: Ty, attrs: Vec<Attr<()>>) -> ParamsFieldInput<()> {
    ParamsFieldInput { name: name.to_string(), ty: t, attrs }
}

fn source_name(p: &ParsedField) -> (&'static str, String) {
    match p {
        ParsedField::Param { source: ParamSource::Path { name }, .. } => ("path", name.clone()),
        ParsedField::Param { source: ParamSource::Query { name }, .. } => ("query", name.clone()),
        ParsedField::Param { source: ParamSource::Header { name }, .. } => ("header", name.clone()),
        ParsedField::Nested(_) => ("nested", String::new()),
        ParsedField::Skipped => ("skipped", String::new()),
    }
}

#[test]
fn nested_modes() {
    let name = "filter".to_string();
    assert!(matches!(parse_nested_mode(&marker("params"), &name), Ok(NestedMode::Flatten)));
    assert!(matches!(parse_nested_mode(&list("params", vec![flag("prefix")]), &name), Ok(NestedMode::Prefix(ref p)) if p == "filter"));
    assert!(matches!(parse_nested_mode(&list("params", vec![st("prefix", "f")]), &name), Ok(NestedMode::Prefix(ref p)) if p == "f"));
    assert_eq!(parse_nested_mode(&list("params", vec![]), &name).err(), Some("expected #[params], #[params(prefix)], or #[params(prefix = \"...\")]".to_string()));
    assert_eq!(parse_nested_mode(&list("params", vec![flag("flatten")]), &name).err(), Some("expected `prefix` or `prefix = \"...\"`".to_string()));
}

#[test]
fn param_options() {
    let dn = "user_id".to_string();
    let path = parse_param_options(&list("param", vec![flag("path")]), 0, &dn).ok().unwrap();
    assert!(matches!(path.source, Some(ParamSource::Path { ref name }) if name == "user_id"));
    let renamed = parse_param_options(&list("param", vec![flag("path"), st("name", "id")]), 0, &dn).ok().unwrap();
    assert!(matches!(renamed.source, Some(ParamSource::Path { ref name }) if name == "id"));
    let dflt = parse_param_options(&list("param", vec![num("default", "10")]), 2, &dn).ok().unwrap();
    assert!(dflt.source.is_none());
    assert!(matches!(dflt.default_value, Some(DefaultValue::Expr { attr: 2, arg: 0 })));
    assert_eq!(
        parse_param_options(&list("param", vec![st("name", "id")]), 0, &dn).err(),
        Some("`name` requires `path`: use #[param(path, name = \"...\")]".to_string())
    );
    assert_eq!(
        parse_param_options(&list("param", vec![]), 0, &dn).err(),
        Some("expected #[param(path)], #[param(default)], or a combination of both".to_string())
    );
}

#[test]
fn serde_field_attrs() {
    let attrs = vec![list("serde", vec![st("rename", "pageSize"), flag("default")])];
    let s = parse_serde_field_attrs(&attrs);
    assert_eq!(s.rename.as_deref(), Some("pageSize"));
    assert!(matches!(s.default_value, Some(DefaultValue::Trait)));
    let per_direction = vec![list(
        "serde",
        vec![MetaArg {
            key: "rename".to_string(),
            value: MetaValue::List(vec![st("serialize", "a"), st("deserialize", "b")]),
            rendered: String::new(),
        }],
    )];
    assert_eq!(parse_serde_field_attrs(&per_direction).rename.as_deref(), Some("b"));
    let by_fn = vec![list("serde", vec![st("default", "defaults::page")])];
    assert!(matches!(parse_serde_field_attrs(&by_fn).default_value, Some(DefaultValue::Fn(ref f)) if f == "defaults::page"));
    let not_a_path = vec![list("serde", vec![st("default", "not a path"), flag("skip")])];
    let r = parse_serde_field_attrs(&not_a_path);
    assert!(r.default_value.is_none());
    assert!(!r.skip);
}

#[test]
fn serde_rename_all_convention() {
    let attrs = vec![list("serde", vec![st("rename_all", "camelCase")])];
    assert_eq!(parse_serde_rename_all(&attrs), Ok(Some(RenameAll::Camel)));
    assert_eq!(parse_serde_rename_all(&Vec::<Attr<()>>::new()), Ok(None));
    let bad = vec![list("serde", vec![st("rename_all", "Nope")])];
    assert!(parse_serde_rename_all(&bad).is_err());
}

#[test]
fn struct_fields_default_to_query() {
    let fields = vec![
        field("page_size", ty("u32", vec![]), vec![]),
        field("user_id", ty("u64", vec![]), vec![list("param", vec![flag("path")])]),
        field("token", ty("Option", vec![ty("String", vec![])]), vec![header("x-token")]),
        field("cache", ty("Cache", vec![]), vec![list("serde", vec![flag("skip")])]),
        field("filter", ty("Filter", vec![]), vec![marker("params")]),
    ];
    let attrs = vec![list("serde", vec![st("rename_all", "camelCase")])];
    let plan = plan_params(&attrs, ParamsShape::NamedStruct, &fields).ok().unwrap();
    assert_eq!(source_name(&plan.fields[0]), ("query", "pageSize".to_string()));
    assert_eq!(source_name(&plan.fields[1]), ("path", "userId".to_string()));
    assert_eq!(source_name(&plan.fields[2]), ("header", "x-token".to_string()));
    assert_eq!(source_name(&plan.fields[3]).0, "skipped");
    assert_eq!(source_name(&plan.fields[4]).0, "nested");
    assert!(plan.has_path);
    assert!(plan.needs_query);
}

#[test]
fn struct_refusals() {
    let combined = vec![field("f", ty("Filter", vec![]), vec![marker("params"), list("query", vec![])])];
    let e = plan_params(&vec![], ParamsShape::NamedStruct, &combined).err().unwrap();
    assert_eq!(e.at, ParamsSpan::Field(0));
    assert_eq!(e.message, "#[params] cannot be combined with #[param(path)], #[query], or #[header]");
    let skipped = vec![field("f", ty("u8", vec![]), vec![list("serde", vec![flag("skip")]), marker("query")])];
    let e2 = plan_params(&vec![], ParamsShape::NamedStruct, &skipped).err().unwrap();
    assert!(e2.message.starts_with("#[serde(skip)] cannot be combined with #[query]"));
    let flat = vec![field("f", ty("Inner", vec![]), vec![list("serde", vec![flag("flatten")]), marker("query")])];
    let e3 = plan_params(&vec![], ParamsShape::NamedStruct, &flat).err().unwrap();
    assert!(e3.message.starts_with("#[serde(flatten)] cannot be combined with #[query], #[header] or #[param]"));
    let tuple = plan_params::<()>(&vec![], ParamsShape::OtherStruct, &vec![]).err().unwrap();
    assert_eq!(tuple.message, "Params can only be derived for structs with named fields");
    let en = plan_params::<()>(&vec![], ParamsShape::NotStruct, &vec![]).err().unwrap();
    assert_eq!(en.message, "Params can only be derived for structs");
}

#[test]
fn documented_parameters() {
    let fields = vec![
        field("limit", ty("Option", vec![ty("u32", vec![])]), vec![]),
        field("id", ty("u64", vec![]), vec![list("param", vec![flag("path")])]),
    ];
    let plan = plan_params(&vec![], ParamsShape::NamedStruct, &fields).ok().unwrap();
    let limit = param_info(&plan.fields[0], &fields[0].ty).unwrap();
    assert_eq!(limit.name, "limit");
    assert_eq!(limit.location, ParamLocation::Query);
    assert_eq!(limit.openapi, "integer");
    assert!(!limit.required);
    let id = param_info(&plan.fields[1], &fields[1].ty).unwrap();
    assert_eq!(id.location, ParamLocation::Path);
    assert!(id.required);
}

#[test]
fn missing_messages() {
    assert_eq!(missing_message(&ParamSource::Path { name: "id".to_string() }), Some("Missing path parameter 'id'".to_string()));
    assert_eq!(missing_message(&ParamSource::Header { name: "x-key".to_string() }), Some("Missing required header 'x-key'".to_string()));
    assert_eq!(missing_message(&ParamSource::Query { name: "q".to_string() }), None);
}

#[test]
fn field_construction_by_source() {
    let header = ParsedField::Param {
        source: r2e_macros::params::ParamSource::Header { name: "x-request-id".to_string() },
        is_optional: false,
        default_value: None,
    };
    let c = plan_field_construction(&header).unwrap();
    assert_eq!(c.name, "x-request-id");
    assert_eq!(c.location, ParamLocation::Header);
    assert!(!c.prefixed && !c.optional);
    assert!(matches!(&c.on_missing, OnMissing::Refuse(Some(m)) if m == "Missing required header 'x-request-id'"));
    assert_eq!(c.parse_error, Some("Invalid header 'x-request-id': parse error".to_string()));
    assert_eq!(c.utf8_error, Some("Invalid header 'x-request-id': not valid UTF-8".to_string()));

    let query = ParsedField::Param {
        source: r2e_macros::params::ParamSource::Query { name: "page".to_string() },
        is_optional: false,
        default_value: Some(r2e_macros::params::DefaultValue::Trait),
    };
    let c = plan_field_construction(&query).unwrap();
    assert!(c.prefixed);
    assert!(matches!(c.on_missing, OnMissing::Default));
    assert_eq!(c.parse_error, None);

    let path = ParsedField::Param {
        source: r2e_macros::params::ParamSource::Path { name: "id".to_string() },
        is_optional: true,
        default_value: None,
    };
    let c = plan_field_construction(&path).unwrap();
    assert!(matches!(c.on_missing, OnMissing::Nothing));
    assert_eq!(c.parse_error, Some("Invalid path parameter 'id': parse error".to_string()));
    assert!(plan_field_construction(&ParsedField::Skipped).is_none());
}
