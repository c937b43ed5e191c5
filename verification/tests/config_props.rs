use r2e_macros::attrs::{Attr, AttrForm, Lit, MetaArg, MetaValue};
use r2e_macros::config_props::{
    consume_prefix_attr, extract_field_config, plan_config_enum, plan_config_field, plan_config_struct,
    ConfigFieldInput, ConfigSpan, ConfigVariantInput, FieldInit, VariantShape,
};
use r2e_macros::types::{GenArg, Seg, SegArgs, Ty, TyKind};

fn config(args: Vec<MetaArg>) -> Attr<()> {
    Attr { ident: Some("config".to_string()), form: AttrForm::List, meta: Ok(args), values: Err(String::new()), raw: () }
}

fn doc(text: &str) -> Attr<()> {
    Attr {
        ident: Some("doc".to_string()),
        form: AttrForm::NameValue(Lit::Str(text.to_string())),
        meta: Err(String::new()),
        values: Err(String::new()),
        raw: (),
    }
}

fn flag(key: &str) -> MetaArg {
    MetaArg { key: key.to_string(), value: MetaValue::Bare, rendered: String::new() }
}

fn st(key: &str, v: &str) -> MetaArg {
    MetaArg { key: key.to_string(), value: MetaValue::Eq(Lit::Str(v.to_string())), rendered: format!("{v:?}") }
}

fn num(key: &str, d: &str) -> MetaArg {
    MetaArg { key: key.to_string(), value: MetaValue::Eq(Lit::Int(d.to_string())), rendered: d.to_string() }
}

fn path_ty(name: &str, args: Vec<Ty>) -> Ty {
    let a = if args.is_empty() { SegArgs::Plain } else { SegArgs::Angle(args.into_iter().map(GenArg::Type).collect()) };
    Ty { kind: TyKind::Path(vec![Seg { ident: name.to_string(), args: a }]), tokens: name.to_string() }
}

fn field(name: &str, ty: Ty, attrs: Vec<Attr<()>>) -> ConfigFieldInput<()> {
    ConfigFieldInput { name: name.to_string(), ty, attrs }
}

#[test]
fn field_config_arguments() {
    let attrs = vec![config(vec![num("default", "8080"), st("key", "server.port"), st("env", "PORT")])];
    let c = extract_field_config(&attrs).ok().unwrap();
    assert_eq!(c.default.as_ref().unwrap().shown, "8080");
    assert!(!c.default_is_str_lit);
    assert_eq!(c.key.as_deref(), Some("server.port"));
    assert_eq!(c.env.as_deref(), Some("PORT"));
    let s = extract_field_config(&vec![config(vec![st("default", "localhost")])]).ok().unwrap();
    assert_eq!(s.default.as_ref().unwrap().shown, "localhost");
    assert!(s.default_is_str_lit);
}

#[test]
fn field_config_refuses_unknown_key() {
    let attrs = vec![config(vec![flag("required")])];
    assert_eq!(
        extract_field_config(&attrs).err(),
        Some("expected `default`, `key`, `section`, `env`, or `skip` in #[config(...)]".to_string())
    );
    let attrs2 = vec![config(vec![num("key", "1")])];
    assert_eq!(extract_field_config(&attrs2).err(), Some("expected string literal".to_string()));
}

#[test]
fn value_field_plans() {
    let plain = plan_config_field(&field("port", path_ty("u16", vec![]), vec![doc(" The port.")]), 0).ok().unwrap();
    assert_eq!(plain.init, FieldInit::Value { optional: false, env: false, default: false });
    assert!(plain.required);
    assert_eq!(plain.key, "port");
    assert_eq!(plain.doc.as_deref(), Some("The port."));
    assert_eq!(plain.short_type, "u16");
    let opt = plan_config_field(&field("name", path_ty("Option", vec![path_ty("String", vec![])]), vec![config(vec![st("env", "NAME")])]), 1).ok().unwrap();
    assert_eq!(opt.init, FieldInit::Value { optional: true, env: true, default: false });
    assert!(!opt.required);
    assert_eq!(opt.short_type, "Option<String>");
    let dflt = plan_config_field(&field("port", path_ty("u16", vec![]), vec![config(vec![num("default", "80"), st("key", "http.port")])]), 2).ok().unwrap();
    assert_eq!(dflt.init, FieldInit::Value { optional: false, env: false, default: true });
    assert!(!dflt.required);
    assert_eq!(dflt.key, "http.port");
}

#[test]
fn section_field_plans() {
    let sec = plan_config_field(&field("db", path_ty("DbConfig", vec![]), vec![config(vec![flag("section")])]), 0).ok().unwrap();
    assert_eq!(sec.init, FieldInit::Section);
    assert!(!sec.required);
    let dsec = plan_config_field(&field("db", path_ty("DbConfig", vec![]), vec![config(vec![flag("section"), flag("default")])]), 0).ok().unwrap();
    assert_eq!(dsec.init, FieldInit::DefaultedSection);
    let osec = plan_config_field(&field("db", path_ty("Option", vec![path_ty("DbConfig", vec![])]), vec![config(vec![flag("section")])]), 0).ok().unwrap();
    assert_eq!(osec.init, FieldInit::OptionalSection);
    let map = path_ty("HashMap", vec![path_ty("String", vec![]), path_ty("Pool", vec![])]);
    let msec = plan_config_field(&field("pools", map, vec![config(vec![flag("section")])]), 0).ok().unwrap();
    assert_eq!(msec.init, FieldInit::MapSection { optional: false });
    assert!(msec.is_map_section);
    let skip = plan_config_field(&field("cache", path_ty("Cache", vec![]), vec![config(vec![flag("skip")])]), 0).ok().unwrap();
    assert_eq!(skip.init, FieldInit::Skipped);
}

#[test]
fn refused_combinations() {
    let skip_key = plan_config_field(&field("x", path_ty("u8", vec![]), vec![config(vec![flag("skip"), st("key", "k")])]), 3).err().unwrap();
    assert_eq!(skip_key.at, ConfigSpan::Field(3));
    assert_eq!(skip_key.message, "#[config(skip)] cannot be combined with other #[config(...)] attributes");
    let bare_default = plan_config_field(&field("x", path_ty("u8", vec![]), vec![config(vec![flag("default")])]), 0).err().unwrap();
    assert!(bare_default.message.starts_with("#[config(default)] without a value is only supported on #[config(section)] fields"));
    let opt_default = plan_config_field(
        &field("x", path_ty("Option", vec![path_ty("Db", vec![])]), vec![config(vec![flag("section"), flag("default")])]),
        0,
    )
    .err()
    .unwrap();
    assert_eq!(opt_default.message, "#[config(section, default)] cannot be used on Option fields — an absent optional section is already None");
    let parse = plan_config_field(&field("x", path_ty("u8", vec![]), vec![config(vec![flag("nope")])]), 4).err().unwrap();
    assert_eq!(parse.at, ConfigSpan::FieldAttrs(4));
}

#[test]
fn struct_plan() {
    let prefix = vec![config(vec![st("prefix", "app")])];
    assert!(consume_prefix_attr(&prefix).is_ok());
    let bad = vec![config(vec![st("tag", "x")])];
    assert_eq!(consume_prefix_attr(&bad), Err("expected `prefix` in #[config(prefix = \"...\")]".to_string()));
    let fields = vec![field("port", path_ty("u16", vec![]), vec![]), field("cache", path_ty("Cache", vec![]), vec![config(vec![flag("skip")])])];
    let plan = plan_config_struct(&prefix, true, &fields).ok().unwrap();
    assert_eq!(plan.fields.len(), 2);
    assert!(!plan.any_validate);
    let unnamed = plan_config_struct(&prefix, false, &fields).err().unwrap();
    assert_eq!(unnamed.at, ConfigSpan::Type);
    assert_eq!(unnamed.message, "#[derive(ConfigProperties)] only works on structs with named fields");
}

fn variant(name: &str, attrs: Vec<Attr<()>>, shape: VariantShape) -> ConfigVariantInput<()> {
    ConfigVariantInput { name: name.to_string(), attrs, shape }
}

#[test]
fn enum_plan() {
    let attrs = vec![config(vec![st("tag", "backend")])];
    let vs = vec![
        variant("S3", vec![], VariantShape::Tuple(1)),
        variant("Filesystem", vec![config(vec![flag("default")])], VariantShape::Tuple(1)),
        variant("InMemory", vec![], VariantShape::Unit),
    ];
    let plan = plan_config_enum(&attrs, &vs).ok().unwrap();
    assert_eq!(plan.tag, "backend");
    assert_eq!(plan.tags, vec!["s3".to_string(), "filesystem".to_string(), "in_memory".to_string()]);
    assert_eq!(plan.default, Some(1));
    assert_eq!(plan.expected, "s3, filesystem, in_memory");
}

#[test]
fn enum_rename_and_style() {
    let attrs = vec![config(vec![st("tag", "kind"), st("rename_all", "kebab-case")])];
    let vs = vec![variant("PassThrough", vec![], VariantShape::Unit), variant("Other", vec![config(vec![st("rename", "misc")])], VariantShape::Unit)];
    let plan = plan_config_enum(&attrs, &vs).ok().unwrap();
    assert_eq!(plan.tags, vec!["pass-through".to_string(), "misc".to_string()]);
    assert_eq!(plan.default, None);
}

#[test]
fn enum_refusals() {
    let no_tag = plan_config_enum(&vec![], &vec![variant("A", vec![], VariantShape::Unit)]).err().unwrap();
    assert_eq!(no_tag.at, ConfigSpan::Type);
    assert!(no_tag.message.starts_with("#[derive(ConfigProperties)] on an enum requires #[config(tag = \"...\")]"));
    let attrs = vec![config(vec![st("tag", "t")])];
    let empty = plan_config_enum(&attrs, &vec![]).err().unwrap();
    assert_eq!(empty.message, "#[derive(ConfigProperties)] requires at least one enum variant");
    let dup = plan_config_enum(&attrs, &vec![variant("A", vec![], VariantShape::Unit), variant("B", vec![config(vec![st("rename", "a")])], VariantShape::Unit)]).err().unwrap();
    assert_eq!(dup.at, ConfigSpan::Variant(1));
    assert_eq!(dup.message, "duplicate tag value `a`");
    let shape = plan_config_enum(&attrs, &vec![variant("A", vec![], VariantShape::Tuple(2))]).err().unwrap();
    assert!(shape.message.starts_with("tagged-enum variants must be unit variants or single-field tuple variants"));
    let two = plan_config_enum(
        &attrs,
        &vec![variant("A", vec![config(vec![flag("default")])], VariantShape::Unit), variant("B", vec![config(vec![flag("default")])], VariantShape::Unit)],
    )
    .err()
    .unwrap();
    assert_eq!(two.message, "only one variant may be marked #[config(default)]");
    let style = plan_config_enum(&vec![config(vec![st("tag", "t"), st("rename_all", "camelCase")])], &vec![variant("A", vec![], VariantShape::Unit)]).err().unwrap();
    assert_eq!(style.at, ConfigSpan::TypeAttrs);
}
