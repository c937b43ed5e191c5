use r2e_macros::attrs::{Attr, AttrForm, MetaArg, MetaValue};
use r2e_macros::derives::{state_fields, StateField, check_object_params, plan_bundle, plan_decorator_bean, BundleField, DecoFault, DeriveSite, ItemShape};
use r2e_macros::field_resolver::{ClassifyError, FieldInput, FieldKind};
use r2e_macros::types::{GenArg, Seg, SegArgs, Ty, TyKind};

fn marker(name: &str) -> Attr<()> {
    Attr { ident: Some(name.to_string()), form: AttrForm::Bare, meta: Err(String::new()), values: Err(String::new()), raw: () }
}

fn field(attrs: Vec<Attr<()>>) -> FieldInput<(), String> {
    FieldInput {
        attrs,
        inject_name: Ok(None),
        section_prefix: Ok("audit".to_string()),
        config: Ok(("audit.max".to_string(), "AUDIT_MAX".to_string(), "u64".to_string())),
    }
}

fn path(segs: &[&str]) -> Ty {
    Ty { kind: TyKind::Path(segs.iter().map(|s| Seg { ident: s.to_string(), args: SegArgs::Plain }).collect()), tokens: segs.join(" :: ") }
}

fn bundle_field(name: &str, ty: Ty) -> BundleField {
    BundleField { name: name.to_string(), ty }
}

#[test]
fn decorator_bean_splits_resolved_and_plain_fields() {
    let fields = vec![field(vec![marker("inject")]), field(vec![]), field(vec![marker("config")]), field(vec![marker("doc")])];
    let plan = plan_decorator_bean(false, ItemShape::NamedStruct, fields).ok().unwrap();
    assert_eq!(plan.resolved, vec![0, 2]);
    assert_eq!(plan.plain, vec![1, 3]);
    assert!(matches!(plan.kinds[0], FieldKind::Inject));
    assert!(matches!(plan.kinds[1], FieldKind::Config { ref key, .. } if key == "audit.max"));
    assert!(plan.has_config);
}

#[test]
fn decorator_bean_without_config() {
    let plan = plan_decorator_bean(false, ItemShape::NamedStruct, vec![field(vec![marker("inject")])]).ok().unwrap();
    assert!(!plan.has_config);
}

#[test]
fn decorator_bean_refusals() {
    assert!(matches!(
        plan_decorator_bean::<(), String>(true, ItemShape::NamedStruct, vec![]),
        Err(DecoFault::At(DeriveSite::Generics, ref m)) if m == "#[derive(DecoratorBean)] does not support generic types"
    ));
    assert!(matches!(
        plan_decorator_bean::<(), String>(false, ItemShape::TupleStruct, vec![]),
        Err(DecoFault::At(DeriveSite::Name, ref m)) if m.starts_with("#[derive(DecoratorBean)] only works on structs with named fields")
    ));
    assert!(matches!(
        plan_decorator_bean::<(), String>(false, ItemShape::NotStruct, vec![]),
        Err(DecoFault::At(DeriveSite::Name, ref m)) if m == "#[derive(DecoratorBean)] only works on structs — enums and unions are not supported"
    ));
    let mut bad = field(vec![marker("config_section")]);
    bad.section_prefix = Err("expected `prefix`".to_string());
    assert!(matches!(
        plan_decorator_bean(false, ItemShape::NamedStruct, vec![field(vec![]), bad]),
        Err(DecoFault::Field(ClassifyError::Read(ref e))) if e == "expected `prefix`"
    ));
}

#[test]
fn bundle_separates_the_config_field() {
    let fields = vec![
        bundle_field("pool", path(&["PgPool"])),
        bundle_field("config", path(&["r2e", "R2eConfig"])),
        bundle_field("mailer", path(&["Mailer"])),
    ];
    let plan = plan_bundle(false, ItemShape::NamedStruct, &fields).unwrap();
    assert_eq!(plan.config, Some(1));
    assert_eq!(plan.beans, vec![0, 2]);
    let generic_config = Ty {
        kind: TyKind::Path(vec![Seg { ident: "R2eConfig".to_string(), args: SegArgs::Angle(vec![GenArg::Other]) }]),
        tokens: "R2eConfig < 'a >".to_string(),
    };
    let plan = plan_bundle(false, ItemShape::NamedStruct, &vec![bundle_field("c", generic_config)]).unwrap();
    assert_eq!(plan.config, None);
    assert_eq!(plan.beans, vec![0]);
}

#[test]
fn bundle_refuses_a_second_config() {
    let fields = vec![
        bundle_field("base", path(&["R2eConfig"])),
        bundle_field("pool", path(&["PgPool"])),
        bundle_field("extra", path(&["config", "R2eConfig"])),
    ];
    assert_eq!(
        plan_bundle(false, ItemShape::NamedStruct, &fields),
        Err((DeriveSite::Field(2), "a `ProvideBundle` may carry at most one `R2eConfig` field — `base` already claims it. The config field becomes `override_config(..)`, and a second one would silently discard the first".to_string()))
    );
}

#[test]
fn bundle_shape_refusals() {
    let none: Vec<BundleField> = vec![];
    assert_eq!(plan_bundle(true, ItemShape::NamedStruct, &none).unwrap_err().0, DeriveSite::Generics);
    assert_eq!(plan_bundle(false, ItemShape::TupleStruct, &none).unwrap_err().0, DeriveSite::Fields);
    assert_eq!(
        plan_bundle(false, ItemShape::UnitStruct, &none),
        Err((DeriveSite::Name, "#[derive(ProvideBundle)] on a unit struct provides nothing — drop the derive".to_string()))
    );
    assert_eq!(
        plan_bundle(false, ItemShape::NotStruct, &none),
        Err((DeriveSite::Name, "#[derive(ProvideBundle)] is only valid on structs".to_string()))
    );
}

#[test]
fn object_params_need_named_fields() {
    assert_eq!(check_object_params(ItemShape::NamedStruct), Ok(()));
    let refusal = Err((DeriveSite::Name, "ObjectParams can only be derived for structs with named fields".to_string()));
    assert_eq!(check_object_params(ItemShape::TupleStruct), refusal);
    assert_eq!(check_object_params(ItemShape::NotStruct), refusal);
}

fn skip_attr(name: &str, q: &str) -> Attr<()> {
    Attr {
        ident: Some(name.to_string()),
        form: AttrForm::List,
        meta: Ok(vec![MetaArg { key: q.to_string(), value: MetaValue::Bare, rendered: String::new() }]),
        values: Err(String::new()),
        raw: (),
    }
}

fn state_field(tokens: &str, attrs: Vec<Attr<()>>) -> StateField<()> {
    StateField { ty: Ty { kind: TyKind::Other, tokens: tokens.to_string() }, attrs }
}

#[test]
fn state_struct_fields_are_exposed_once_per_type() {
    let fields = vec![
        state_field("Arc < Pool >", vec![]),
        state_field("Config", vec![skip_attr("test_state", "skip")]),
        state_field("Arc<Pool>", vec![]),
        state_field("Mailer", vec![skip_attr("test_state", "skip_from_ref")]),
        state_field("Mailer", vec![skip_attr("other", "skip")]),
        state_field("Cache", vec![skip_attr("test_state", "keep")]),
    ];
    assert_eq!(state_fields(&fields, "test_state"), vec![0, 4, 5]);
}
