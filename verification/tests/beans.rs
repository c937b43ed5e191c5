use r2e_macros::attrs::{Attr, AttrForm, Lit, MetaArg, MetaValue};
use r2e_macros::field_resolver::{classify_fields, unannotated_message, ClassifyError, ClassifyOpts, FieldInput, FieldKind};
use r2e_macros::service::{check_service_attrs, reads_config, service_build, ServiceBuild, ServiceShape};

fn marker(name: &str) -> Attr<()> {
    Attr { ident: Some(name.to_string()), form: AttrForm::Bare, meta: Err(String::new()), values: Err(String::new()), raw: () }
}

fn field(attrs: Vec<Attr<()>>) -> FieldInput<(), String> {
    FieldInput {
        attrs,
        inject_name: Ok(None),
        section_prefix: Ok("app".to_string()),
        config: Ok(("app.key".to_string(), "APP_KEY".to_string(), "String".to_string())),
    }
}

const BEAN: ClassifyOpts = ClassifyOpts { allow_named_inject: true, allow_default: true, context_label: "bean" };
const SERVICE: ClassifyOpts = ClassifyOpts { allow_named_inject: false, allow_default: false, context_label: "background service" };

#[test]
fn fields_are_classified_by_annotation() {
    let mut named = field(vec![marker("inject")]);
    named.inject_name = Ok(Some("primary".to_string()));
    let fields = vec![field(vec![marker("inject")]), named, field(vec![marker("config")]), field(vec![marker("config_section")]), field(vec![marker("default")])];
    let kinds = match classify_fields(fields, &BEAN) {
        Ok(k) => k,
        Err(_) => panic!("expected every field classified"),
    };
    assert!(matches!(kinds[0], FieldKind::Inject));
    assert!(matches!(kinds[1], FieldKind::InjectNamed { ref name } if name == "primary"));
    assert!(matches!(kinds[2], FieldKind::Config { ref key, ref env_hint, .. } if key == "app.key" && env_hint == "APP_KEY"));
    assert!(matches!(kinds[3], FieldKind::ConfigSection { ref prefix } if prefix == "app"));
    assert!(matches!(kinds[4], FieldKind::Default));
}

#[test]
fn inject_wins_over_other_annotations() {
    let kinds = classify_fields(vec![field(vec![marker("config"), marker("inject")])], &BEAN).ok().unwrap();
    assert!(matches!(kinds[0], FieldKind::Inject));
}

#[test]
fn services_ignore_named_inject_and_refuse_default() {
    let mut named = field(vec![marker("inject")]);
    named.inject_name = Ok(Some("primary".to_string()));
    let kinds = classify_fields(vec![named], &SERVICE).ok().unwrap();
    assert!(matches!(kinds[0], FieldKind::Inject));
    match classify_fields(vec![field(vec![marker("default")])], &SERVICE) {
        Err(ClassifyError::Unannotated { field, message }) => {
            assert_eq!(field, 0);
            assert_eq!(message, unannotated_message(&SERVICE));
        }
        _ => panic!("expected a refusal"),
    }
}

#[test]
fn unannotated_field_message() {
    assert_eq!(
        unannotated_message(&SERVICE),
        "background service field must be annotated with one of:\n\n  #[inject]                           — clone from app state\n  #[config(\"app.key\")]                — resolve from R2eConfig\n  #[config_section(prefix = \"app\")]   — resolve a typed config section"
    );
    let bean = unannotated_message(&BEAN);
    assert!(bean.contains("#[inject(name = \"...\")]"));
    assert!(bean.ends_with("#[default]                          — use `Default::default()`"));
}

#[test]
fn read_errors_stop_classification() {
    let mut bad = field(vec![marker("config")]);
    bad.config = Err("expected string literal".to_string());
    let r = classify_fields(vec![bad, field(vec![])], &BEAN);
    assert!(matches!(r, Err(ClassifyError::Read(ref e)) if e == "expected string literal"));
}

#[test]
fn service_attributes() {
    assert_eq!(check_service_attrs(&Vec::<Attr<()>>::new()), Ok(()));
    let empty = Attr { ident: Some("service".to_string()), form: AttrForm::List, meta: Ok(vec![]), values: Err(String::new()), raw: () };
    assert_eq!(check_service_attrs(&vec![empty]), Ok(()));
    let state = Attr {
        ident: Some("service".to_string()),
        form: AttrForm::List,
        meta: Ok(vec![MetaArg { key: "state".to_string(), value: MetaValue::Eq(Lit::Other("AppState".to_string())), rendered: "AppState".to_string() }]),
        values: Err(String::new()),
        raw: (),
    };
    assert!(check_service_attrs(&vec![state]).err().unwrap().starts_with("`#[service(state = ...)]` was removed"));
    let other = Attr {
        ident: Some("service".to_string()),
        form: AttrForm::List,
        meta: Ok(vec![MetaArg { key: "name".to_string(), value: MetaValue::Bare, rendered: String::new() }]),
        values: Err(String::new()),
        raw: (),
    };
    assert_eq!(check_service_attrs(&vec![other]), Err("unknown attribute in #[service(...)]".to_string()));
}

#[test]
fn service_shapes() {
    assert_eq!(service_build(ServiceShape::NamedStruct), Ok(ServiceBuild::Fields));
    assert_eq!(service_build(ServiceShape::UnitStruct), Ok(ServiceBuild::Unit));
    assert_eq!(service_build(ServiceShape::TupleStruct), Err("#[derive(BackgroundService)] requires named fields or a unit struct".to_string()));
    assert_eq!(service_build(ServiceShape::NotStruct), Err("#[derive(BackgroundService)] only works on structs".to_string()));
}

#[test]
fn services_read_config_when_a_field_does() {
    assert!(!reads_config(&vec![FieldKind::Inject]));
    assert!(reads_config(&vec![FieldKind::Inject, FieldKind::ConfigSection { prefix: "p".to_string() }]));
}
