use r2e_macros::controller::plan_meta_module;
use r2e_macros::controller::plan_state_constraint;
use r2e_macros::attrs::{Attr, AttrForm, Lit, MetaArg, MetaValue};
use r2e_macros::controller::{
    strip_controller_field_attrs, parse_controller_args, parse_controller_fields, request_scoped_field_names, request_scoped_fields, ControllerFault, ControllerField,
    ControllerSite, FieldScope, StructFields,
};
use r2e_macros::types::{GenArg, Seg, SegArgs, Ty, TyKind};

fn ty(name: &str) -> Ty {
    Ty { kind: TyKind::Path(vec![Seg { ident: name.to_string(), args: SegArgs::Plain }]), tokens: name.to_string() }
}

fn option_of(inner: &str) -> Ty {
    Ty {
        kind: TyKind::Path(vec![Seg { ident: "Option".to_string(), args: SegArgs::Angle(vec![GenArg::Type(ty(inner))]) }]),
        tokens: format!("Option < {inner} >"),
    }
}

fn bare(name: &str) -> Attr<()> {
    Attr { ident: Some(name.to_string()), form: AttrForm::Bare, meta: Err(String::new()), values: Err(String::new()), raw: () }
}

fn qualified(name: &str, q: &str) -> Attr<()> {
    Attr {
        ident: Some(name.to_string()),
        form: AttrForm::List,
        meta: Ok(vec![MetaArg { key: q.to_string(), value: MetaValue::Bare, rendered: String::new() }]),
        values: Ok(vec![Lit::Other(q.to_string())]),
        raw: (),
    }
}

fn field(name: &str, t: Ty, attrs: Vec<Attr<()>>) -> ControllerField<(), String> {
    ControllerField {
        name: Some(name.to_string()),
        ty: t,
        attrs,
        config: Ok(("app.name".to_string(), "String".to_string())),
        section_prefix: Ok("app.mail".to_string()),
    }
}

fn site_of(r: Result<Vec<FieldScope<'_>>, ControllerFault<'_, String>>) -> (ControllerSite, String) {
    match r {
        Err(ControllerFault::At(s, m)) => (s, m),
        Err(ControllerFault::Read(e)) => panic!("unexpected read error {e}"),
        Ok(_) => panic!("expected a refusal"),
    }
}

#[test]
fn fields_get_their_scopes() {
    let fields = StructFields::Named(vec![
        field("service", ty("UserService"), vec![bare("inject")]),
        field("user", option_of("AuthUser"), vec![qualified("inject", "identity")]),
        field("headers", ty("HeaderMap"), vec![qualified("inject", "request")]),
        field("name", option_of("String"), vec![bare("config")]),
        field("mail", ty("MailConfig"), vec![bare("config_section")]),
    ]);
    let scopes = parse_controller_fields(&fields).ok().unwrap();
    assert!(matches!(scopes[0], FieldScope::App));
    assert!(matches!(scopes[1], FieldScope::Identity { inner, optional: true } if inner.tokens == "AuthUser"));
    assert!(matches!(scopes[2], FieldScope::Request));
    assert!(matches!(scopes[3], FieldScope::Config { key, ty_name, is_option: true } if key == "app.name" && ty_name == "String"));
    assert!(matches!(scopes[4], FieldScope::Section { prefix } if prefix == "app.mail"));
    assert_eq!(request_scoped_fields(&scopes), vec![1, 2]);
}

#[test]
fn unit_controller_has_no_fields() {
    assert!(parse_controller_fields(&StructFields::<(), String>::Unit).ok().unwrap().is_empty());
}

#[test]
fn tuple_controller_is_refused() {
    let (site, m) = site_of(parse_controller_fields(&StructFields::<(), String>::Unnamed));
    assert_eq!(site, ControllerSite::Name);
    assert!(m.starts_with("Controller cannot have tuple fields"));
}

#[test]
fn removed_identity_attribute() {
    let fields = StructFields::Named(vec![field("user", ty("AuthUser"), vec![bare("identity")])]);
    assert_eq!(
        site_of(parse_controller_fields(&fields)),
        (ControllerSite::FieldAttr(0), "`#[identity]` was removed; use `#[inject(identity)]`".to_string())
    );
}

#[test]
fn unknown_qualifier_is_refused() {
    let fields = StructFields::Named(vec![
        field("a", ty("A"), vec![bare("inject")]),
        field("b", ty("B"), vec![qualified("inject", "session")]),
    ]);
    let (site, m) = site_of(parse_controller_fields(&fields));
    assert_eq!(site, ControllerSite::FieldAttr(1));
    assert!(m.starts_with("invalid qualifier in #[inject(...)]: only `identity` and `request` are supported"));
}

#[test]
fn unannotated_field_is_refused() {
    let fields = StructFields::Named(vec![field("a", ty("A"), vec![])]);
    let (site, m) = site_of(parse_controller_fields(&fields));
    assert_eq!(site, ControllerSite::Field(0));
    assert!(m.starts_with("every controller field must be annotated with one of:"));
}

#[test]
fn two_identities_are_refused() {
    let fields = StructFields::Named(vec![
        field("a", ty("A"), vec![qualified("inject", "identity")]),
        field("b", ty("B"), vec![qualified("inject", "identity")]),
    ]);
    let (site, m) = site_of(parse_controller_fields(&fields));
    assert_eq!(site, ControllerSite::Name);
    assert!(m.starts_with("controller can have at most one #[inject(identity)] struct field"));
}

#[test]
fn config_read_error_is_passed_on() {
    let mut f = field("a", ty("u16"), vec![bare("config")]);
    f.config = Err("expected string literal".to_string());
    let fields = StructFields::Named(vec![f]);
    assert!(matches!(parse_controller_fields(&fields), Err(ControllerFault::Read(e)) if e == "expected string literal"));
}

#[test]
fn controller_arguments() {
    let path = |v: &str| MetaArg { key: "path".to_string(), value: MetaValue::Eq(Lit::Str(v.to_string())), rendered: String::new() };
    assert_eq!(parse_controller_args(&Ok(vec![])), Ok(None));
    assert_eq!(parse_controller_args(&Ok(vec![path("/users")])), Ok(Some("/users".to_string())));
    assert_eq!(parse_controller_args(&Ok(vec![path("/a"), path("/b")])), Ok(Some("/b".to_string())));
    let state = MetaArg { key: "state".to_string(), value: MetaValue::Eq(Lit::Other("AppState".to_string())), rendered: String::new() };
    assert!(parse_controller_args(&Ok(vec![state])).unwrap_err().starts_with("`state = ...` was removed"));
    let other = MetaArg { key: "prefix".to_string(), value: MetaValue::Bare, rendered: String::new() };
    assert_eq!(
        parse_controller_args(&Ok(vec![other])),
        Err("unknown attribute in #[controller(...)]: expected `path`".to_string())
    );
    let not_str = MetaArg { key: "path".to_string(), value: MetaValue::Eq(Lit::Int("1".to_string())), rendered: String::new() };
    assert_eq!(parse_controller_args(&Ok(vec![not_str])), Err("expected string literal".to_string()));
}

#[test]
fn controller_field_annotations_are_stripped() {
    let kept = strip_controller_field_attrs(vec![bare("inject"), bare("doc"), bare("identity"), bare("config"), bare("config_section"), bare("serde")]);
    assert_eq!(kept.iter().map(|a| a.ident.clone().unwrap()).collect::<Vec<_>>(), vec!["doc", "serde"]);
}

#[test]
fn request_scoped_names_put_identity_first() {
    let id_ty = ty("AuthUser");
    let scopes = vec![FieldScope::Request, FieldScope::App, FieldScope::Identity { inner: &id_ty, optional: false }];
    let names = vec!["headers".to_string(), "service".to_string(), "user".to_string()];
    assert_eq!(request_scoped_field_names(&names, &scopes), vec!["user".to_string(), "headers".to_string()]);
}

#[test]
fn state_constraint_plan() {
    let id_ty = ty("AuthUser");
    let key = "app.name".to_string();
    let tn = "String".to_string();
    let scopes = vec![
        FieldScope::App,
        FieldScope::Identity { inner: &id_ty, optional: false },
        FieldScope::Request,
        FieldScope::App,
        FieldScope::Config { key: &key, ty_name: &tn, is_option: false },
    ];
    let p = plan_state_constraint(&scopes, false);
    assert_eq!(p.inject, vec![0, 3]);
    assert_eq!(p.extract, vec![1]);
    assert!(p.needs_config);
    assert!(!p.closed);
    let p = plan_state_constraint(&vec![FieldScope::App], true);
    assert!(!p.needs_config && p.closed);
}

#[test]
fn meta_module_plan() {
    let a = ty("AuthUser");
    let b = ty("Session");
    let (k1, t1, k2, t2, pfx) = ("app.name".to_string(), "String".to_string(), "app.port".to_string(), "u16".to_string(), "app.mail".to_string());
    let scopes = vec![
        FieldScope::Identity { inner: &a, optional: true },
        FieldScope::Config { key: &k1, ty_name: &t1, is_option: true },
        FieldScope::Identity { inner: &b, optional: false },
        FieldScope::Config { key: &k2, ty_name: &t2, is_option: false },
        FieldScope::Section { prefix: &pfx },
    ];
    let m = plan_meta_module(&scopes);
    assert!(m.has_struct_identity);
    assert!(!m.identity_required);
    assert_eq!(m.required_keys, vec![(&k2, &t2)]);
    assert_eq!(m.sections, vec![(4, &pfx)]);
    let m = plan_meta_module(&vec![FieldScope::App]);
    assert!(!m.has_struct_identity && !m.identity_required && m.required_keys.is_empty() && m.sections.is_empty());
}
