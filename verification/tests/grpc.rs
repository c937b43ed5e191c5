use r2e_macros::attrs::{Attr, AttrForm, Lit, MetaArg, MetaValue};
use r2e_macros::grpc::{
    find_identity_param, plan_grpc_routes, strip_grpc_attrs, strip_identity_attrs, GrpcFault, GrpcImplInput,
    GrpcMethodInput, GrpcParam, GrpcSite,
};
use r2e_macros::types::{GenArg, Seg, SegArgs, Ty, TyKind};

fn ty(name: &str) -> Ty {
    Ty { kind: TyKind::Path(vec![Seg { ident: name.to_string(), args: SegArgs::Plain }]), tokens: name.to_string() }
}

fn option_of(inner: &str) -> Ty {
    Ty {
        kind: TyKind::Path(vec![Seg { ident: "Option".to_string(), args: SegArgs::Angle(vec![GenArg::Type(ty(inner))]) }]),
        tokens: format!("Option < {inner} >"),
    }
}

fn bare(name: &str) -> Attr<()> {
    Attr { ident: Some(name.to_string()), form: AttrForm::Bare, meta: Err(String::new()), values: Err(String::new()), raw: () }
}

fn inject_identity() -> Attr<()> {
    Attr {
        ident: Some("inject".to_string()),
        form: AttrForm::List,
        meta: Ok(vec![MetaArg { key: "identity".to_string(), value: MetaValue::Bare, rendered: String::new() }]),
        values: Ok(vec![Lit::Other("identity".to_string())]),
        raw: (),
    }
}

fn roles(rs: &[&str]) -> Attr<()> {
    Attr {
        ident: Some("roles".to_string()),
        form: AttrForm::List,
        meta: Err("expected identifier".to_string()),
        values: Ok(rs.iter().map(|r| Lit::Str(r.to_string())).collect()),
        raw: (),
    }
}

fn typed(t: Ty, attrs: Vec<Attr<()>>) -> GrpcParam<()> {
    GrpcParam::Typed { ty: t, attrs }
}

fn method(name: &str, is_async: bool, params: Vec<GrpcParam<()>>, attrs: Vec<Attr<()>>) -> GrpcMethodInput<(), u8, String> {
    GrpcMethodInput { ident: name.to_string(), is_async, params, attrs, guards: Ok(vec![]), intercepts: Ok(vec![]) }
}

fn service(methods: Vec<GrpcMethodInput<(), u8, String>>) -> GrpcImplInput<(), u8, String> {
    GrpcImplInput { self_ty: ty("UserGrpcService"), intercepts: Ok(vec![9]), methods }
}

#[test]
fn handlers_and_helpers_are_told_apart() {
    let imp = service(vec![
        method("get_user", true, vec![GrpcParam::Receiver, typed(ty("Request"), vec![])], vec![roles(&["admin", "ops"])]),
        method("helper", false, vec![GrpcParam::Receiver], vec![]),
        method("build", true, vec![typed(ty("Config"), vec![])], vec![]),
        method("list", true, vec![GrpcParam::Receiver, typed(option_of("AuthUser"), vec![inject_identity()]), typed(ty("Request"), vec![])], vec![]),
    ]);
    let plan = plan_grpc_routes(&imp).ok().unwrap();
    assert_eq!(plan.service_name, "UserGrpcService");
    assert_eq!(plan.intercepts, &vec![9u8]);
    assert_eq!(plan.handlers.len(), 2);
    assert_eq!(plan.handlers[0].method, 0);
    assert_eq!(plan.handlers[0].roles, vec!["admin".to_string(), "ops".to_string()]);
    assert!(plan.handlers[0].identity.is_none());
    assert_eq!(plan.handlers[1].method, 3);
    let id = plan.handlers[1].identity.as_ref().unwrap();
    assert_eq!(id.index, 0);
    assert_eq!(id.ty.tokens, "AuthUser");
    assert!(id.optional);
    assert_eq!(plan.helpers, vec![1, 2]);
}

#[test]
fn identity_index_counts_typed_parameters() {
    let ps = vec![GrpcParam::Receiver, typed(ty("Request"), vec![]), typed(ty("AuthUser"), vec![bare("identity")])];
    let id = find_identity_param(&ps).unwrap().unwrap();
    assert_eq!(id.index, 1);
    assert!(!id.optional);
    assert_eq!(id.ty.tokens, "AuthUser");
}

#[test]
fn two_identity_params_are_refused() {
    let imp = service(vec![method(
        "get",
        true,
        vec![GrpcParam::Receiver, typed(ty("A"), vec![inject_identity()]), typed(ty("B"), vec![bare("identity")])],
        vec![],
    )]);
    assert!(matches!(
        plan_grpc_routes(&imp),
        Err(GrpcFault::At(GrpcSite::Param(0, 2), ref m)) if m == "only one #[inject(identity)] parameter is allowed per gRPC handler"
    ));
}

#[test]
fn self_type_must_be_a_path() {
    let mut imp = service(vec![]);
    imp.self_ty = Ty { kind: TyKind::Other, tokens: "[u8]".to_string() };
    assert!(matches!(plan_grpc_routes(&imp), Err(GrpcFault::At(GrpcSite::SelfTy, ref m)) if m == "expected a type path"));
}

#[test]
fn bad_roles_and_readings_are_reported() {
    let mut bad_roles = roles(&[]);
    bad_roles.values = Ok(vec![Lit::Int("1".to_string())]);
    let imp = service(vec![method("get", true, vec![GrpcParam::Receiver], vec![bad_roles])]);
    assert!(matches!(plan_grpc_routes(&imp), Err(GrpcFault::Roles(0, ref m)) if m == "expected string literal"));
    let mut m = method("get", true, vec![GrpcParam::Receiver], vec![]);
    m.intercepts = Err("expected expression".to_string());
    let imp = service(vec![m]);
    assert!(matches!(plan_grpc_routes(&imp), Err(GrpcFault::Read(e)) if e == "expected expression"));
}

#[test]
fn grpc_attributes_are_stripped() {
    let kept = strip_grpc_attrs(vec![roles(&["a"]), bare("doc"), bare("guard"), bare("intercept"), bare("allow")]);
    assert_eq!(kept.iter().map(|a| a.ident.clone().unwrap()).collect::<Vec<_>>(), vec!["doc", "allow"]);
    let kept = strip_identity_attrs(vec![inject_identity(), bare("inject"), bare("identity"), bare("doc")]);
    assert_eq!(kept.iter().map(|a| a.ident.clone().unwrap()).collect::<Vec<_>>(), vec!["inject", "doc"]);
}
