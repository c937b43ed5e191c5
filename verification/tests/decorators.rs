use r2e_macros::attrs::{Attr, AttrForm, Lit};
use r2e_macros::codegen::decorators::{
    parse_decorators, parse_grpc_decorators, route_handler_plan, DecoFault, DecoReadings, GuardSite,
};
use r2e_macros::codegen::handlers::{HandlerShape, ParamPlan, ValidationTarget};

fn with_values(name: &str, values: Vec<Lit>) -> Attr<()> {
    Attr { ident: Some(name.to_string()), form: AttrForm::List, meta: Err(String::new()), values: Ok(values), raw: () }
}

fn bare(name: &str) -> Attr<()> {
    Attr { ident: Some(name.to_string()), form: AttrForm::Bare, meta: Err(String::new()), values: Err(String::new()), raw: () }
}

fn readings(guards: Vec<&'static str>, intercepts: Vec<&'static str>) -> DecoReadings<&'static str, &'static str, &'static str, String> {
    DecoReadings {
        guards: Ok(guards),
        pre_guards: Ok(vec![]),
        intercepts: Ok(intercepts),
        middleware: Ok(vec![]),
        layers: Ok(vec![]),
        returns_type: Ok(None),
    }
}

#[test]
fn roles_guard_runs_first() {
    let attrs = vec![with_values("roles", vec![Lit::Str("admin".to_string())]), with_values("status", vec![Lit::Int("202".to_string())])];
    let rd = readings(vec!["ApiKeyGuard", "IpGuard"], vec!["Logged"]);
    let d = match parse_decorators(&attrs, &rd) {
        Ok(d) => d,
        Err(_) => panic!("expected decorators"),
    };
    assert_eq!(d.roles, vec!["admin".to_string()]);
    assert_eq!(d.guards, vec![GuardSite::Roles, GuardSite::Expr(0), GuardSite::Expr(1)]);
    assert_eq!(d.status_override, Some(202));
    assert_eq!(d.intercepts, &vec!["Logged"]);
    assert!(d.transactional.is_none());
    let params = vec![ParamPlan { index: 0, managed: false, validation: ValidationTarget::Inner }];
    let p = route_handler_plan(&d, false, 0, &params);
    assert!(p.needs_state && p.guard_inputs);
    assert_eq!(p.shape, HandlerShape::Guarded);
}

#[test]
fn plain_route_keeps_the_direct_shape() {
    let rd = readings(vec![], vec![]);
    let d = match parse_decorators(&vec![bare("doc")], &rd) {
        Ok(d) => d,
        Err(_) => panic!("expected decorators"),
    };
    assert!(d.guards.is_empty() && d.roles.is_empty());
    let skip = vec![ParamPlan { index: 0, managed: false, validation: ValidationTarget::Skip }];
    assert_eq!(route_handler_plan(&d, false, 0, &skip).shape, HandlerShape::Direct);
    assert_eq!(route_handler_plan(&d, false, 1, &skip).shape, HandlerShape::Intercepted);
}

#[test]
fn decorator_refusals_in_plugin_order() {
    let attrs = vec![with_values("roles", vec![Lit::Int("3".to_string())])];
    let mut rd = readings(vec![], vec![]);
    rd.guards = Err("bad guard".to_string());
    assert!(matches!(parse_decorators(&attrs, &rd), Err(DecoFault::Attr(m)) if m == "expected string literal"));
    assert!(matches!(parse_decorators(&Vec::<Attr<()>>::new(), &rd), Err(DecoFault::Read(e)) if e == "bad guard"));
}

#[test]
fn grpc_methods_take_only_interceptors() {
    let ok: Result<Vec<&str>, String> = Ok(vec!["Audit"]);
    assert!(matches!(parse_grpc_decorators(&vec![bare("doc")], &ok), Ok(v) if v == &vec!["Audit"]));
    assert!(matches!(
        parse_grpc_decorators(&vec![bare("guard")], &ok),
        Err(DecoFault::Attr(m)) if m == "#[guard] is not supported on #[grpc_routes] methods"
    ));
}
