use r2e_macros::codegen::ws::{plan_ws_handler, GuardIdentity, IdentityParam, WsArg, WsInvocation, WsParam};
use r2e_macros::codegen::handlers::{
    collect_pat_idents, extract_route_path_param_names, handler_plan, has_interceptors,
    infer_path_param_symbols, path_extractor_info, plan_params, HandlerShape, ValidationTarget,
};
use r2e_macros::sig::{FnInput, Pat, Sig};
use r2e_macros::types::{GenArg, Seg, SegArgs, Ty, TyKind};

fn ty(name: &str, args: Vec<Ty>) -> Ty {
    let a = if args.is_empty() { SegArgs::Plain } else { SegArgs::Angle(args.into_iter().map(GenArg::Type).collect()) };
    Ty { kind: TyKind::Path(vec![Seg { ident: name.to_string(), args: a }]), tokens: name.to_string() }
}

fn tuple(elems: Vec<Ty>) -> Ty {
    Ty { kind: TyKind::Tuple(elems), tokens: "(..)".to_string() }
}

fn typed(pat: Pat, t: Ty) -> FnInput {
    FnInput::Typed { pat, ty: t, attrs: vec![] }
}

fn id(n: &str) -> Pat {
    Pat::Ident(n.to_string())
}

fn sig(inputs: Vec<FnInput>) -> Sig {
    Sig { ident: "handler".to_string(), is_async: true, inputs }
}

#[test]
fn route_param_names() {
    assert_eq!(extract_route_path_param_names("/users/{id}/posts/{post_id}"), vec!["id".to_string(), "post_id".to_string()]);
    assert_eq!(extract_route_path_param_names("/files/{*rest}"), vec!["rest".to_string()]);
    assert_eq!(extract_route_path_param_names("/plain"), Vec::<String>::new());
}

#[test]
fn pattern_idents() {
    let mut out = Vec::new();
    collect_pat_idents(&Pat::TupleStruct(vec![Pat::Tuple(vec![id("a"), id("_b"), id("_")]), Pat::Other]), &mut out);
    assert_eq!(out, vec!["a".to_string(), "b".to_string()]);
}

#[test]
fn path_extractor() {
    let s = sig(vec![
        FnInput::Receiver { reference: true, mutable: false },
        typed(id("q"), ty("Query", vec![ty("Filter", vec![])])),
        typed(Pat::TupleStruct(vec![Pat::Tuple(vec![id("org"), id("user")])]), ty("Path", vec![tuple(vec![ty("String", vec![]), ty("u64", vec![])])])),
    ]);
    let (names, types) = path_extractor_info(&s).unwrap();
    assert_eq!(names, vec!["org".to_string(), "user".to_string()]);
    assert_eq!(types.len(), 2);
    assert_eq!(types[1].tokens, "u64");
    assert!(path_extractor_info(&sig(vec![])).is_none());
}

#[test]
fn path_symbols() {
    let s = sig(vec![typed(Pat::TupleStruct(vec![id("id")]), ty("Path", vec![ty("u64", vec![])]))]);
    let syms = infer_path_param_symbols("/users/{id}/posts/{post_id}/{id}", &s);
    let names: Vec<_> = syms.iter().map(|p| p.name.clone()).collect();
    assert_eq!(names, vec!["id".to_string(), "post_id".to_string()]);
    assert_eq!(syms[0].ty.unwrap().tokens, "u64");
    assert!(syms[1].ty.is_none());
    let empty = sig(vec![]);
    let kw = infer_path_param_symbols("/{type}/{ok}", &empty);
    let kw_names: Vec<_> = kw.iter().map(|p| p.name.clone()).collect();
    assert_eq!(kw_names, vec!["ok".to_string()]);
}

#[test]
fn interceptors() {
    let none: Vec<u8> = vec![];
    assert!(!has_interceptors(&none, &none));
    assert!(has_interceptors(&vec![1u8], &none));
    assert!(has_interceptors(&none, &vec![2u8]));
}

#[test]
fn parameter_plans() {
    let s = sig(vec![
        FnInput::Receiver { reference: true, mutable: false },
        typed(id("body"), ty("Json", vec![ty("NewUser", vec![])])),
        typed(id("tx"), ty("Tx", vec![])),
        typed(id("who"), ty("AuthUser", vec![])),
        typed(id("p"), ty("Params", vec![])),
    ]);
    let plans = plan_params(&s, &vec![1], Some(2));
    assert_eq!(plans.len(), 4);
    assert_eq!((plans[0].index, plans[0].managed, plans[0].validation), (0, false, ValidationTarget::Inner));
    assert_eq!((plans[1].managed, plans[1].validation), (true, ValidationTarget::Skip));
    assert_eq!((plans[2].managed, plans[2].validation), (false, ValidationTarget::Skip));
    assert_eq!(plans[3].validation, ValidationTarget::Whole);
}

#[test]
fn handler_shapes() {
    assert_eq!(handler_plan(false, false, false, false).shape, HandlerShape::Direct);
    assert_eq!(handler_plan(false, false, false, true).shape, HandlerShape::Validated);
    assert_eq!(handler_plan(false, false, true, false).shape, HandlerShape::Intercepted);
    assert_eq!(handler_plan(false, false, true, true).shape, HandlerShape::InterceptedValidated);
    let guarded = handler_plan(true, false, true, false);
    assert_eq!(guarded.shape, HandlerShape::Guarded);
    assert!(guarded.needs_state && guarded.guard_inputs);
    let managed = handler_plan(false, true, false, false);
    assert_eq!(managed.shape, HandlerShape::Guarded);
    assert!(managed.needs_state && !managed.guard_inputs);
    assert!(!handler_plan(false, false, false, true).needs_state);
}

// ── WebSocket handlers ──────────────────────────────────────────────────

#[test]
fn ws_handler_forwards_all_but_the_socket() {
    let s = sig(vec![
        FnInput::Receiver { reference: true, mutable: false },
        typed(id("room"), ty("Path", vec![ty("String", vec![])])),
        typed(id("stream"), ty("WsStream", vec![])),
        typed(id("user"), ty("AuthUser", vec![])),
    ]);
    let ws = Some(WsParam { index: 1, is_ws_stream: true });
    let user = Some(IdentityParam { index: 2, optional: false });
    let p = plan_ws_handler(&s, ws, user, true);
    assert_eq!(p.forwarded, vec![0, 2]);
    assert_eq!(p.call_args, vec![WsArg::Forwarded(0), WsArg::Stream, WsArg::Forwarded(2)]);
    assert_eq!(p.invocation, WsInvocation::WithSocket { stream: true });
    assert!(p.awaits && p.needs_state && p.guard_inputs);
    assert_eq!(p.preflight, Some(GuardIdentity::Param(IdentityParam { index: 2, optional: false })));

    let p = plan_ws_handler(&s, None, None, false);
    assert_eq!(p.forwarded, vec![0, 1, 2]);
    assert_eq!(p.invocation, WsInvocation::ReturnsHandler);
    assert!(!p.needs_state && !p.guard_inputs);
    assert_eq!(p.preflight, None);
    let raw = plan_ws_handler(&s, Some(WsParam { index: 1, is_ws_stream: false }), None, true);
    assert_eq!(raw.call_args[1], WsArg::Socket);
    assert_eq!(raw.preflight, Some(GuardIdentity::Struct));
}
