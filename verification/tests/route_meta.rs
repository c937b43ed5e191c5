use r2e_macros::route_meta::{auth_flag, body_info, detect_body_required, handler_param_types, resolve_response_type, response_info, AuthFlag, BodyExtractor};
use r2e_macros::sig::{FnInput, Pat};
use r2e_macros::types::{GenArg, Seg, SegArgs, Ty, TyKind};

fn ty(name: &str) -> Ty {
    Ty { kind: TyKind::Path(vec![Seg { ident: name.to_string(), args: SegArgs::Plain }]), tokens: name.to_string() }
}

fn wrap(outer: &str, inner: Ty) -> Ty {
    let tokens = format!("{outer} < {} >", inner.tokens);
    Ty { kind: TyKind::Path(vec![Seg { ident: outer.to_string(), args: SegArgs::Angle(vec![GenArg::Type(inner)]) }]), tokens }
}

fn param(t: Ty) -> FnInput {
    FnInput::Typed { pat: Pat::Ident("x".to_string()), ty: t, attrs: vec![] }
}

fn receiver() -> FnInput {
    FnInput::Receiver { reference: true, mutable: false }
}

#[test]
fn security_flag() {
    assert_eq!(auth_flag(true, true, true, false), AuthFlag::Guards(false));
    assert_eq!(auth_flag(false, true, false, false), AuthFlag::Secured { roles: true, identity: false, guards: false });
}

#[test]
fn body_requirement() {
    assert!(detect_body_required(&vec![receiver(), param(wrap("Json", ty("User")))]));
    assert!(!detect_body_required(&vec![receiver(), param(wrap("Option", wrap("Json", ty("User"))))]));
    assert!(detect_body_required(&vec![receiver(), param(ty("u32"))]));
}

#[test]
fn response_types() {
    let json_user = wrap("Json", ty("User"));
    assert_eq!(resolve_response_type(None, Some(&json_user)).unwrap().tokens, "User");
    let result = wrap("Result", wrap("Json", ty("Order")));
    assert_eq!(resolve_response_type(None, Some(&result)).unwrap().tokens, "Order");
    assert!(resolve_response_type(None, Some(&ty("String"))).is_none());
    assert!(resolve_response_type(None, Some(&ty("StatusCode"))).is_none());
    assert!(resolve_response_type(None, None).is_none());
    let over = ty("Page");
    assert_eq!(resolve_response_type(Some(&over), Some(&ty("String"))).unwrap().tokens, "Page");
    let (name, t) = response_info(None, Some(&json_user)).unwrap();
    assert_eq!(name, "User");
    assert_eq!(t.tokens, "User");
}

#[test]
fn request_bodies() {
    let inputs = vec![receiver(), param(ty("HeaderMap")), param(wrap("Json", ty("NewUser")))];
    match body_info(&inputs) {
        Some(BodyExtractor::Json { name, ty }) => {
            assert_eq!(name, "NewUser");
            assert_eq!(ty.tokens, "NewUser");
        }
        _ => panic!("expected a JSON body"),
    }
    let form = vec![param(wrap("TypedMultipart", ty("Upload")))];
    assert!(matches!(body_info(&form), Some(BodyExtractor::TypedMultipart { name, .. }) if name == "Upload"));
    assert!(matches!(body_info(&vec![param(ty("Multipart"))]), Some(BodyExtractor::RawMultipart)));
    assert!(body_info(&vec![param(ty("u8"))]).is_none());
}

#[test]
fn probed_parameter_types() {
    let inputs = vec![receiver(), param(wrap("Query", ty("Filter"))), param(wrap("Path", ty("u64"))), param(ty("Json"))];
    let probes = handler_param_types(&inputs);
    assert_eq!(probes.iter().map(|t| t.tokens.as_str()).collect::<Vec<_>>(), vec!["Filter", "u64", "Json"]);
}
