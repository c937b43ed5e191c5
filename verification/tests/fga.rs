use r2e_macros::fga::{collect_fga_path_refs, first_anonymous, method_fga_refs, route_has_param, unknown_param_message, GuardExpr};

fn path(segs: &[&str]) -> GuardExpr {
    GuardExpr::Path(segs.iter().map(|s| s.to_string()).collect())
}

fn call(method: &str, receiver: GuardExpr, args: Vec<GuardExpr>) -> GuardExpr {
    GuardExpr::MethodCall { method: method.to_string(), receiver: Box::new(receiver), args }
}

fn s(v: &str) -> GuardExpr {
    GuardExpr::Str(v.to_string())
}

fn fga_chain(param: &str) -> GuardExpr {
    let base = GuardExpr::Call { func: Box::new(path(&["FgaCheck", "relation"])) };
    call("from_path", call("on", base, vec![s("document")]), vec![s(param)])
}

#[test]
fn literal_from_path_references_are_collected() {
    assert_eq!(collect_fga_path_refs(&fga_chain("doc_id")), vec!["doc_id"]);
    assert_eq!(collect_fga_path_refs(&GuardExpr::Wrapped(Box::new(fga_chain("id")))), vec!["id"]);
    let other = call("from_path", GuardExpr::Call { func: Box::new(path(&["Other", "new"])) }, vec![s("id")]);
    assert!(collect_fga_path_refs(&other).is_empty());
    let dynamic = call("from_path", GuardExpr::Call { func: Box::new(path(&["FgaCheck", "relation"])) }, vec![path(&["ID"])]);
    assert!(collect_fga_path_refs(&dynamic).is_empty());
    let nested = call("from_path", fga_chain("outer_inner"), vec![s("outer")]);
    assert_eq!(collect_fga_path_refs(&nested), vec!["outer", "outer_inner"]);
    assert_eq!(method_fga_refs(&vec![fga_chain("a")], &vec![GuardExpr::Other, fga_chain("b")]), vec!["a", "b"]);
}

#[test]
fn route_placeholders() {
    assert!(route_has_param(None, "/docs/{doc_id}", "doc_id"));
    assert!(route_has_param(None, "/files/{*path}", "path"));
    assert!(route_has_param(None, "/items/{id:[0-9]+}", "id"));
    assert!(!route_has_param(None, "/docs/{doc}", "doc_id"));
    assert!(!route_has_param(None, "/docs/{doc_idx}", "doc_id"));
    assert!(route_has_param(Some("/orgs/{org_id}"), "/docs", "org_id"));
    assert!(!route_has_param(Some("/orgs"), "/docs", "org_id"));
}

#[test]
fn unknown_parameter_message() {
    let m = unknown_param_message("doc_id", "/docs/{id}", &vec!["id".to_string()]);
    assert_eq!(
        m,
        "FGA guard references path parameter `doc_id`, but no `{{doc_id}}` placeholder appears in the route path `/docs/{{id}}` (this method's params: `{{id}}`) or the controller's `path = \"...\"` prefix.\nhelp: check the spelling of `from_path(\"doc_id\")` against the route's `{{...}}` placeholders"
    );
    let none = unknown_param_message("x", "/", &vec![]);
    assert!(none.contains("(this method's params: none)"));
    let two = unknown_param_message("x", "/{a}/{b}", &vec!["a".to_string(), "b".to_string()]);
    assert!(two.contains("(this method's params: `{{a}}`, `{{b}}`)"));
}

#[test]
fn first_anonymous_method() {
    assert_eq!(first_anonymous(&vec![false, true, true]), Some(1));
    assert_eq!(first_anonymous(&vec![false, false]), None);
}
