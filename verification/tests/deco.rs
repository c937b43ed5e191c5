use r2e_macros::deco::{all_specs_inferable, deco_set, spec_type_of, DecoExpr, DecoPath, SpecSite};
use r2e_macros::types::{Seg, SegArgs};

fn path(segs: &[&str]) -> DecoPath {
    DecoPath { leading_colon: false, segments: segs.iter().map(|s| Seg { ident: s.to_string(), args: SegArgs::Plain }).collect() }
}

fn names(p: &DecoPath, drop_last: bool) -> Vec<String> {
    let n = if drop_last { p.segments.len() - 1 } else { p.segments.len() };
    p.segments[..n].iter().map(|s| s.ident.clone()).collect()
}

fn spec_of(e: &DecoExpr) -> (Vec<String>, bool) {
    let s = spec_type_of(e).ok().unwrap();
    (names(s.path, s.drop_last), s.value_is_right)
}

#[test]
fn spec_types_of_decorator_expressions() {
    assert_eq!(spec_of(&DecoExpr::Path(path(&["MyGuard"]))), (vec!["MyGuard".to_string()], false));
    assert_eq!(spec_of(&DecoExpr::Call { func: Some(path(&["MyGuard"])) }), (vec!["MyGuard".to_string()], false));
    assert_eq!(spec_of(&DecoExpr::Struct(path(&["RolesGuard"]))), (vec!["RolesGuard".to_string()], false));
    assert_eq!(
        spec_of(&DecoExpr::Call { func: Some(path(&["RateLimit", "per_user"])) }),
        (vec!["RateLimit".to_string()], false)
    );
    let chain = DecoExpr::MethodCall {
        receiver: Box::new(DecoExpr::MethodCall { receiver: Box::new(DecoExpr::Call { func: Some(path(&["Cache", "ttl"])) }) }),
    };
    assert_eq!(spec_of(&chain), (vec!["Cache".to_string()], false));
    assert_eq!(spec_of(&DecoExpr::Assign { left: Some(path(&["MyGuard"])) }), (vec!["MyGuard".to_string()], true));
}

#[test]
fn uninferable_spec_types_are_refused() {
    let not_type = "cannot infer the decorator spec type from this expression; name it explicitly: `#[guard(MyGuard = <expr>)]` / `#[intercept(MyInterceptor = <expr>)]`";
    assert_eq!(spec_type_of(&DecoExpr::Call { func: Some(path(&["make_guard"])) }).err().unwrap(), (SpecSite::Expr, not_type.to_string()));
    assert_eq!(spec_type_of(&DecoExpr::Other).err().unwrap().0, SpecSite::Expr);
    assert_eq!(spec_type_of(&DecoExpr::Call { func: None }).err().unwrap().0, SpecSite::Expr);
    assert_eq!(
        spec_type_of(&DecoExpr::Assign { left: None }).err().unwrap(),
        (SpecSite::AssignLeft, "expected a type path left of `=` (e.g. `#[guard(MyGuard = make_guard())]`)".to_string())
    );
    assert!(all_specs_inferable(&vec![DecoExpr::Path(path(&["A"])), DecoExpr::Struct(path(&["B"]))]));
    assert!(!all_specs_inferable(&vec![DecoExpr::Path(path(&["A"])), DecoExpr::Path(path(&["helper"]))]));
}

#[test]
fn decorator_set_names() {
    let none = deco_set("UserController", "Deco", "list", &vec![], &vec![]).ok().unwrap();
    assert!(none.is_none());
    let set = deco_set(
        "UserController",
        "Deco",
        "list",
        &vec![DecoExpr::Path(path(&["Auth"]))],
        &vec![DecoExpr::Path(path(&["Log"])), DecoExpr::Path(path(&["Cache"]))],
    )
    .ok()
    .unwrap()
    .unwrap();
    assert_eq!(set.struct_ident, "__R2eDeco_UserController_list");
    assert_eq!(set.ctor_ident, "__r2e_deco_UserController_list");
    assert_eq!(set.guard_fields, vec!["__g0"]);
    assert_eq!(set.intercept_fields, vec!["__i0", "__i1"]);
    let sched = deco_set("Jobs", "BeanSched", "tick", &vec![], &vec![DecoExpr::Path(path(&["Log"]))]).ok().unwrap().unwrap();
    assert_eq!(sched.ctor_ident, "__r2e_beansched_Jobs_tick");
    let bad = deco_set("C", "Deco", "f", &vec![DecoExpr::Other], &vec![]);
    assert_eq!(bad.err().unwrap().0, SpecSite::Expr);
}
