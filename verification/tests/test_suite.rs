use r2e_macros::attrs::{Attr, AttrForm, Lit, MetaArg, MetaValue};
use r2e_macros::sig::{FnInput, Pat};
use r2e_macros::test_suite::{
    before_all_kind, case_order, clean_method_attrs, clean_param_attrs, plan_case, check_suite_impl, is_suite_attr, parse_suite, result_inner_is_self,
    suite_attr, suite_ident, type_is_self, validate_suite, BeforeAllKind, SuiteAttr, SuiteMethod,
    SuiteSpan,
};
use r2e_macros::types::{GenArg, Seg, SegArgs, Ty, TyKind};

fn marker(name: &str) -> Attr<()> {
    Attr { ident: Some(name.to_string()), form: AttrForm::Bare, meta: Err(String::new()), values: Err(String::new()), raw: () }
}

fn case_with(args: Vec<MetaArg>) -> Attr<()> {
    Attr { ident: Some("case".to_string()), form: AttrForm::List, meta: Ok(args), values: Err(String::new()), raw: () }
}

fn order(n: &str) -> MetaArg {
    MetaArg { key: "order".to_string(), value: MetaValue::Eq(Lit::Int(n.to_string())), rendered: n.to_string() }
}

fn ty(name: &str) -> Ty {
    Ty { kind: TyKind::Path(vec![Seg { ident: name.to_string(), args: SegArgs::Plain }]), tokens: name.to_string() }
}

fn recv() -> FnInput {
    FnInput::Receiver { reference: true, mutable: false }
}

fn param(name: &str) -> FnInput {
    FnInput::Typed { pat: Pat::Ident(name.to_string()), ty: ty("TestApp"), attrs: vec![] }
}

fn method(name: &str, attrs: Vec<Attr<()>>, inputs: Vec<FnInput>) -> SuiteMethod<()> {
    SuiteMethod { name: name.to_string(), attrs, inputs }
}

#[test]
fn suite_attribute_spellings() {
    assert_eq!(suite_attr(&marker("case")), Some(SuiteAttr::Case));
    assert_eq!(suite_attr(&marker("beforeAll")), Some(SuiteAttr::BeforeAll));
    assert_eq!(suite_attr(&marker("before_each")), Some(SuiteAttr::BeforeEach));
    assert_eq!(suite_attr(&marker("afterEach")), Some(SuiteAttr::AfterEach));
    assert_eq!(suite_attr(&marker("after_all")), Some(SuiteAttr::AfterAll));
    assert_eq!(suite_attr(&marker("test")), None);
    assert!(is_suite_attr(&marker("case")));
    assert!(!is_suite_attr(&marker("ignore")));
}

#[test]
fn case_order_values() {
    assert_eq!(case_order(&vec![marker("case")]), Ok(None));
    assert_eq!(case_order(&vec![case_with(vec![order("3")])]), Ok(Some(3)));
    assert_eq!(case_order(&vec![marker("should_panic")]), Ok(None));
    let unknown = MetaArg { key: "priority".to_string(), value: MetaValue::Eq(Lit::Int("1".to_string())), rendered: "1".to_string() };
    assert_eq!(case_order(&vec![case_with(vec![unknown])]), Err("unknown #[case] argument `priority`".to_string()));
    let multi = MetaArg { key: "a::b".to_string(), value: MetaValue::Bare, rendered: String::new() };
    assert_eq!(case_order(&vec![case_with(vec![multi])]), Err("unknown #[case] argument ``".to_string()));
    let not_int = MetaArg { key: "order".to_string(), value: MetaValue::Eq(Lit::Str("1".to_string())), rendered: "\"1\"".to_string() };
    assert_eq!(case_order(&vec![case_with(vec![not_int])]), Err("expected integer literal".to_string()));
}

#[test]
fn suite_sorts_methods_by_role() {
    let ms = vec![
        method("setup", vec![marker("before_all")], vec![]),
        method("first", vec![case_with(vec![order("1")])], vec![recv()]),
        method("helper", vec![], vec![recv()]),
        method("each", vec![marker("before_each")], vec![recv()]),
        method("second", vec![marker("case")], vec![recv()]),
        method("done", vec![marker("after_all")], vec![recv()]),
    ];
    let plan = parse_suite(&ms).ok().unwrap();
    assert_eq!(plan.before_all, Some(0));
    assert_eq!(plan.before_each, vec![3]);
    assert_eq!(plan.after_all, Some(5));
    assert_eq!(plan.cases.len(), 2);
    assert_eq!((plan.cases[0].method, plan.cases[0].order), (1, Some(1)));
    assert_eq!((plan.cases[1].method, plan.cases[1].order), (4, None));
    assert!(validate_suite(&ms, &plan).is_ok());
}

#[test]
fn one_role_per_method() {
    let ms = vec![method("both", vec![marker("case"), marker("after_each")], vec![recv()])];
    let f = parse_suite(&ms).err().unwrap();
    assert_eq!(f.at, SuiteSpan::Method(0));
    assert!(f.message.starts_with("a test-suite method can have only one of"));
}

#[test]
fn one_before_all() {
    let ms = vec![method("a", vec![marker("before_all")], vec![]), method("b", vec![marker("beforeAll")], vec![])];
    let f = parse_suite(&ms).err().unwrap();
    assert_eq!(f.at, SuiteSpan::Method(1));
    assert_eq!(f.message, "only one #[before_all] method is allowed per test suite");
}

#[test]
fn suite_needs_a_case() {
    let ms = vec![method("each", vec![marker("before_each")], vec![recv()])];
    let plan = parse_suite(&ms).ok().unwrap();
    let f = validate_suite(&ms, &plan).err().unwrap();
    assert_eq!(f.at, SuiteSpan::Impl);
    assert_eq!(f.message, "#[r2e::test_suite] requires at least one #[case] method");
}

#[test]
fn duplicate_case_order() {
    let ms = vec![
        method("alpha", vec![case_with(vec![order("2")])], vec![recv()]),
        method("beta", vec![case_with(vec![order("2")])], vec![recv()]),
    ];
    let plan = parse_suite(&ms).ok().unwrap();
    let f = validate_suite(&ms, &plan).err().unwrap();
    assert_eq!(f.at, SuiteSpan::Method(1));
    assert_eq!(f.message, "duplicate #[case(order = 2)] in this test suite: both `alpha` and `beta` claim it");
}

#[test]
fn cases_take_only_self() {
    let ms = vec![method("c", vec![marker("case")], vec![recv(), param("x")])];
    let plan = parse_suite(&ms).ok().unwrap();
    let f = validate_suite(&ms, &plan).err().unwrap();
    assert_eq!(f.at, SuiteSpan::Param { method: 0, param: 1 });
    assert_eq!(f.message, "#[case] methods must take `&self` or `&mut self` and no other parameters");
    let ms2 = vec![method("c", vec![marker("case")], vec![])];
    let plan2 = parse_suite(&ms2).ok().unwrap();
    let f2 = validate_suite(&ms2, &plan2).err().unwrap();
    assert_eq!(f2.at, SuiteSpan::Method(0));
    assert_eq!(f2.message, "#[case] methods must take `&self` or `&mut self`");
}

#[test]
fn before_all_without_self() {
    let ms = vec![method("setup", vec![marker("before_all")], vec![recv()]), method("c", vec![marker("case")], vec![recv()])];
    let plan = parse_suite(&ms).ok().unwrap();
    let f = validate_suite(&ms, &plan).err().unwrap();
    assert_eq!(f.at, SuiteSpan::Method(0));
    assert!(f.message.starts_with("#[before_all] must be an associated function without `self`"));
}

#[test]
fn before_all_binds_by_name() {
    let tuple = FnInput::Typed { pat: Pat::Tuple(vec![]), ty: ty("TestApp"), attrs: vec![] };
    let ms = vec![method("setup", vec![marker("before_all")], vec![param("app"), tuple]), method("c", vec![marker("case")], vec![recv()])];
    let plan = parse_suite(&ms).ok().unwrap();
    let f = validate_suite(&ms, &plan).err().unwrap();
    assert_eq!(f.at, SuiteSpan::Pattern { method: 0, param: 1 });
    assert_eq!(f.message, "#[before_all] parameters must use identifier patterns");
}

#[test]
fn impl_block_checks() {
    assert_eq!(check_suite_impl(false, false, false, false, true), Ok(()));
    assert_eq!(check_suite_impl(true, false, true, false, true), Err("#[r2e::test_suite] only supports inherent impl blocks".to_string()));
    assert_eq!(check_suite_impl(false, true, true, false, true), Err("#[r2e::test_suite] does not support generic impl blocks yet".to_string()));
    assert_eq!(check_suite_impl(false, false, false, true, true), Err("`with = ...` and `jwt = ...` require `app = <App type>`".to_string()));
    assert_eq!(check_suite_impl(false, false, false, false, false), Err("`with = ...` and `jwt = ...` require `app = <App type>`".to_string()));
    assert_eq!(check_suite_impl(false, false, true, true, false), Ok(()));
}

// ── before_all hook kinds ───────────────────────────────────────────────

fn result_of(inner: Ty, err: Ty) -> Ty {
    let tokens = format!("Result < {} , {} >", inner.tokens, err.tokens);
    Ty {
        kind: TyKind::Path(vec![Seg {
            ident: "Result".to_string(),
            args: SegArgs::Angle(vec![GenArg::Type(inner), GenArg::Type(err)]),
        }]),
        tokens,
    }
}

#[test]
fn self_type_is_recognised_by_name_or_tokens() {
    let suite = ty("UserSuite");
    assert!(type_is_self(&ty("Self"), &suite));
    assert!(type_is_self(&ty("UserSuite"), &suite));
    assert!(!type_is_self(&ty("OtherSuite"), &suite));
}

#[test]
fn result_of_self_is_recognised() {
    let suite = ty("UserSuite");
    assert!(result_inner_is_self(&result_of(ty("Self"), ty("String")), &suite));
    assert!(result_inner_is_self(&result_of(ty("UserSuite"), ty("String")), &suite));
    assert!(!result_inner_is_self(&result_of(ty("u32"), ty("String")), &suite));
    assert!(!result_inner_is_self(&ty("Self"), &suite));
}

#[test]
fn before_all_kind_by_return_type() {
    let suite = ty("UserSuite");
    assert_eq!(before_all_kind(&None, &suite), BeforeAllKind::DefaultAfterHook);
    assert_eq!(before_all_kind(&Some(ty("Self")), &suite), BeforeAllKind::ConstructsSelf);
    assert_eq!(
        before_all_kind(&Some(result_of(ty("Self"), ty("String"))), &suite),
        BeforeAllKind::ConstructsSelfResult
    );
    assert_eq!(before_all_kind(&Some(ty("SuiteOutcome")), &suite), BeforeAllKind::DefaultAfterHook);
}

#[test]
fn suite_ident_is_the_last_segment() {
    let path = Ty {
        kind: TyKind::Path(vec![
            Seg { ident: "suites".to_string(), args: SegArgs::Plain },
            Seg { ident: "UserSuite".to_string(), args: SegArgs::Plain },
        ]),
        tokens: "suites :: UserSuite".to_string(),
    };
    assert_eq!(suite_ident(&path), Ok("UserSuite".to_string()));
    let tuple = Ty { kind: TyKind::Tuple(vec![]), tokens: "()".to_string() };
    assert_eq!(
        suite_ident(&tuple),
        Err("#[r2e::test_suite] requires an impl for a concrete path type".to_string())
    );
}

// ── generated cases and the cleaned impl ────────────────────────────────

#[test]
fn case_plan_keeps_foreign_attributes() {
    let attrs = vec![marker("case"), marker("should_panic"), marker("doc"), marker("beforeEach")];
    let p = plan_case(&attrs, Some(3), true);
    assert_eq!(p.kept_attrs, vec![1, 2]);
    assert!(p.should_panic);
    assert_eq!(p.order, Some(3));
    assert!(p.expect_panic);
    assert!(!p.mark_failed);
    assert!(p.runs_after_all);
}

#[test]
fn unordered_case_plan_takes_no_turn() {
    let p = plan_case(&vec![marker("case")], None, false);
    assert!(p.kept_attrs.is_empty());
    assert!(!p.should_panic && !p.expect_panic && !p.mark_failed && !p.runs_after_all);
    let p = plan_case(&vec![marker("case")], Some(1), false);
    assert!(p.mark_failed && !p.expect_panic);
}

#[test]
fn cleaned_methods_lose_suite_markers() {
    let attrs = vec![marker("case"), marker("ignore"), marker("allow"), marker("should_panic"), marker("after_all")];
    let kept = clean_method_attrs(attrs);
    assert_eq!(kept.len(), 1);
    assert_eq!(kept[0].ident, Some("allow".to_string()));
    let kept = clean_param_attrs(vec![marker("inject"), marker("allow")]);
    assert_eq!(kept.len(), 1);
    assert_eq!(kept[0].ident, Some("allow".to_string()));
}
