use r2e_macros::attrs::{Attr, AttrForm, Lit, MetaArg, MetaValue};
use r2e_macros::bean::{
    bean_overflows, bean_type_ident, check_bean_item, method_emissions, parse_bean_args, plan_bean, strip_injection_attrs,
    struct_literal_needs_slot, BeanDep, BeanFault, BeanImpl, BeanItem, BeanItemFault, BeanMethod,
    BeanParam, BeanSite, MethodEmission,
};
use r2e_macros::types::{GenArg, Seg, SegArgs, Ty, TyKind};

fn path_ty(segs: &[&str]) -> Ty {
    Ty {
        kind: TyKind::Path(segs.iter().map(|s| Seg { ident: s.to_string(), args: SegArgs::Plain }).collect()),
        tokens: segs.join(" :: "),
    }
}

fn arc_of(inner: &str) -> Ty {
    Ty {
        kind: TyKind::Path(vec![Seg {
            ident: "Arc".to_string(),
            args: SegArgs::Angle(vec![GenArg::Type(path_ty(&[inner]))]),
        }]),
        tokens: format!("Arc < {inner} >"),
    }
}

fn unit() -> Ty {
    Ty { kind: TyKind::Tuple(vec![]), tokens: "()".to_string() }
}

fn bare(name: &str) -> Attr<()> {
    Attr {
        ident: Some(name.to_string()),
        form: AttrForm::Bare,
        meta: Err(format!("expected attribute arguments in parentheses: #[{name}(...)]")),
        values: Err(format!("expected attribute arguments in parentheses: #[{name}(...)]")),
        raw: (),
    }
}

fn with_args(name: &str, args: Vec<MetaArg>) -> Attr<()> {
    Attr { ident: Some(name.to_string()), form: AttrForm::List, meta: Ok(args), values: Err(String::new()), raw: () }
}

fn s(key: &str, v: &str) -> MetaArg {
    MetaArg { key: key.to_string(), value: MetaValue::Eq(Lit::Str(v.to_string())), rendered: format!("{v:?}") }
}

fn n(key: &str, digits: &str) -> MetaArg {
    MetaArg { key: key.to_string(), value: MetaValue::Eq(Lit::Int(digits.to_string())), rendered: digits.to_string() }
}

fn typed(ty: Ty, names: &[&str]) -> BeanParam<String> {
    BeanParam::Typed {
        ty,
        attr_names: names.iter().map(|n| Some(n.to_string())).collect(),
        inject_name: Ok(None),
        section_prefix: Ok("app.db".to_string()),
        config: Ok(("app.port".to_string(), "APP_PORT".to_string(), "u16".to_string())),
    }
}

fn method(ident: &str, params: Vec<BeanParam<String>>, output: Option<Ty>, attrs: Vec<Attr<()>>) -> BeanMethod<(), u8, String> {
    BeanMethod {
        ident: ident.to_string(),
        is_async: false,
        params,
        output,
        output_result_like: false,
        attrs,
        intercepts: Ok(vec![]),
    }
}

fn ctor(params: Vec<BeanParam<String>>) -> BeanMethod<(), u8, String> {
    method("new", params, Some(path_ty(&["Self"])), vec![])
}

fn bean(methods: Vec<BeanMethod<(), u8, String>>) -> BeanImpl<(), u8, String> {
    BeanImpl { self_ty: path_ty(&["MyService"]), intercepts: Ok(vec![]), methods, lazy: false }
}

fn refusal(r: Result<r2e_macros::bean::BeanPlan<'_, u8>, BeanFault<'_, String>>) -> (BeanSite, String) {
    match r {
        Err(BeanFault::At(site, m)) => (site, m),
        Err(BeanFault::Read(e)) => panic!("unexpected read error {e}"),
        Ok(_) => panic!("expected a refusal"),
    }
}

#[test]
fn constructor_params_become_dependencies() {
    let mut named = typed(path_ty(&["Pool"]), &["inject"]);
    if let BeanParam::Typed { inject_name, .. } = &mut named {
        *inject_name = Ok(Some("primary".to_string()));
    }
    let imp = bean(vec![ctor(vec![
        typed(path_ty(&["UserRepo"]), &[]),
        named,
        typed(path_ty(&["DbConfig"]), &["config_section"]),
        typed(path_ty(&["u16"]), &["config"]),
    ])]);
    let plan = plan_bean(&imp).ok().unwrap();
    assert_eq!(plan.constructor, 0);
    assert!(!plan.is_async);
    assert!(plan.has_config);
    assert!(matches!(plan.deps[0], BeanDep::ByType));
    assert!(matches!(plan.deps[1], BeanDep::Named(n) if n == "primary"));
    assert!(matches!(plan.deps[2], BeanDep::Section(p) if p == "app.db"));
    assert!(matches!(plan.deps[3], BeanDep::Config(k, h, t) if k == "app.port" && h == "APP_PORT" && t == "u16"));
}

#[test]
fn plain_dependencies_read_no_config() {
    let imp = bean(vec![ctor(vec![typed(path_ty(&["UserRepo"]), &["inject"])])]);
    let plan = plan_bean(&imp).ok().unwrap();
    assert!(!plan.has_config);
    assert!(matches!(plan.deps[0], BeanDep::ByType));
}

#[test]
fn constructor_is_the_first_static_method_returning_self() {
    let imp = bean(vec![
        method("helper", vec![], Some(path_ty(&["u32"])), vec![]),
        method("get", vec![BeanParam::Receiver], Some(path_ty(&["Self"])), vec![]),
        method("build", vec![], Some(path_ty(&["crate", "MyService"])), vec![]),
        ctor(vec![]),
    ]);
    assert_eq!(plan_bean(&imp).ok().unwrap().constructor, 2);
}

#[test]
fn missing_constructor_is_refused() {
    let imp = bean(vec![method("helper", vec![], None, vec![])]);
    let (site, m) = refusal(plan_bean(&imp));
    assert_eq!(site, BeanSite::SelfTy);
    assert_eq!(
        m,
        "#[bean] requires a constructor — a static method returning Self:\n\n  #[bean]\n  impl MyService {\n      fn new(dep: OtherService) -> Self {\n          Self { dep }\n      }\n  }"
    );
}

#[test]
fn config_read_error_is_reported() {
    let mut p = typed(path_ty(&["u16"]), &["config"]);
    if let BeanParam::Typed { config, .. } = &mut p {
        *config = Err("expected a string key".to_string());
    }
    let imp = bean(vec![ctor(vec![p])]);
    assert!(matches!(plan_bean(&imp), Err(BeanFault::Read(e)) if e == "expected a string key"));
}

#[test]
fn scheduled_consumer_and_post_construct_methods_are_collected() {
    let mut consumer = method(
        "on_event",
        vec![BeanParam::Receiver, typed(arc_of("UserCreated"), &[])],
        None,
        vec![with_args("consumer", vec![s("bus", "events")])],
    );
    consumer.is_async = true;
    let mut pc = method("init", vec![BeanParam::Receiver], Some(path_ty(&["Result"])), vec![bare("post_construct")]);
    pc.output_result_like = true;
    let imp = bean(vec![
        ctor(vec![]),
        method("tick", vec![BeanParam::Receiver], None, vec![with_args("scheduled", vec![n("every", "30")])]),
        consumer,
        pc,
    ]);
    let plan = plan_bean(&imp).ok().unwrap();
    assert_eq!(plan.scheduled.len(), 1);
    assert_eq!(plan.scheduled[0].method, 1);
    assert_eq!(plan.scheduled[0].config.every_ms, Some(30_000));
    assert_eq!(plan.consumers.len(), 1);
    assert_eq!(plan.consumers[0].method, 2);
    assert_eq!(plan.consumers[0].config.bus_field, "events");
    assert_eq!(plan.consumers[0].event_type.tokens, "UserCreated");
    assert!(!plan.consumers[0].responder);
    assert_eq!(plan.post_construct.len(), 1);
    assert_eq!(plan.post_construct[0].method, 3);
    assert!(plan.post_construct[0].returns_result);
}

#[test]
fn scheduled_with_parameters_is_refused() {
    let imp = bean(vec![
        ctor(vec![]),
        method(
            "tick",
            vec![BeanParam::Receiver, typed(path_ty(&["u32"]), &[])],
            None,
            vec![with_args("scheduled", vec![n("every", "5")])],
        ),
    ]);
    let (site, m) = refusal(plan_bean(&imp));
    assert_eq!(site, BeanSite::Method(1));
    assert_eq!(m, "#[scheduled] methods cannot have parameters other than &self");
}

#[test]
fn scheduled_and_consumer_cannot_combine() {
    let imp = bean(vec![
        ctor(vec![]),
        method(
            "tick",
            vec![BeanParam::Receiver],
            None,
            vec![with_args("scheduled", vec![n("every", "5")]), with_args("consumer", vec![s("bus", "b")])],
        ),
    ]);
    assert_eq!(refusal(plan_bean(&imp)).1, "#[scheduled] and #[consumer] cannot be combined on the same method");
}

#[test]
fn consumer_needs_an_arc_event() {
    let no_event = bean(vec![
        ctor(vec![]),
        method("on", vec![BeanParam::Receiver], None, vec![with_args("consumer", vec![s("bus", "b")])]),
    ]);
    assert_eq!(
        refusal(plan_bean(&no_event)).1,
        "#[consumer] method must have an event parameter typed as Arc<EventType>:\n\n  #[consumer(bus = \"event_bus\")]\n\n  async fn on_event(&self, event: Arc<MyEvent>) { }"
    );
    let not_arc = bean(vec![
        ctor(vec![]),
        method(
            "on",
            vec![BeanParam::Receiver, typed(path_ty(&["UserCreated"]), &[])],
            None,
            vec![with_args("consumer", vec![s("bus", "b")])],
        ),
    ]);
    assert!(refusal(plan_bean(&not_arc)).1.starts_with("consumer event parameter must be wrapped in Arc<T>"));
}

#[test]
fn responder_refuses_fanout_options() {
    let imp = bean(vec![
        ctor(vec![]),
        method(
            "answer",
            vec![BeanParam::Receiver, typed(arc_of("Question"), &[])],
            Some(path_ty(&["Answer"])),
            vec![with_args("consumer", vec![s("bus", "b"), s("topic", "t")])],
        ),
    ]);
    assert_eq!(
        refusal(plan_bean(&imp)).1,
        "a request-reply #[consumer] (non-`()` return) is a responder and does not support `topic`/`deserializer`/`filter`/`retry`/`dlq` — those are fan-out options"
    );
    let unit_reply = bean(vec![
        ctor(vec![]),
        method(
            "answer",
            vec![BeanParam::Receiver, typed(arc_of("Question"), &[])],
            Some(unit()),
            vec![with_args("consumer", vec![s("bus", "b"), s("topic", "t")])],
        ),
    ]);
    assert!(!plan_bean(&unit_reply).ok().unwrap().consumers[0].responder);
}

#[test]
fn lazy_beans_refuse_wiring() {
    let mut imp = bean(vec![
        ctor(vec![]),
        method("init", vec![BeanParam::Receiver], None, vec![bare("post_construct")]),
    ]);
    imp.lazy = true;
    assert_eq!(
        refusal(plan_bean(&imp)),
        (BeanSite::SelfTy, "#[bean(lazy)] does not yet support #[post_construct] — remove one or the other".to_string())
    );
    let mut sched = bean(vec![
        ctor(vec![]),
        method("tick", vec![BeanParam::Receiver], None, vec![with_args("scheduled", vec![n("every", "1")])]),
    ]);
    sched.lazy = true;
    assert_eq!(
        refusal(plan_bean(&sched)).1,
        "#[bean(lazy)] does not yet support #[scheduled] methods — remove one or the other"
    );
    let mut plain = bean(vec![ctor(vec![])]);
    plain.lazy = true;
    assert!(plan_bean(&plain).ok().unwrap().lazy);
}

#[test]
fn post_construct_takes_only_self() {
    let imp = bean(vec![
        ctor(vec![]),
        method("init", vec![BeanParam::Receiver, typed(path_ty(&["u8"]), &[])], None, vec![bare("post_construct")]),
    ]);
    assert_eq!(
        refusal(plan_bean(&imp)),
        (BeanSite::Method(1), "#[post_construct] method must take only `&self` — no additional parameters".to_string())
    );
}

#[test]
fn stray_and_idle_interceptors_are_refused() {
    let stray = bean(vec![ctor(vec![]), method("plain", vec![BeanParam::Receiver], None, vec![bare("intercept")])]);
    assert_eq!(
        refusal(plan_bean(&stray)),
        (BeanSite::Method(1), "#[intercept] on a bean method is only supported on #[scheduled]/#[consumer] methods — a plain method has no dispatch wrapper to run the interceptor chain".to_string())
    );
    let mut idle = bean(vec![ctor(vec![])]);
    idle.intercepts = Ok(vec![1]);
    assert_eq!(refusal(plan_bean(&idle)).0, BeanSite::ImplIntercept);
}

#[test]
fn intercept_lists_are_carried() {
    let mut tick = method("tick", vec![BeanParam::Receiver], None, vec![with_args("scheduled", vec![n("every", "1")])]);
    tick.intercepts = Ok(vec![7, 8]);
    let mut imp = bean(vec![ctor(vec![]), tick]);
    imp.intercepts = Ok(vec![1]);
    let plan = plan_bean(&imp).ok().unwrap();
    assert_eq!(plan.impl_intercepts, &vec![1u8]);
    assert_eq!(plan.scheduled[0].intercepts, &vec![7u8, 8]);
}

#[test]
fn bean_arguments() {
    let bare_lazy = MetaArg { key: "lazy".to_string(), value: MetaValue::Bare, rendered: String::new() };
    assert_eq!(parse_bean_args(&Ok(vec![])), Ok(false));
    assert_eq!(parse_bean_args(&Ok(vec![bare_lazy])), Ok(true));
    assert_eq!(parse_bean_args(&Ok(vec![s("eager", "x")])), Err("expected `lazy`".to_string()));
    assert_eq!(parse_bean_args(&Ok(vec![s("lazy", "x")])), Err("expected `,`".to_string()));
    assert_eq!(parse_bean_args(&Err("unexpected end of input".to_string())), Err("unexpected end of input".to_string()));
}

#[test]
fn bean_type_names() {
    assert_eq!(bean_type_ident(&path_ty(&["crate", "svc", "Mailer"])), "Mailer");
    assert_eq!(bean_type_ident(&unit()), "Bean");
}

// ── the annotated item and the decorator slot ───────────────────────────

#[test]
fn bean_item_kinds() {
    assert_eq!(check_bean_item(&BeanItem::Impl, true), Ok(()));
    assert_eq!(check_bean_item(&BeanItem::Struct { named_fields: true }, false), Ok(()));
    assert_eq!(check_bean_item(&BeanItem::Struct { named_fields: true }, true), Err(BeanItemFault::StructArgs));
    assert_eq!(check_bean_item(&BeanItem::Struct { named_fields: false }, false), Err(BeanItemFault::StructFields));
    assert_eq!(check_bean_item(&BeanItem::Other, false), Err(BeanItemFault::NotStructOrImpl));
    assert_eq!(
        BeanItemFault::StructArgs.message(),
        "#[bean] on a struct takes no arguments (`lazy` applies to the impl block)"
    );
}

#[test]
fn own_struct_literals_get_the_slot() {
    let s = |v: &[&str]| v.iter().map(|x| x.to_string()).collect::<Vec<String>>();
    let me = path_ty(&["services", "Mailer"]);
    let named = vec![Some("dep".to_string())];
    assert!(struct_literal_needs_slot(&s(&["Self"]), false, &named, &me));
    assert!(struct_literal_needs_slot(&s(&["crate", "Mailer"]), false, &named, &me));
    assert!(!struct_literal_needs_slot(&s(&["Other"]), false, &named, &me));
    assert!(!struct_literal_needs_slot(&s(&["Self"]), true, &named, &me));
    let with_slot = vec![Some("dep".to_string()), Some("__r2e_decos".to_string())];
    assert!(!struct_literal_needs_slot(&s(&["Self"]), false, &with_slot, &me));
}

#[test]
fn methods_are_emitted_by_role() {
    let imp = bean(vec![
        ctor(vec![]),
        method("tick", vec![BeanParam::Receiver], None, vec![bare("scheduled")]),
        method("helper", vec![BeanParam::Receiver], Some(unit()), vec![]),
        method("default_instance", vec![], Some(path_ty(&["MyService"])), vec![]),
    ]);
    assert_eq!(
        method_emissions(&imp, &vec!["tick".to_string()]),
        vec![MethodEmission::Constructor, MethodEmission::Intercepted, MethodEmission::Plain, MethodEmission::Constructor]
    );
    assert_eq!(method_emissions(&imp, &vec![])[1], MethodEmission::Plain);
}

#[test]
fn constructor_params_lose_injection_attributes() {
    let kept = r2e_macros::transverse::strip_transverse_attrs(vec![bare("scheduled"), bare("doc"), bare("consumer"), bare("intercept"), bare("post_construct")]);
    assert_eq!(kept.len(), 1);
    assert_eq!(kept[0].ident, Some("doc".to_string()));
    let kept = strip_injection_attrs(vec![bare("inject"), bare("config"), bare("allow"), bare("config_section")]);
    assert_eq!(kept.len(), 1);
    assert_eq!(kept[0].ident, Some("allow".to_string()));
}

#[test]
fn overflowing_schedule_is_detected_before_planning() {
    let tick = |every: &str| method("tick", vec![BeanParam::Receiver], None, vec![with_args("scheduled", vec![n("every", every)])]);
    let huge = bean(vec![ctor(vec![]), tick("18446744073709552")]);
    assert!(bean_overflows(&huge));
    let fine = bean(vec![ctor(vec![]), tick("30")]);
    assert!(!bean_overflows(&fine));
    assert!(plan_bean(&fine).is_ok());
    let no_ctor = bean(vec![tick("18446744073709552")]);
    assert!(!bean_overflows(&no_ctor));
}
