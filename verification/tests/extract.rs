use r2e_macros::extract::managed::strip_managed_attrs;
use r2e_macros::attrs::{Attr, AttrForm, Lit, MetaArg, MetaValue};
use r2e_macros::extract::async_exec::{
    extract_async_exec, strip_async_exec_attrs, validate_async_exec_method, AsyncExecHost,
};
use r2e_macros::extract::consumer::{extract_consumer, strip_consumer_attrs};
use r2e_macros::extract::docs::{extract_doc_comment, extract_doc_comments};
use r2e_macros::extract::plugins::{all_decorator_attr_names, strip_known_attrs, validate_grpc_attrs};
use r2e_macros::extract::route::{
    default_status_for_method, extract_roles, extract_route_attr, extract_sse_attr, extract_status,
    extract_transactional, extract_ws_attr, is_wildcard_path, HttpMethod, SseKeepAlive,
};
use r2e_macros::extract::scheduled::{
    extract_scheduled, resolve_skip_if, schedule_config_expr, strip_scheduled_attrs, task_name,
    ScheduleKind, SkipFault,
};
use r2e_macros::sig::{FnInput, Pat, Sig};
use r2e_macros::types::{Ty, TyKind};

fn not_a_list(name: &str) -> String {
    format!("expected attribute arguments in parentheses: #[{name}(...)]")
}

fn bare(name: &str) -> Attr<()> {
    Attr {
        ident: Some(name.to_string()),
        form: AttrForm::Bare,
        meta: Err(not_a_list(name)),
        values: Err(not_a_list(name)),
        raw: (),
    }
}

fn with_args(name: &str, args: Vec<MetaArg>) -> Attr<()> {
    Attr {
        ident: Some(name.to_string()),
        form: AttrForm::List,
        meta: Ok(args),
        values: Err("expected an expression".to_string()),
        raw: (),
    }
}

fn with_values(name: &str, values: Vec<Lit>) -> Attr<()> {
    Attr {
        ident: Some(name.to_string()),
        form: AttrForm::List,
        meta: Err("expected identifier".to_string()),
        values: Ok(values),
        raw: (),
    }
}

fn doc(text: &str) -> Attr<()> {
    Attr {
        ident: Some("doc".to_string()),
        form: AttrForm::NameValue(Lit::Str(text.to_string())),
        meta: Err("expected `(`".to_string()),
        values: Err("expected `(`".to_string()),
        raw: (),
    }
}

fn s(key: &str, v: &str) -> MetaArg {
    MetaArg { key: key.to_string(), value: MetaValue::Eq(Lit::Str(v.to_string())), rendered: format!("{v:?}") }
}

fn n(key: &str, digits: &str) -> MetaArg {
    MetaArg { key: key.to_string(), value: MetaValue::Eq(Lit::Int(digits.to_string())), rendered: digits.to_string() }
}

fn plain_ty(name: &str) -> Ty {
    Ty {
        kind: TyKind::Path(vec![r2e_macros::types::Seg {
            ident: name.to_string(),
            args: r2e_macros::types::SegArgs::Plain,
        }]),
        tokens: name.to_string(),
    }
}

fn sig(inputs: Vec<FnInput>, is_async: bool) -> Sig {
    Sig { ident: "work".to_string(), is_async, inputs }
}

fn self_ref() -> FnInput {
    FnInput::Receiver { reference: true, mutable: false }
}

// ── consumer ────────────────────────────────────────────────────────────

#[test]
fn consumer_reads_its_arguments() {
    let attrs = vec![with_args(
        "consumer",
        vec![s("bus", "event_bus"), s("topic", "orders"), n("retry", "3"), s("dlq", "dead")],
    )];
    let c = extract_consumer(&attrs).unwrap().unwrap();
    assert_eq!(c.bus_field, "event_bus");
    assert_eq!(c.topic.as_deref(), Some("orders"));
    assert_eq!(c.retry, Some(3));
    assert_eq!(c.dlq.as_deref(), Some("dead"));
    assert_eq!(c.filter, None);
}

#[test]
fn consumer_absent_is_none() {
    let attrs = vec![bare("get")];
    assert!(matches!(extract_consumer(&attrs), Ok(None)));
}

#[test]
fn consumer_requires_bus() {
    let attrs = vec![with_args("consumer", vec![s("topic", "orders")])];
    let e = extract_consumer(&attrs).err().unwrap();
    assert!(e.starts_with("#[consumer] requires `bus`"));
}

#[test]
fn consumer_refuses_unknown_key() {
    let attrs = vec![with_args("consumer", vec![s("bus", "b"), s("queue", "q")])];
    let e = extract_consumer(&attrs).err().unwrap();
    assert!(e.starts_with("unknown key in #[consumer(...)]"));
}

#[test]
fn consumer_attrs_are_stripped() {
    let attrs = vec![bare("consumer"), bare("doc"), bare("consumer")];
    let kept = strip_consumer_attrs(attrs);
    assert_eq!(kept.len(), 1);
    assert_eq!(kept[0].ident.as_deref(), Some("doc"));
}

// ── scheduled ───────────────────────────────────────────────────────────

#[test]
fn scheduled_every_seconds() {
    let attrs = vec![with_args("scheduled", vec![n("every", "30")])];
    let c = extract_scheduled(&attrs).unwrap().unwrap();
    assert_eq!(c.every_ms, Some(30_000));
    assert!(matches!(schedule_config_expr(&c), ScheduleKind::Interval(30_000)));
}

#[test]
fn scheduled_every_duration_string_with_delay() {
    let attrs = vec![with_args("scheduled", vec![s("every", "5m"), s("initial_delay", "10s")])];
    let c = extract_scheduled(&attrs).unwrap().unwrap();
    assert_eq!(c.every_ms, Some(300_000));
    assert_eq!(c.initial_delay_ms, Some(10_000));
    assert!(matches!(
        schedule_config_expr(&c),
        ScheduleKind::IntervalWithDelay { interval_ms: 300_000, initial_delay_ms: 10_000 }
    ));
}

#[test]
fn scheduled_cron_is_checked() {
    let ok = vec![with_args("scheduled", vec![s("cron", "0 */5 * * * *")])];
    let c = extract_scheduled(&ok).unwrap().unwrap();
    assert_eq!(c.cron.as_deref(), Some("0 */5 * * * *"));
    assert!(matches!(schedule_config_expr(&c), ScheduleKind::Cron(ref e) if e == "0 */5 * * * *"));
    let bad = vec![with_args("scheduled", vec![s("cron", "not a cron")])];
    assert_eq!(
        extract_scheduled(&bad).err(),
        Some("invalid cron expression 'not a cron': Invalid expression: Invalid cron expression.".to_string())
    );
}

#[test]
fn scheduled_needs_a_trigger() {
    let attrs = vec![with_args("scheduled", vec![s("name", "job")])];
    let e = extract_scheduled(&attrs).err().unwrap();
    assert!(e.starts_with("#[scheduled] requires either `every` (interval) or `cron` (expression)"));
}

#[test]
fn scheduled_every_and_cron_exclusive() {
    let attrs = vec![with_args("scheduled", vec![n("every", "5"), s("cron", "0 */5 * * * *")])];
    assert_eq!(
        extract_scheduled(&attrs).err(),
        Some("`every` and `cron` are mutually exclusive — use one or the other".to_string())
    );
}

#[test]
fn scheduled_zero_interval_refused() {
    let attrs = vec![with_args("scheduled", vec![n("every", "0")])];
    assert_eq!(extract_scheduled(&attrs).err(), Some("duration must be greater than zero".to_string()));
}

#[test]
fn scheduled_bad_duration_string() {
    let attrs = vec![with_args("scheduled", vec![s("every", "5x")])];
    assert_eq!(
        extract_scheduled(&attrs).err(),
        Some("invalid duration '5x': unknown duration suffix 'x' — use ms, s, m, h, or d".to_string())
    );
}

#[test]
fn task_name_defaults_to_owner_and_method() {
    let attrs = vec![with_args("scheduled", vec![n("every", "1")])];
    let c = extract_scheduled(&attrs).unwrap().unwrap();
    assert_eq!(task_name(&c, "Reports", "flush"), "Reports_flush");
    let named = vec![with_args("scheduled", vec![n("every", "1"), s("name", "nightly")])];
    let c2 = extract_scheduled(&named).unwrap().unwrap();
    assert_eq!(task_name(&c2, "Reports", "flush"), "nightly");
}

#[test]
fn scheduled_attrs_are_stripped() {
    let kept = strip_scheduled_attrs(vec![bare("scheduled"), bare("intercept"), bare("allow")]);
    assert_eq!(kept.len(), 1);
    assert_eq!(kept[0].ident.as_deref(), Some("allow"));
}

// ── routes ──────────────────────────────────────────────────────────────

#[test]
fn default_statuses() {
    assert_eq!(default_status_for_method(&HttpMethod::Get), 200);
    assert_eq!(default_status_for_method(&HttpMethod::Post), 201);
    assert_eq!(default_status_for_method(&HttpMethod::Put), 200);
    assert_eq!(default_status_for_method(&HttpMethod::Delete), 204);
    assert_eq!(default_status_for_method(&HttpMethod::Patch), 200);
    assert_eq!(default_status_for_method(&HttpMethod::Any), 200);
}

#[test]
fn wildcard_paths() {
    assert!(is_wildcard_path("/files/{*rest}"));
    assert!(!is_wildcard_path("/users/{id}"));
    assert!(!is_wildcard_path(""));
}

#[test]
fn route_verb_and_path() {
    let attrs = vec![doc(" Get a user"), with_values("get", vec![Lit::Str("/users/{id}".to_string())])];
    match extract_route_attr(&attrs) {
        Ok(Some((HttpMethod::Get, p))) => assert_eq!(p, "/users/{id}"),
        _ => panic!("expected a GET route"),
    }
    let none: Vec<Attr<()>> = vec![doc("x")];
    assert!(matches!(extract_route_attr(&none), Ok(None)));
}

#[test]
fn route_path_must_be_a_string() {
    let attrs = vec![with_values("post", vec![Lit::Int("1".to_string())])];
    assert_eq!(extract_route_attr(&attrs).err(), Some("expected string literal".to_string()));
}

#[test]
fn ws_path() {
    let attrs = vec![with_values("ws", vec![Lit::Str("/chat".to_string())])];
    assert_eq!(extract_ws_attr(&attrs), Ok(Some("/chat".to_string())));
}

#[test]
fn roles_are_listed() {
    let attrs = vec![with_values("roles", vec![Lit::Str("admin".to_string()), Lit::Str("ops".to_string())])];
    assert_eq!(extract_roles(&attrs), Ok(vec!["admin".to_string(), "ops".to_string()]));
    let none: Vec<Attr<()>> = vec![];
    assert_eq!(extract_roles(&none), Ok(vec![]));
}

#[test]
fn status_override() {
    let attrs = vec![with_values("status", vec![Lit::Int("202".to_string())])];
    assert_eq!(extract_status(&attrs), Ok(Some(202)));
    let big = vec![with_values("status", vec![Lit::Int("70000".to_string())])];
    assert_eq!(extract_status(&big), Err("number too large to fit in target type".to_string()));
}

#[test]
fn transactional_pool() {
    let default = vec![bare("transactional")];
    assert_eq!(extract_transactional(&default).unwrap().unwrap().pool_field, "pool");
    let custom = vec![with_args("transactional", vec![s("pool", "db")])];
    assert_eq!(extract_transactional(&custom).unwrap().unwrap().pool_field, "db");
}

#[test]
fn sse_keep_alive() {
    let plain = vec![with_values("sse", vec![Lit::Str("/events".to_string())])];
    match extract_sse_attr(&plain) {
        Ok(Some((p, SseKeepAlive::Default))) => assert_eq!(p, "/events"),
        _ => panic!("expected default keep-alive"),
    }
    let off = vec![with_values(
        "sse",
        vec![
            Lit::Str("/events".to_string()),
            Lit::Assign("keep_alive".to_string(), Box::new(Lit::Bool(false))),
        ],
    )];
    assert!(matches!(extract_sse_attr(&off), Ok(Some((_, SseKeepAlive::Disabled)))));
    let every = vec![with_values(
        "sse",
        vec![
            Lit::Str("/events".to_string()),
            Lit::Assign("keep_alive".to_string(), Box::new(Lit::Int("15".to_string()))),
        ],
    )];
    assert!(matches!(extract_sse_attr(&every), Ok(Some((_, SseKeepAlive::Interval(15))))));
    let missing = vec![with_values("sse", vec![])];
    assert_eq!(
        extract_sse_attr(&missing).err(),
        Some("#[sse] requires a path string as first argument".to_string())
    );
}

// ── decorators ──────────────────────────────────────────────────────────

#[test]
fn decorator_names() {
    let names = all_decorator_attr_names();
    assert_eq!(
        names,
        vec!["roles", "guard", "pre_guard", "transactional", "intercept", "middleware", "layer", "status", "returns"]
    );
}

#[test]
fn known_attrs_are_stripped() {
    let attrs = vec![bare("get"), bare("roles"), bare("doc"), bare("status"), bare("allow")];
    let kept = strip_known_attrs(attrs);
    let names: Vec<_> = kept.iter().map(|a| a.ident.clone().unwrap()).collect();
    assert_eq!(names, vec!["doc".to_string(), "allow".to_string()]);
}

#[test]
fn grpc_refuses_http_decorators() {
    let attrs = vec![bare("roles")];
    assert_eq!(
        validate_grpc_attrs(&attrs),
        Err("#[roles] is not supported on #[grpc_routes] methods".to_string())
    );
    assert_eq!(validate_grpc_attrs(&vec![bare("intercept")]), Ok(()));
}

// ── async_exec ──────────────────────────────────────────────────────────

#[test]
fn async_exec_executor_field() {
    let default = vec![bare("async_exec")];
    assert_eq!(extract_async_exec(&default).unwrap().unwrap().executor_field, "executor");
    let custom = vec![with_args("async_exec", vec![s("executor", "pool")])];
    assert_eq!(extract_async_exec(&custom).unwrap().unwrap().executor_field, "pool");
    let none: Vec<Attr<()>> = vec![];
    assert!(matches!(extract_async_exec(&none), Ok(None)));
}

#[test]
fn async_exec_needs_async_fn() {
    let attrs = vec![bare("async_exec")];
    let s = sig(vec![self_ref()], false);
    assert_eq!(
        validate_async_exec_method(&attrs, &s, AsyncExecHost::Bean).err(),
        Some("#[async_exec] requires an `async fn` — the body is submitted to a PoolExecutor".to_string())
    );
}

#[test]
fn async_exec_refuses_route_verbs_on_controllers() {
    let attrs = vec![bare("async_exec"), bare("get")];
    let s = sig(vec![self_ref()], true);
    let e = validate_async_exec_method(&attrs, &s, AsyncExecHost::Controller).err().unwrap();
    assert!(e.starts_with("#[async_exec] cannot be combined with a route verb"));
}

#[test]
fn async_exec_needs_shared_receiver() {
    let attrs = vec![bare("async_exec")];
    let mutable = sig(vec![FnInput::Receiver { reference: true, mutable: true }], true);
    assert!(validate_async_exec_method(&attrs, &mutable, AsyncExecHost::Bean).is_err());
    let ok = sig(vec![self_ref(), FnInput::Typed { pat: Pat::Ident("x".to_string()), ty: plain_ty("u32"), attrs: vec![] }], true);
    assert!(validate_async_exec_method(&attrs, &ok, AsyncExecHost::Bean).is_ok());
}

#[test]
fn async_exec_attrs_are_stripped() {
    let kept = strip_async_exec_attrs(vec![bare("async_exec"), bare("doc")]);
    assert_eq!(kept.len(), 1);
}

// ── docs ────────────────────────────────────────────────────────────────

#[test]
fn doc_summary_and_description() {
    let attrs = vec![doc(" List users."), doc(""), doc(" Paged by `page`."), doc(" Sorted.")];
    let (summary, description) = extract_doc_comments(&attrs);
    assert_eq!(summary.as_deref(), Some("List users."));
    assert_eq!(description.as_deref(), Some("Paged by `page`.\nSorted."));
}

#[test]
fn field_doc_joins_lines() {
    let attrs = vec![doc(" The port "), doc(" to listen on.")];
    assert_eq!(extract_doc_comment(&attrs).as_deref(), Some("The port to listen on."));
    let none: Vec<Attr<()>> = vec![bare("serde")];
    assert_eq!(extract_doc_comment(&none), None);
}

// ── skip_if ─────────────────────────────────────────────────────────────

fn plain(name: &str, inputs: Vec<FnInput>, is_async: bool) -> Sig {
    Sig { ident: name.to_string(), is_async, inputs }
}

#[test]
fn skip_if_absent_resolves_to_nothing() {
    assert!(matches!(resolve_skip_if(&None, &vec![]), Ok(None)));
}

#[test]
fn skip_if_names_a_receiver_only_method() {
    let ms = vec![
        plain("other", vec![self_ref()], false),
        plain("maintenance_mode", vec![self_ref()], true),
    ];
    match resolve_skip_if(&Some("maintenance_mode".to_string()), &ms) {
        Ok(Some(c)) => {
            assert_eq!(c.fn_name, "maintenance_mode");
            assert!(c.is_async);
        }
        _ => panic!("expected a resolved predicate"),
    }
}

#[test]
fn skip_if_unknown_method_is_refused() {
    let ms = vec![plain("other", vec![self_ref()], false)];
    match resolve_skip_if(&Some("paused".to_string()), &ms) {
        Err(SkipFault::NotPlain(m)) => {
            assert!(m.starts_with("skip_if = \"paused\" does not name a plain method in this impl block\n\n"));
            assert!(m.ends_with("#[inject] the predicate bean and delegate to it from the method."));
        }
        _ => panic!("expected a refusal"),
    }
}

#[test]
fn skip_if_method_with_parameters_is_refused() {
    let arg = FnInput::Typed { pat: Pat::Ident("x".to_string()), ty: plain_ty("u32"), attrs: vec![] };
    let ms = vec![plain("paused", vec![self_ref(), arg], false)];
    assert!(matches!(
        resolve_skip_if(&Some("paused".to_string()), &ms),
        Err(SkipFault::NotReceiverOnly(0))
    ));
    let ms = vec![plain("paused", vec![], false)];
    match resolve_skip_if(&Some("paused".to_string()), &ms) {
        Err(f @ SkipFault::NotReceiverOnly(0)) => assert_eq!(
            f.message(),
            "a skip_if predicate must take only `&self` (no parameters) and return `bool`"
        ),
        _ => panic!("expected a refusal"),
    }
}

#[test]
fn managed_attributes_are_stripped() {
    let tx = FnInput::Typed {
        pat: Pat::Ident("tx".to_string()),
        ty: plain_ty("Tx"),
        attrs: vec![Some("managed".to_string()), Some("allow".to_string()), None],
    };
    let out = strip_managed_attrs(vec![self_ref(), tx]);
    assert_eq!(out.len(), 2);
    assert!(matches!(out[0], FnInput::Receiver { reference: true, mutable: false }));
    match &out[1] {
        FnInput::Typed { pat: Pat::Ident(n), ty, attrs } => {
            assert_eq!(n, "tx");
            assert_eq!(ty.tokens, "Tx");
            assert_eq!(attrs, &vec![Some("allow".to_string()), None]);
        }
        _ => panic!("expected a typed parameter"),
    }
}
