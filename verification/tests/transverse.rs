use r2e_macros::attrs::{Attr, AttrForm, Lit, MetaArg, MetaValue};
use r2e_macros::extract::async_exec::{extract_async_exec, strip_async_exec_attrs};
use r2e_macros::extract::consumer::{extract_consumer, strip_consumer_attrs};
use r2e_macros::extract::scheduled::{extract_scheduled, strip_scheduled_attrs};
use r2e_macros::extract::consumer::ConsumerConfig;
use r2e_macros::sig::{FnInput, Pat};
use r2e_macros::deco::{DecoExpr, DecoPath};
use r2e_macros::types::{Seg, SegArgs};
use r2e_macros::transverse::{dispatch_plan, DispatchPlan, async_exec_arg_names, strip_transverse_attrs, subscription, Subscription};
use r2e_macros::types::{Ty, TyKind};

fn bare(name: &str) -> Attr<()> {
    Attr { ident: Some(name.to_string()), form: AttrForm::Bare, meta: Err(String::new()), values: Err(String::new()), raw: () }
}

fn config() -> ConsumerConfig {
    ConsumerConfig { bus_field: "events".to_string(), topic: None, deserializer: None, filter: None, retry: None, dlq: None }
}

fn typed(pat: Pat) -> FnInput {
    FnInput::Typed { pat, ty: Ty { kind: TyKind::Other, tokens: "T".to_string() }, attrs: vec![] }
}

#[test]
fn transverse_attributes_are_stripped() {
    let kept = strip_transverse_attrs(vec![bare("consumer"), bare("doc"), bare("post_construct"), bare("scheduled"), bare("intercept"), bare("inline")]);
    assert_eq!(kept.iter().map(|a| a.ident.clone().unwrap()).collect::<Vec<_>>(), vec!["doc", "inline"]);
}

#[test]
fn responders_respond() {
    assert!(matches!(subscription(&config(), true, false), Subscription::Respond { fallible: false }));
    assert!(matches!(subscription(&config(), true, true), Subscription::Respond { fallible: true }));
}

#[test]
fn plain_subscription_is_not_configured() {
    match subscription(&config(), false, false) {
        Subscription::Subscribe { topic: None, deserializer: None, configure: false, filter: None, retry: None, dlq: None } => {}
        _ => panic!("expected a plain subscription"),
    }
}

#[test]
fn filter_and_retry_configure_the_handler() {
    let mut c = config();
    c.topic = Some("users".to_string());
    c.filter = Some("only_admins".to_string());
    c.dlq = Some("dead".to_string());
    match subscription(&c, false, false) {
        Subscription::Subscribe { topic: Some(t), configure: true, filter: Some(f), retry: None, dlq: None, .. } => {
            assert_eq!(t, "users");
            assert_eq!(f, "only_admins");
        }
        _ => panic!("expected a filtered subscription without dead-letter topic"),
    }
    c.retry = Some(3);
    match subscription(&c, false, false) {
        Subscription::Subscribe { configure: true, retry: Some(3), dlq: Some(d), .. } => assert_eq!(d, "dead"),
        _ => panic!("expected a retrying subscription"),
    }
}

#[test]
fn async_exec_wrapper_names_its_parameters() {
    let inputs = vec![
        FnInput::Receiver { reference: true, mutable: false },
        typed(Pat::Ident("job".to_string())),
        typed(Pat::Tuple(vec![])),
        typed(Pat::Other),
        typed(Pat::Ident("limit".to_string())),
    ];
    assert_eq!(async_exec_arg_names(&inputs), vec!["job", "__arg_1", "__arg_2", "limit"]);
}

fn deco(name: &str) -> DecoExpr {
    DecoExpr::Path(DecoPath { leading_colon: false, segments: vec![Seg { ident: name.to_string(), args: SegArgs::Plain }] })
}

#[test]
fn dispatch_wrappers_only_where_interceptors_run() {
    assert_eq!(dispatch_plan(&vec![], 0, true), None);
    assert_eq!(
        dispatch_plan(&vec![deco("Log"), deco("Timing")], 0, false),
        Some(DispatchPlan { intercept_count: 2, ctrl_field_count: 0, promote_async: true })
    );
    assert_eq!(dispatch_plan(&vec![deco("Log"), DecoExpr::Other], 0, true), None);
    assert_eq!(
        dispatch_plan(&vec![DecoExpr::Other], 1, true),
        Some(DispatchPlan { intercept_count: 0, ctrl_field_count: 1, promote_async: false })
    );
}

fn listed(name: &str, args: Vec<MetaArg>) -> Attr<()> {
    Attr { ident: Some(name.to_string()), form: AttrForm::List, meta: Ok(args), values: Err(String::new()), raw: () }
}

fn eq_int(key: &str, digits: &str) -> MetaArg {
    MetaArg { key: key.to_string(), value: MetaValue::Eq(Lit::Int(digits.to_string())), rendered: digits.to_string() }
}

fn eq_str(key: &str, v: &str) -> MetaArg {
    MetaArg { key: key.to_string(), value: MetaValue::Eq(Lit::Str(v.to_string())), rendered: format!("{v:?}") }
}

fn marked_method() -> Vec<Attr<()>> {
    vec![listed("scheduled", vec![eq_int("every", "30")]), bare("doc"), listed("consumer", vec![eq_str("bus", "events")])]
}

#[test]
fn stripped_methods_read_as_unmarked() {
    assert!(extract_scheduled(&marked_method()).unwrap().is_some());
    assert!(extract_consumer(&marked_method()).unwrap().is_some());
    assert!(matches!(extract_scheduled(&strip_scheduled_attrs(marked_method())), Ok(None)));
    assert!(matches!(extract_consumer(&strip_consumer_attrs(marked_method())), Ok(None)));
    assert!(matches!(extract_scheduled(&strip_transverse_attrs(marked_method())), Ok(None)));
    assert!(matches!(extract_consumer(&strip_transverse_attrs(marked_method())), Ok(None)));
    let marked = vec![bare("async_exec"), bare("doc")];
    assert!(matches!(extract_async_exec(&strip_async_exec_attrs(marked)), Ok(None)));
}
