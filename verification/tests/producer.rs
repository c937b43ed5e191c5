use r2e_macros::producer::{plan_producer, ProducerArgs, ProducerDep, ProducerFault, ProducerFn, ProducerParam, ProducerSite};
use r2e_macros::types::{GenArg, Seg, SegArgs, Ty, TyKind};

fn ty(name: &str) -> Ty {
    Ty { kind: TyKind::Path(vec![Seg { ident: name.to_string(), args: SegArgs::Plain }]), tokens: name.to_string() }
}

fn generic(name: &str, args: Vec<Ty>) -> Ty {
    let tokens = format!("{name} < {} >", args.iter().map(|t| t.tokens.clone()).collect::<Vec<_>>().join(" , "));
    Ty { kind: TyKind::Path(vec![Seg { ident: name.to_string(), args: SegArgs::Angle(args.into_iter().map(GenArg::Type).collect()) }]), tokens }
}

fn param(t: Ty, names: &[&str]) -> ProducerParam<String> {
    ProducerParam::Typed {
        ty: t,
        attr_names: names.iter().map(|n| Some(n.to_string())).collect(),
        inject_check: Ok(()),
        live_exclusive: Ok(()),
        section_prefix: Ok("app.db".to_string()),
        config: Ok(("app.db.url".to_string(), "String".to_string())),
        live_config: Ok(("app.limit".to_string(), "u32".to_string())),
    }
}

fn producer(output: Option<Ty>, params: Vec<ProducerParam<String>>) -> ProducerFn<String> {
    ProducerFn { ident: "create_pool".to_string(), is_async: true, unsafe_check: Ok(()), output, alias_check: Ok(()), params }
}

fn no_args() -> ProducerArgs {
    ProducerArgs { start: false, after: vec![] }
}

#[test]
fn producer_registers_its_return_type() {
    let f = producer(Some(ty("SqlitePool")), vec![param(ty("Metrics"), &[]), param(ty("String"), &["config"]), param(ty("DbConfig"), &["config_section"]), param(ty("u32"), &["live_config"])]);
    let a = no_args();
    let p = plan_producer(&f, &a).ok().unwrap();
    assert_eq!(p.struct_name, "CreatePool");
    assert!(p.is_async);
    assert_eq!(p.declared.tokens, "SqlitePool");
    assert!(p.split.is_none());
    assert!(matches!(p.params[0], ProducerDep::ByType(t) if t.tokens == "Metrics"));
    assert!(matches!(p.params[1], ProducerDep::Config { key, is_option: false, .. } if key == "app.db.url"));
    assert!(matches!(p.params[2], ProducerDep::Section(pre) if pre == "app.db"));
    assert!(matches!(p.params[3], ProducerDep::Live { key, .. } if key == "app.limit"));
    assert_eq!(p.dep_types.len(), 1);
    assert!(p.has_config && p.has_live_config && !p.start);
}

#[test]
fn result_return_is_split() {
    let f = producer(Some(generic("Result", vec![ty("Pool"), ty("DbError")])), vec![]);
    let a = no_args();
    let p = plan_producer(&f, &a).ok().unwrap();
    let (ok, err) = p.split.unwrap();
    assert_eq!(ok.tokens, "Pool");
    assert_eq!(err.tokens, "DbError");
    let opt = producer(Some(generic("Option", vec![ty("Pool")])), vec![]);
    assert!(plan_producer(&opt, &a).ok().unwrap().split.is_none());
}

#[test]
fn producer_needs_a_return_type() {
    let f = producer(None, vec![]);
    let a = no_args();
    assert!(matches!(plan_producer(&f, &a), Err(ProducerFault::At(ProducerSite::FnName, m)) if m.starts_with("#[producer] function must have a return type")));
}

#[test]
fn producer_is_a_free_function() {
    let f = producer(Some(ty("Pool")), vec![ProducerParam::Receiver]);
    let a = no_args();
    assert!(matches!(plan_producer(&f, &a), Err(ProducerFault::At(ProducerSite::FnName, m)) if m.starts_with("#[producer] must be a free function")));
}

#[test]
fn after_edges_join_the_dependencies() {
    let f = producer(Some(ty("Pool")), vec![param(ty("Metrics"), &[])]);
    let a = ProducerArgs { start: true, after: vec![ty("InstanceGuard")] };
    let p = plan_producer(&f, &a).ok().unwrap();
    assert_eq!(p.dep_types.iter().map(|t| t.tokens.as_str()).collect::<Vec<_>>(), vec!["Metrics", "InstanceGuard"]);
    assert!(p.start);
}

#[test]
fn after_repeating_a_parameter_is_refused() {
    let f = producer(Some(ty("Pool")), vec![param(ty("Metrics"), &[])]);
    let a = ProducerArgs { start: false, after: vec![ty("Guard"), ty("Metrics")] };
    match plan_producer(&f, &a) {
        Err(ProducerFault::At(site, m)) => {
            assert_eq!(site, ProducerSite::After(1));
            assert_eq!(m, "`after(..)` names a type this producer already takes as a parameter — a parameter is already a dependency edge; drop it from `after(..)`");
        }
        _ => panic!("expected a refusal"),
    }
    let twice = ProducerArgs { start: false, after: vec![ty("Guard"), ty("Guard")] };
    assert!(matches!(plan_producer(&f, &twice), Err(ProducerFault::At(ProducerSite::After(1), _))));
}

#[test]
fn producer_readings_are_passed_on() {
    let mut f = producer(Some(ty("Pool")), vec![param(ty("String"), &["config"])]);
    if let ProducerParam::Typed { config, .. } = &mut f.params[0] {
        *config = Err("expected a key".to_string());
    }
    let a = no_args();
    assert!(matches!(plan_producer(&f, &a), Err(ProducerFault::Read(e)) if e == "expected a key"));
}
