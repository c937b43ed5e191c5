use r2e_macros::entry::{plan_entry, EntryArgs, EntryKind, EntryPlan, EntrySite};

fn args() -> EntryArgs {
    EntryArgs { tracing: true, app: false, with: false, env: false, jwt: true, jwt_key: false, order: None, group: None }
}

#[test]
fn plain_main_and_test() {
    assert_eq!(
        plan_entry(&args(), true, false, false),
        Ok(EntryPlan { kind: EntryKind::Standard, order: None, tracing: true, is_test: false })
    );
    let mut a = args();
    a.tracing = false;
    assert_eq!(
        plan_entry(&a, true, false, true),
        Ok(EntryPlan { kind: EntryKind::Standard, order: None, tracing: false, is_test: true })
    );
}

#[test]
fn entry_must_be_async() {
    assert_eq!(plan_entry(&args(), false, false, true), Err((EntrySite::FnToken, "#[r2e::test] requires an async function".to_string())));
    assert_eq!(plan_entry(&args(), false, false, false), Err((EntrySite::FnToken, "#[r2e::main] requires an async function".to_string())));
}

#[test]
fn ordering_is_test_only() {
    let mut a = args();
    a.order = Some("3".to_string());
    assert_eq!(plan_entry(&a, true, false, false), Err((EntrySite::Order, "`order` is only supported on `#[r2e::test]`".to_string())));
    assert_eq!(plan_entry(&a, true, false, true).unwrap().order, Some(3));
    a.group = Some("db".to_string());
    assert_eq!(plan_entry(&a, true, false, true).unwrap().order, Some(3));
    let mut g = args();
    g.group = Some("db".to_string());
    assert_eq!(plan_entry(&g, true, false, false).unwrap_err().0, EntrySite::Group);
    assert_eq!(
        plan_entry(&g, true, false, true),
        Err((EntrySite::Group, "`group` requires `order` — `group` only names the barrier for tests that also declare an `order`".to_string()))
    );
}

#[test]
fn order_must_fit_u32() {
    let mut a = args();
    a.order = Some("4294967296".to_string());
    assert_eq!(plan_entry(&a, true, false, true), Err((EntrySite::Order, "number too large to fit in target type".to_string())));
    a.order = Some("4294967295".to_string());
    assert_eq!(plan_entry(&a, true, false, true).unwrap().order, Some(u32::MAX));
}

#[test]
fn app_boot_rules() {
    let mut a = args();
    a.app = true;
    assert_eq!(plan_entry(&a, true, false, false), Err((EntrySite::Sig, "`app = ...` is only valid on #[r2e::test]".to_string())));
    assert_eq!(plan_entry(&a, true, true, true).unwrap().kind, EntryKind::Boot);
    let mut e = args();
    e.env = true;
    e.with = true;
    assert_eq!(plan_entry(&e, true, false, true).unwrap_err().0, EntrySite::Env);
    let mut w = args();
    w.with = true;
    assert_eq!(
        plan_entry(&w, true, false, true),
        Err((EntrySite::With, "`with = ...` requires `app = <App type>` — the hook pre-configures the `AppBuilder` of the app being booted".to_string()))
    );
    let mut j = args();
    j.jwt_key = true;
    j.jwt = false;
    assert_eq!(plan_entry(&j, true, false, true).unwrap_err().0, EntrySite::JwtKey);
}

#[test]
fn parameters_need_a_boot() {
    assert!(plan_entry(&args(), true, true, false).unwrap_err().1.starts_with("#[r2e::main] does not accept parameters"));
    assert_eq!(
        plan_entry(&args(), true, true, true),
        Err((EntrySite::Sig, "#[r2e::test] does not accept parameters unless it boots an app — parameters are bound from the booted `TestApp`:\n\n  #[r2e::test(app = MyApp)]\n  async fn t(app: TestApp) { ... }".to_string()))
    );
}
