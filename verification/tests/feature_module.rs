use r2e_macros::feature_module::ModuleEntry::{Bean, Modules};
use r2e_macros::feature_module::{
    plan_module, ModuleArgsInput, ModuleEntry, ModuleFault, ModuleGroup, ModuleSite, PluginSyntax,
};

type Group = ModuleGroup<&'static str, &'static str, String>;

fn list(key: &str, entries: Vec<ModuleEntry<&'static str>>) -> Group {
    ModuleGroup { key: key.to_string(), content: Ok((Err("expected `=`".to_string()), Ok(entries))) }
}

fn plugins(entries: Vec<PluginSyntax<&'static str, &'static str>>) -> Group {
    ModuleGroup { key: "plugins".to_string(), content: Ok((Ok(entries), Err("expected `,`".to_string()))) }
}

fn args(groups: Vec<Group>) -> ModuleArgsInput<&'static str, &'static str, String> {
    ModuleArgsInput { groups, rest: None }
}

fn refused(r: Result<r2e_macros::feature_module::ModuleArgs<'_, &'static str, &'static str>, ModuleFault<'_, String>>) -> (ModuleSite, String) {
    match r {
        Err(ModuleFault::At(s, m)) => (s, m),
        Err(ModuleFault::Read(e)) => panic!("unexpected read error {e}"),
        Ok(_) => panic!("expected a refusal"),
    }
}

#[test]
fn every_key_defaults_to_empty() {
    let a = args(vec![]);
    let m = plan_module(&a, false).ok().unwrap();
    assert!(m.providers.is_empty() && m.controllers.is_empty() && m.exports.is_empty());
    assert!(m.imports.is_empty() && m.import_modules.is_empty() && m.plugins.is_empty());
    assert!(m.requires_plugins.is_empty() && m.grpc_services.is_empty());
}

#[test]
fn keys_fill_their_lists() {
    let a = args(vec![
        list("providers", vec![Bean("UserRepo"), Bean("UserService")]),
        list("controllers", vec![Bean("UserController")]),
        list("grpc_services", vec![Bean("UserGrpc")]),
        list("exports", vec![Bean("UserService")]),
        list("imports", vec![Bean("DbPool"), Modules(vec!["Billing", "Audit"]), Bean("Cache"), Modules(vec!["Mail"])]),
        plugins(vec![PluginSyntax { ty: "Scheduler", value: Some("Scheduler::default()") }]),
        list("requires_plugins", vec![Bean("Executor")]),
    ]);
    let m = plan_module(&a, false).ok().unwrap();
    assert_eq!(m.providers, vec![&"UserRepo", &"UserService"]);
    assert_eq!(m.controllers, vec![&"UserController"]);
    assert_eq!(m.grpc_services, vec![&"UserGrpc"]);
    assert_eq!(m.exports, vec![&"UserService"]);
    assert_eq!(m.imports, vec![&"DbPool", &"Cache"]);
    assert_eq!(m.import_modules, vec![&"Billing", &"Audit", &"Mail"]);
    assert_eq!(m.plugins, vec![(&"Scheduler", &"Scheduler::default()")]);
    assert_eq!(m.requires_plugins, vec![&"Executor"]);
}

#[test]
fn module_groups_are_equivalent() {
    let one = args(vec![list("imports", vec![Modules(vec!["A", "B"])])]);
    let two = args(vec![list("imports", vec![Modules(vec!["A"]), Modules(vec!["B"])])]);
    assert_eq!(plan_module(&one, false).ok().unwrap().import_modules, plan_module(&two, false).ok().unwrap().import_modules);
}

#[test]
fn duplicate_key_is_refused() {
    let a = args(vec![list("providers", vec![]), list("exports", vec![]), list("providers", vec![])]);
    assert_eq!(refused(plan_module(&a, false)), (ModuleSite::Key(2), "duplicate `providers(...)` in #[module]".to_string()));
}

#[test]
fn unknown_key_is_refused() {
    let a = args(vec![list("beans", vec![])]);
    assert_eq!(
        refused(plan_module(&a, false)).1,
        "unknown key `beans` in #[module] — expected `providers`, `controllers`, `grpc_services`, `exports`, `imports`, `plugins`, or `requires_plugins`"
    );
}

#[test]
fn module_group_outside_imports_is_refused() {
    let a = args(vec![list("exports", vec![ModuleEntry::Bean("X"), ModuleEntry::Modules(vec!["M"])])]);
    assert_eq!(
        refused(plan_module(&a, false)),
        (ModuleSite::Entry(0, 1), "`module(...)` is only valid inside `imports(...)`, not `exports(...)` — module imports go in `imports(...)`".to_string())
    );
}

#[test]
fn plugin_without_value_is_refused() {
    let a = args(vec![plugins(vec![PluginSyntax { ty: "Scheduler", value: None }])]);
    let (site, m) = refused(plan_module(&a, false));
    assert_eq!(site, ModuleSite::Entry(0, 0));
    assert!(m.starts_with("`plugins(...)` entries must be written `Type = expr`"));
}

#[test]
fn generic_struct_is_refused() {
    let a = args(vec![]);
    assert_eq!(refused(plan_module(&a, true)), (ModuleSite::Generics, "#[module] does not support generic structs".to_string()));
}

#[test]
fn syntax_errors_are_passed_on_in_order() {
    let bad = ModuleGroup { key: "exports".to_string(), content: Err("expected parentheses".to_string()) };
    let a = args(vec![list("providers", vec![]), bad]);
    assert!(matches!(plan_module(&a, false), Err(ModuleFault::Read(e)) if e == "expected parentheses"));
    let trailing = ModuleArgsInput { groups: vec![list("providers", vec![])], rest: Some("expected `,`".to_string()) };
    assert!(matches!(plan_module(&trailing, true), Err(ModuleFault::Read(e)) if e == "expected `,`"));
}
