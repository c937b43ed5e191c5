//! `#[module(...)]`: the declaration keys of a feature module (providers,
//! controllers, gRPC services, exports, imports, plugins, required plugins)
//! and the rules its argument list follows.

use vstd::prelude::*;

use crate::bean::{first_where, lemma_first_where};
use crate::text::{chars_of, push_str, str_is, string_of};

verus! {

/// One `plugins(...)` entry as written: its type, and the instance
/// expression after `=` (`None` where the `=` is missing; reading stops
/// there).
pub struct PluginSyntax<T, V> {
    pub ty: T,
    pub value: Option<V>,
}

/// One entry of any other key's list: a bean type, or a `module(A, B, ...)`
/// group.
pub enum ModuleEntry<T> {
    Bean(T),
    Modules(Vec<T>),
}

/// One `key(...)` of the argument list: the key, and its parenthesized
/// content read both as `Type = expr` entries and as type entries (the
/// content's own reading fails where there are no parentheses).
pub struct ModuleGroup<T, V, E> {
    pub key: String,
    pub content: Result<(Result<Vec<PluginSyntax<T, V>>, E>, Result<Vec<ModuleEntry<T>>, E>), E>,
}

/// The argument list: its groups in order, and the syntax error that
/// stops reading after them, if any.
pub struct ModuleArgsInput<T, V, E> {
    pub groups: Vec<ModuleGroup<T, V, E>>,
    pub rest: Option<E>,
}

/// Where a refusal points.
#[derive(PartialEq, Eq, Structural, Clone, Copy, Debug)]
pub enum ModuleSite {
    /// The key of the group at this position.
    Key(usize),
    /// Entry `.1` of the group at position `.0`.
    Entry(usize, usize),
    /// The struct's generics.
    Generics,
}

pub enum ModuleFault<'a, E> {
    Read(&'a E),
    At(ModuleSite, String),
}

pub enum MFaultSpec<E> {
    Read(E),
    At(ModuleSite, Seq<char>),
}

pub open spec fn mfault_view<'a, E>(f: ModuleFault<'a, E>) -> MFaultSpec<E> {
    match f {
        ModuleFault::Read(e) => MFaultSpec::Read(*e),
        ModuleFault::At(s, m) => MFaultSpec::At(s, m@),
    }
}

/// What the module declares, as values.
#[verifier::ext_equal]
pub struct ModuleSpec<T, V> {
    pub providers: Seq<T>,
    pub controllers: Seq<T>,
    pub exports: Seq<T>,
    pub imports: Seq<T>,
    pub import_modules: Seq<T>,
    pub requires_plugins: Seq<T>,
    pub plugins: Seq<(T, V)>,
    pub grpc_services: Seq<T>,
}

pub open spec fn empty_module<T, V>() -> ModuleSpec<T, V> {
    ModuleSpec {
        providers: Seq::empty(),
        controllers: Seq::empty(),
        exports: Seq::empty(),
        imports: Seq::empty(),
        import_modules: Seq::empty(),
        requires_plugins: Seq::empty(),
        plugins: Seq::empty(),
        grpc_services: Seq::empty(),
    }
}

pub open spec fn duplicate_key_msg(k: Seq<char>) -> Seq<char> {
    "duplicate `"@ + k + "(...)` in #[module]"@
}

pub open spec fn plugin_entry_msg() -> Seq<char> {
    "`plugins(...)` entries must be written `Type = expr` — e.g. `plugins(Scheduler = Scheduler::default())`. The plugin type is needed at compile time (it grows the provision list); the expression is the instance to install. If the module only *needs* a plugin installed elsewhere, use `requires_plugins(Scheduler)` instead"@
}

pub open spec fn module_outside_imports_msg(k: Seq<char>) -> Seq<char> {
    "`module(...)` is only valid inside `imports(...)`, not `"@ + k + "(...)` — module imports go in `imports(...)`"@
}

pub open spec fn unknown_module_key_msg(k: Seq<char>) -> Seq<char> {
    "unknown key `"@ + k
        + "` in #[module] — expected `providers`, `controllers`, `grpc_services`, `exports`, `imports`, `plugins`, or `requires_plugins`"@
}

pub open spec fn generic_module_msg() -> Seq<char> {
    "#[module] does not support generic structs"@
}

/// The bean types of a list of entries, in order.
pub open spec fn beans_of<T>(es: Seq<ModuleEntry<T>>) -> Seq<T>
    decreases es.len(),
{
    if es.len() == 0 {
        Seq::empty()
    } else {
        beans_of(es.drop_last()) + match es.last() {
            ModuleEntry::Bean(t) => seq![t],
            ModuleEntry::Modules(_) => Seq::empty(),
        }
    }
}

/// The module types of the `module(...)` groups of a list, in order.
pub open spec fn modules_of<T>(es: Seq<ModuleEntry<T>>) -> Seq<T>
    decreases es.len(),
{
    if es.len() == 0 {
        Seq::empty()
    } else {
        modules_of(es.drop_last()) + match es.last() {
            ModuleEntry::Bean(_) => Seq::empty(),
            ModuleEntry::Modules(ts) => ts@,
        }
    }
}

/// The keys that take a plain list of bean types.
pub open spec fn bean_list_key(k: Seq<char>) -> bool {
    k == "providers"@ || k == "controllers"@ || k == "exports"@ || k == "requires_plugins"@ || k
        == "grpc_services"@
}

/// `m` with the bean-list key `k` set to `ts`.
pub open spec fn with_list<T, V>(m: ModuleSpec<T, V>, k: Seq<char>, ts: Seq<T>) -> ModuleSpec<T, V> {
    if k == "providers"@ {
        ModuleSpec { providers: ts, ..m }
    } else if k == "controllers"@ {
        ModuleSpec { controllers: ts, ..m }
    } else if k == "exports"@ {
        ModuleSpec { exports: ts, ..m }
    } else if k == "requires_plugins"@ {
        ModuleSpec { requires_plugins: ts, ..m }
    } else {
        ModuleSpec { grpc_services: ts, ..m }
    }
}

/// The plugin entries as (type, instance).
pub open spec fn plugin_pairs<T, V>(ps: Seq<PluginSyntax<T, V>>) -> Seq<(T, V)> {
    ps.map_values(|p: PluginSyntax<T, V>| (p.ty, p.value->Some_0))
}

/// One group of the argument list, at position `i`, after the keys `seen`
/// and the declarations `m`.
pub open spec fn group_step<T, V, E>(g: ModuleGroup<T, V, E>, i: int, seen: Seq<Seq<char>>, m: ModuleSpec<T, V>) -> Result<
    ModuleSpec<T, V>,
    MFaultSpec<E>,
> {
    let k = g.key@;
    let at = ModuleSite::Key(i as usize);
    if seen.contains(k) {
        Err(MFaultSpec::At(at, duplicate_key_msg(k)))
    } else {
        match g.content {
            Err(e) => Err(MFaultSpec::Read(e)),
            Ok((plugins, entries)) => if k == "plugins"@ {
                match plugins {
                    Err(e) => Err(MFaultSpec::Read(e)),
                    Ok(ps) => match first_where(ps@, |p: PluginSyntax<T, V>| p.value is None) {
                        Some(j) => Err(MFaultSpec::At(ModuleSite::Entry(i as usize, j as usize), plugin_entry_msg())),
                        None => Ok(ModuleSpec { plugins: plugin_pairs(ps@), ..m }),
                    },
                }
            } else {
                match entries {
                    Err(e) => Err(MFaultSpec::Read(e)),
                    Ok(es) => if k == "imports"@ {
                        Ok(
                            ModuleSpec {
                                imports: m.imports + beans_of(es@),
                                import_modules: m.import_modules + modules_of(es@),
                                ..m
                            },
                        )
                    } else if bean_list_key(k) {
                        match first_where(es@, |e: ModuleEntry<T>| e is Modules) {
                            Some(j) => Err(
                                MFaultSpec::At(
                                    ModuleSite::Entry(i as usize, j as usize),
                                    module_outside_imports_msg(k),
                                ),
                            ),
                            None => Ok(with_list(m, k, beans_of(es@))),
                        }
                    } else {
                        Err(MFaultSpec::At(at, unknown_module_key_msg(k)))
                    },
                }
            },
        }
    }
}

/// The keys of a list of groups.
pub open spec fn keys_of<T, V, E>(gs: Seq<ModuleGroup<T, V, E>>) -> Seq<Seq<char>> {
    gs.map_values(|g: ModuleGroup<T, V, E>| g.key@)
}

/// The declarations of the groups, read left to right.
pub open spec fn groups_outcome<T, V, E>(gs: Seq<ModuleGroup<T, V, E>>) -> Result<ModuleSpec<T, V>, MFaultSpec<E>>
    decreases gs.len(),
{
    if gs.len() == 0 {
        Ok(empty_module())
    } else {
        match groups_outcome(gs.drop_last()) {
            Err(f) => Err(f),
            Ok(m) => group_step(gs.last(), gs.len() - 1, keys_of(gs.drop_last()), m),
        }
    }
}

/// The declarations of `#[module(...)]` on a struct, or why it is refused;
/// a generic struct is refused once the arguments are read.
pub open spec fn module_outcome<T, V, E>(args: ModuleArgsInput<T, V, E>, generic: bool) -> Result<
    ModuleSpec<T, V>,
    MFaultSpec<E>,
> {
    match groups_outcome(args.groups@) {
        Err(f) => Err(f),
        Ok(m) => match args.rest {
            Some(e) => Err(MFaultSpec::Read(e)),
            None => if generic {
                Err(MFaultSpec::At(ModuleSite::Generics, generic_module_msg()))
            } else {
                Ok(m)
            },
        },
    }
}

proof fn lemma_groups_stop<T, V, E>(gs: Seq<ModuleGroup<T, V, E>>, i: int)
    requires
        0 <= i <= gs.len(),
        groups_outcome(gs.take(i)) is Err,
    ensures
        groups_outcome(gs) == groups_outcome(gs.take(i)),
    decreases gs.len() - i,
{
    if i == gs.len() {
        assert(gs.take(i) =~= gs);
    } else {
        assert(gs.drop_last().take(i) =~= gs.take(i));
        lemma_groups_stop(gs.drop_last(), i);
    }
}

/// The values behind a list of references.
pub open spec fn derefs<'a, T>(v: Seq<&'a T>) -> Seq<T> {
    v.map_values(|x: &'a T| *x)
}

/// What `#[module(...)]` declares: each key's list, in the order written.
/// A module that owns gRPC services also requires the gRPC server plugin.
pub struct ModuleArgs<'a, T, V> {
    pub providers: Vec<&'a T>,
    pub controllers: Vec<&'a T>,
    pub exports: Vec<&'a T>,
    pub imports: Vec<&'a T>,
    pub import_modules: Vec<&'a T>,
    pub requires_plugins: Vec<&'a T>,
    pub plugins: Vec<(&'a T, &'a V)>,
    pub grpc_services: Vec<&'a T>,
}

pub open spec fn module_view<'a, T, V>(m: ModuleArgs<'a, T, V>) -> ModuleSpec<T, V> {
    ModuleSpec {
        providers: derefs(m.providers@),
        controllers: derefs(m.controllers@),
        exports: derefs(m.exports@),
        imports: derefs(m.imports@),
        import_modules: derefs(m.import_modules@),
        requires_plugins: derefs(m.requires_plugins@),
        plugins: m.plugins@.map_values(|p: (&'a T, &'a V)| (*p.0, *p.1)),
        grpc_services: derefs(m.grpc_services@),
    }
}

fn msg(s: &str) -> (r: String)
    ensures
        r@ == s@,
{
    string_of(&chars_of(s))
}

/// Whether `seen` holds `k`.
fn seen_key<'a>(seen: &Vec<&'a String>, k: &String) -> (r: bool)
    ensures
        r == seen@.map_values(|s: &'a String| s@).contains(k@),
{
    let ghost sv = seen@.map_values(|s: &'a String| s@);
    let mut i: usize = 0;
    while i < seen.len()
        invariant
            0 <= i <= seen@.len(),
            sv == seen@.map_values(|s: &'a String| s@),
            forall|j: int| 0 <= j < i ==> sv[j] != k@,
        decreases seen@.len() - i,
    {
        if str_is(seen[i].as_str(), k.as_str()) {
            assert(sv[i as int] == k@);
            return true;
        }
        i = i + 1;
    }
    false
}

/// The bean types of a list of entries, and the module types of its
/// `module(...)` groups, appended to `beans` and `modules`.
fn split_entries<'a, T>(es: &'a Vec<ModuleEntry<T>>, beans: &mut Vec<&'a T>, modules: &mut Vec<&'a T>)
    ensures
        derefs(final(beans)@) == derefs(old(beans)@) + beans_of(es@),
        derefs(final(modules)@) == derefs(old(modules)@) + modules_of(es@),
{
    let ghost b0 = derefs(beans@);
    let ghost m0 = derefs(modules@);
    let mut i: usize = 0;
    proof {
        assert(es@.take(0) =~= Seq::<ModuleEntry<T>>::empty());
        assert(b0 + beans_of(es@.take(0)) =~= b0);
        assert(m0 + modules_of(es@.take(0)) =~= m0);
    }
    while i < es.len()
        invariant
            0 <= i <= es@.len(),
            derefs(beans@) == b0 + beans_of(es@.take(i as int)),
            derefs(modules@) == m0 + modules_of(es@.take(i as int)),
        decreases es@.len() - i,
    {
        proof {
            assert(es@.take(i + 1).drop_last() =~= es@.take(i as int));
            assert(es@.take(i + 1).last() == es@[i as int]);
        }
        match &es[i] {
            ModuleEntry::Bean(t) => {
                let ghost before = beans@;
                beans.push(t);
                proof {
                    assert(derefs(beans@) =~= derefs(before).push(*t));
                    assert(b0 + beans_of(es@.take(i + 1)) =~= b0 + beans_of(es@.take(i as int)) + seq![*t]);
                    assert(m0 + modules_of(es@.take(i + 1)) =~= m0 + modules_of(es@.take(i as int)));
                }
            },
            ModuleEntry::Modules(ts) => {
                let ghost before = modules@;
                let mut j: usize = 0;
                while j < ts.len()
                    invariant
                        0 <= j <= ts@.len(),
                        derefs(modules@) == derefs(before) + ts@.take(j as int),
                    decreases ts@.len() - j,
                {
                    let ghost b = modules@;
                    modules.push(&ts[j]);
                    proof {
                        assert(derefs(modules@) =~= derefs(b).push(ts@[j as int]));
                        assert(ts@.take(j + 1) =~= ts@.take(j as int).push(ts@[j as int]));
                        assert(derefs(before) + ts@.take(j + 1) =~= (derefs(before) + ts@.take(j as int)).push(
                            ts@[j as int],
                        ));
                    }
                    j = j + 1;
                }
                proof {
                    assert(ts@.take(j as int) =~= ts@);
                    assert(m0 + modules_of(es@.take(i + 1)) =~= m0 + modules_of(es@.take(i as int)) + ts@);
                    assert(b0 + beans_of(es@.take(i + 1)) =~= b0 + beans_of(es@.take(i as int)));
                }
            },
        }
        i = i + 1;
    }
    proof {
        assert(es@.take(i as int) =~= es@);
    }
}

/// The position of the first `module(...)` group in a list.
fn first_module_group<T>(es: &Vec<ModuleEntry<T>>) -> (r: Option<usize>)
    ensures
        match r {
            Some(j) => first_where(es@, |e: ModuleEntry<T>| e is Modules) == Some(j as int),
            None => first_where(es@, |e: ModuleEntry<T>| e is Modules) is None,
        },
{
    let ghost p = |e: ModuleEntry<T>| e is Modules;
    proof {
        lemma_first_where(es@, p);
    }
    let mut i: usize = 0;
    while i < es.len()
        invariant
            0 <= i <= es@.len(),
            p == (|e: ModuleEntry<T>| e is Modules),
            forall|k: int| 0 <= k < i ==> !p(#[trigger] es@[k]),
            match first_where(es@, p) {
                Some(j) => 0 <= j < es@.len() && p(es@[j]) && forall|k: int| 0 <= k < j ==> !p(#[trigger] es@[k]),
                None => forall|k: int| 0 <= k < es@.len() ==> !p(#[trigger] es@[k]),
            },
        decreases es@.len() - i,
    {
        if let ModuleEntry::Modules(_) = &es[i] {
            return Some(i);
        }
        i = i + 1;
    }
    None
}

/// The position of the first plugin entry without `=`.
fn first_missing_value<T, V>(ps: &Vec<PluginSyntax<T, V>>) -> (r: Option<usize>)
    ensures
        match r {
            Some(j) => first_where(ps@, |p: PluginSyntax<T, V>| p.value is None) == Some(j as int),
            None => first_where(ps@, |p: PluginSyntax<T, V>| p.value is None) is None,
        },
{
    let ghost p = |p: PluginSyntax<T, V>| p.value is None;
    proof {
        lemma_first_where(ps@, p);
    }
    let mut i: usize = 0;
    while i < ps.len()
        invariant
            0 <= i <= ps@.len(),
            p == (|p: PluginSyntax<T, V>| p.value is None),
            forall|k: int| 0 <= k < i ==> !p(#[trigger] ps@[k]),
            match first_where(ps@, p) {
                Some(j) => 0 <= j < ps@.len() && p(ps@[j]) && forall|k: int| 0 <= k < j ==> !p(#[trigger] ps@[k]),
                None => forall|k: int| 0 <= k < ps@.len() ==> !p(#[trigger] ps@[k]),
            },
        decreases ps@.len() - i,
    {
        if ps[i].value.is_none() {
            return Some(i);
        }
        i = i + 1;
    }
    None
}

/// The pairs of a list of plugin entries that all have a value.
fn plugin_refs<'a, T, V>(ps: &'a Vec<PluginSyntax<T, V>>) -> (r: Vec<(&'a T, &'a V)>)
    requires
        forall|k: int| 0 <= k < ps@.len() ==> !(#[trigger] ps@[k].value is None),
    ensures
        r@.map_values(|p: (&'a T, &'a V)| (*p.0, *p.1)) == plugin_pairs(ps@),
{
    let mut out: Vec<(&'a T, &'a V)> = Vec::new();
    let mut i: usize = 0;
    while i < ps.len()
        invariant
            0 <= i <= ps@.len(),
            forall|k: int| 0 <= k < ps@.len() ==> !(#[trigger] ps@[k].value is None),
            out@.map_values(|p: (&'a T, &'a V)| (*p.0, *p.1)) == plugin_pairs(ps@.take(i as int)),
        decreases ps@.len() - i,
    {
        let e = &ps[i];
        match &e.value {
            Some(v) => {
                let ghost before = out@;
                out.push((&e.ty, v));
                proof {
                    assert(out@.map_values(|p: (&'a T, &'a V)| (*p.0, *p.1)) =~= before.map_values(
                        |p: (&'a T, &'a V)| (*p.0, *p.1),
                    ).push((e.ty, *v)));
                    assert(plugin_pairs(ps@.take(i + 1)) =~= plugin_pairs(ps@.take(i as int)).push(
                        (e.ty, *v),
                    ));
                }
            },
            None => {
                assert(false);
            },
        }
        i = i + 1;
    }
    proof {
        assert(ps@.take(i as int) =~= ps@);
    }
    out
}

/// `prefix`, the key, then `suffix`.
fn keyed_msg(prefix: &str, key: &String, suffix: &str) -> (r: String)
    ensures
        r@ == prefix@ + key@ + suffix@,
{
    let mut v = chars_of(prefix);
    push_str(&mut v, key.as_str());
    push_str(&mut v, suffix);
    string_of(&v)
}

/// Read the groups of `#[module(...)]` and the struct it decorates into the
/// module's declarations.
pub fn plan_module<'a, T, V, E>(args: &'a ModuleArgsInput<T, V, E>, generic: bool) -> (r: Result<
    ModuleArgs<'a, T, V>,
    ModuleFault<'a, E>,
>)
    ensures
        match r {
            Ok(m) => module_outcome(*args, generic) == Ok::<ModuleSpec<T, V>, MFaultSpec<E>>(module_view(m)),
            Err(f) => module_outcome(*args, generic) == Err::<ModuleSpec<T, V>, MFaultSpec<E>>(mfault_view(f)),
        },
{
    let gs = &args.groups;
    let mut m = ModuleArgs {
        providers: Vec::new(),
        controllers: Vec::new(),
        exports: Vec::new(),
        imports: Vec::new(),
        import_modules: Vec::new(),
        requires_plugins: Vec::new(),
        plugins: Vec::new(),
        grpc_services: Vec::new(),
    };
    let mut seen: Vec<&'a String> = Vec::new();
    let mut i: usize = 0;
    proof {
        assert(gs@.take(0) =~= Seq::<ModuleGroup<T, V, E>>::empty());
        assert(module_view(m) =~= empty_module::<T, V>());
        assert(seen@.map_values(|s: &'a String| s@) =~= keys_of(gs@.take(0)));
    }
    while i < gs.len()
        invariant
            0 <= i <= gs@.len(),
            gs == &args.groups,
            groups_outcome(gs@.take(i as int)) == Ok::<ModuleSpec<T, V>, MFaultSpec<E>>(module_view(m)),
            seen@.map_values(|s: &'a String| s@) == keys_of(gs@.take(i as int)),
        decreases gs@.len() - i,
    {
        let ghost m0 = module_view(m);
        proof {
            assert(gs@.take(i + 1).drop_last() =~= gs@.take(i as int));
            assert(gs@.take(i + 1).last() == gs@[i as int]);
            reveal_strlit("plugins");
            reveal_strlit("imports");
            reveal_strlit("providers");
            reveal_strlit("controllers");
            reveal_strlit("exports");
            reveal_strlit("requires_plugins");
            reveal_strlit("grpc_services");
        }
        let g = &gs[i];
        if seen_key(&seen, &g.key) {
            let f = ModuleFault::At(ModuleSite::Key(i), keyed_msg("duplicate `", &g.key, "(...)` in #[module]"));
            proof {
                lemma_groups_stop(gs@, i + 1);
            }
            return Err(f);
        }
        let (plugins, entries) = match &g.content {
            Err(e) => {
                proof {
                    lemma_groups_stop(gs@, i + 1);
                }
                return Err(ModuleFault::Read(e));
            },
            Ok((p, e)) => (p, e),
        };
        if str_is(g.key.as_str(), "plugins") {
            let ps = match plugins {
                Err(e) => {
                    proof {
                        lemma_groups_stop(gs@, i + 1);
                    }
                    return Err(ModuleFault::Read(e));
                },
                Ok(ps) => ps,
            };
            match first_missing_value(ps) {
                Some(j) => {
                    let f = ModuleFault::At(
                        ModuleSite::Entry(i, j),
                        msg(
                            "`plugins(...)` entries must be written `Type = expr` — e.g. `plugins(Scheduler = Scheduler::default())`. The plugin type is needed at compile time (it grows the provision list); the expression is the instance to install. If the module only *needs* a plugin installed elsewhere, use `requires_plugins(Scheduler)` instead",
                        ),
                    );
                    proof {
                        lemma_groups_stop(gs@, i + 1);
                    }
                    return Err(f);
                },
                None => {},
            }
            proof {
                lemma_first_where(ps@, |p: PluginSyntax<T, V>| p.value is None);
            }
            m.plugins = plugin_refs(ps);
            proof {
                assert(module_view(m) =~= ModuleSpec { plugins: plugin_pairs(ps@), ..m0 });
            }
        } else {
            let es = match entries {
                Err(e) => {
                    proof {
                        lemma_groups_stop(gs@, i + 1);
                    }
                    return Err(ModuleFault::Read(e));
                },
                Ok(es) => es,
            };
            if str_is(g.key.as_str(), "imports") {
                split_entries(es, &mut m.imports, &mut m.import_modules);
                proof {
                    assert(module_view(m) =~= ModuleSpec {
                        imports: m0.imports + beans_of(es@),
                        import_modules: m0.import_modules + modules_of(es@),
                        ..m0
                    });
                }
            } else {
                let k = g.key.as_str();
                let listed = str_is(k, "providers") || str_is(k, "controllers") || str_is(k, "exports")
                    || str_is(k, "requires_plugins") || str_is(k, "grpc_services");
                if !listed {
                    let f = ModuleFault::At(
                        ModuleSite::Key(i),
                        keyed_msg(
                            "unknown key `",
                            &g.key,
                            "` in #[module] — expected `providers`, `controllers`, `grpc_services`, `exports`, `imports`, `plugins`, or `requires_plugins`",
                        ),
                    );
                    proof {
                        lemma_groups_stop(gs@, i + 1);
                    }
                    return Err(f);
                }
                match first_module_group(es) {
                    Some(j) => {
                        let f = ModuleFault::At(
                            ModuleSite::Entry(i, j),
                            keyed_msg(
                                "`module(...)` is only valid inside `imports(...)`, not `",
                                &g.key,
                                "(...)` — module imports go in `imports(...)`",
                            ),
                        );
                        proof {
                            lemma_groups_stop(gs@, i + 1);
                        }
                        return Err(f);
                    },
                    None => {},
                }
                let mut beans: Vec<&'a T> = Vec::new();
                let mut none: Vec<&'a T> = Vec::new();
                split_entries(es, &mut beans, &mut none);
                proof {
                    assert(derefs(Seq::<&'a T>::empty()) =~= Seq::<T>::empty());
                    assert(derefs(beans@) =~= beans_of(es@));
                }
                if str_is(k, "providers") {
                    m.providers = beans;
                } else if str_is(k, "controllers") {
                    m.controllers = beans;
                } else if str_is(k, "exports") {
                    m.exports = beans;
                } else if str_is(k, "requires_plugins") {
                    m.requires_plugins = beans;
                } else {
                    m.grpc_services = beans;
                }
                proof {
                    assert(module_view(m) =~= with_list(m0, g.key@, beans_of(es@)));
                }
            }
        }
        let ghost s0 = seen@;
        seen.push(&g.key);
        proof {
            assert(seen@.map_values(|s: &'a String| s@) =~= s0.map_values(|s: &'a String| s@).push(g.key@));
            assert(keys_of(gs@.take(i + 1)) =~= keys_of(gs@.take(i as int)).push(g.key@));
        }
        i = i + 1;
    }
    proof {
        assert(gs@.take(i as int) =~= gs@);
    }
    match &args.rest {
        Some(e) => return Err(ModuleFault::Read(e)),
        None => {},
    }
    if generic {
        return Err(ModuleFault::At(ModuleSite::Generics, msg("#[module] does not support generic structs")));
    }
    Ok(m)
}

// ── laws ────────────────────────────────────────────────────────────────

proof fn lemma_entries_concat<T>(s: Seq<ModuleEntry<T>>, t: Seq<ModuleEntry<T>>)
    ensures
        modules_of(s + t) == modules_of(s) + modules_of(t),
        beans_of(s + t) == beans_of(s) + beans_of(t),
    decreases t.len(),
{
    if t.len() == 0 {
        assert(s + t =~= s);
        assert(modules_of(s) + modules_of(t) =~= modules_of(s));
        assert(beans_of(s) + beans_of(t) =~= beans_of(s));
    } else {
        lemma_entries_concat(s, t.drop_last());
        assert((s + t).drop_last() =~= s + t.drop_last());
        assert((s + t).last() == t.last());
        assert(modules_of(s + t) =~= modules_of(s) + modules_of(t));
        assert(beans_of(s + t) =~= beans_of(s) + beans_of(t));
    }
}

/// How module imports are grouped does not matter: `module(A, B)` and
/// `module(A), module(B)` import the same modules, and the same beans, in
/// the same order, wherever they stand in the list.
pub proof fn lemma_module_grouping<T>(
    pre: Seq<ModuleEntry<T>>,
    post: Seq<ModuleEntry<T>>,
    x: Vec<T>,
    y: Vec<T>,
    xy: Vec<T>,
)
    requires
        xy@ == x@ + y@,
    ensures
        modules_of(pre + seq![ModuleEntry::Modules(xy)] + post) == modules_of(
            pre + seq![ModuleEntry::Modules(x), ModuleEntry::Modules(y)] + post,
        ),
        beans_of(pre + seq![ModuleEntry::Modules(xy)] + post) == beans_of(
            pre + seq![ModuleEntry::Modules(x), ModuleEntry::Modules(y)] + post,
        ),
{
    let one = seq![ModuleEntry::Modules(xy)];
    let two = seq![ModuleEntry::Modules(x), ModuleEntry::Modules(y)];
    lemma_entries_concat(pre + one, post);
    lemma_entries_concat(pre + two, post);
    lemma_entries_concat(pre, one);
    lemma_entries_concat(pre, two);
    assert(one.drop_last() =~= Seq::<ModuleEntry<T>>::empty());
    assert(two.drop_last() =~= seq![ModuleEntry::Modules(x)]);
    assert(two.drop_last().drop_last() =~= Seq::<ModuleEntry<T>>::empty());
    assert(one.last() == ModuleEntry::Modules(xy));
    assert(two.last() == ModuleEntry::Modules(y));
    assert(two.drop_last().last() == ModuleEntry::Modules(x));
    assert(modules_of(Seq::<ModuleEntry<T>>::empty()) =~= Seq::<T>::empty());
    assert(modules_of(two.drop_last()) =~= x@);
    assert(modules_of(one) =~= xy@);
    assert(modules_of(two) =~= x@ + y@);
    assert(beans_of(Seq::<ModuleEntry<T>>::empty()) =~= Seq::<T>::empty());
    assert(beans_of(two.drop_last()) =~= Seq::<T>::empty());
    assert(beans_of(one) =~= Seq::<T>::empty());
    assert(beans_of(two) =~= Seq::<T>::empty());
}

} // verus!
