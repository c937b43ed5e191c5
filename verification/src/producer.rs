//! `#[producer]` on a free function: the bean it registers (the return
//! type, split when it is a `Result`), what each parameter resolves from,
//! and the ordering-only `after(..)` edges.

use vstd::prelude::*;

use crate::bean::{includes_name, names_include};
use crate::naming::{renamed, RenameAll};
use crate::text::{chars_of, str_is, string_of};
use crate::types::{unwrap_option_type, wrapped_in, GenArg, SegArgs, Ty, TyKind};

verus! {

/// A parameter of the producer function. A typed parameter carries its
/// attribute names and what reading each data-carrying annotation (and each
/// check on its annotations) gives; a reading is consulted only where the
/// annotation calls for it.
pub enum ProducerParam<E> {
    Receiver,
    Typed {
        ty: Ty,
        attr_names: Vec<Option<String>>,
        /// The check that `#[inject(...)]` carries no bean name.
        inject_check: Result<(), E>,
        /// The check that `#[live_config]` is not combined with another
        /// configuration annotation.
        live_exclusive: Result<(), E>,
        section_prefix: Result<String, E>,
        /// Key and type name of `#[config("...")]`.
        config: Result<(String, String), E>,
        /// Key and type name of `#[live_config("...")]`.
        live_config: Result<(String, String), E>,
    },
}

/// The producer function: its name, `async`, the check that it is not
/// `unsafe`, its return type (`None` where none is written), the check that
/// this type is not a one-argument `Result` alias, and its parameters.
pub struct ProducerFn<E> {
    pub ident: String,
    pub is_async: bool,
    pub unsafe_check: Result<(), E>,
    pub output: Option<Ty>,
    pub alias_check: Result<(), E>,
    pub params: Vec<ProducerParam<E>>,
}

/// `#[producer(start, after(A, B))]`.
pub struct ProducerArgs {
    pub start: bool,
    pub after: Vec<Ty>,
}

#[derive(PartialEq, Eq, Structural, Clone, Copy, Debug)]
pub enum ProducerSite {
    /// The function's name.
    FnName,
    /// The `after(..)` type at this position.
    After(usize),
}

pub enum ProducerFault<'a, E> {
    Read(&'a E),
    At(ProducerSite, String),
}

pub enum PFaultSpec<E> {
    Read(E),
    At(ProducerSite, Seq<char>),
}

pub open spec fn pfault_view<'a, E>(f: ProducerFault<'a, E>) -> PFaultSpec<E> {
    match f {
        ProducerFault::Read(e) => PFaultSpec::Read(*e),
        ProducerFault::At(s, m) => PFaultSpec::At(s, m@),
    }
}

/// Where a parameter's value comes from.
pub enum ProducerDep<'a> {
    /// The bean registered for the parameter's type.
    ByType(&'a Ty),
    /// `#[config_section(prefix = "...")]`.
    Section(&'a String),
    /// `#[config("...")]`: key, type name, and whether the parameter is an `Option`.
    Config { key: &'a String, ty_name: &'a String, is_option: bool },
    /// `#[live_config("...")]`: key and type name.
    Live { key: &'a String, ty_name: &'a String },
}

pub enum PDepSpec {
    ByType(Ty),
    Section(Seq<char>),
    Config { key: Seq<char>, ty_name: Seq<char>, is_option: bool },
    Live { key: Seq<char>, ty_name: Seq<char> },
}

pub open spec fn pdep_view<'a>(d: ProducerDep<'a>) -> PDepSpec {
    match d {
        ProducerDep::ByType(t) => PDepSpec::ByType(*t),
        ProducerDep::Section(p) => PDepSpec::Section(p@),
        ProducerDep::Config { key, ty_name, is_option } => PDepSpec::Config {
            key: key@,
            ty_name: ty_name@,
            is_option,
        },
        ProducerDep::Live { key, ty_name } => PDepSpec::Live { key: key@, ty_name: ty_name@ },
    }
}

pub open spec fn no_return_msg() -> Seq<char> {
    "#[producer] function must have a return type:\n\n  #[producer]\n  async fn create_pool() -> SqlitePool { ... }"@
}

pub open spec fn producer_self_msg() -> Seq<char> {
    "#[producer] must be a free function (no `self` parameter):\n\n  #[producer]\n  async fn create_pool(#[config(\"app.db.url\")] url: String) -> SqlitePool { ... }"@
}

pub open spec fn after_duplicate_msg() -> Seq<char> {
    "`after(..)` names a type this producer already takes as a parameter — a parameter is already a dependency edge; drop it from `after(..)`"@
}

/// `(T, E)` of a return type written `Result<T, E>`.
pub open spec fn result_split(t: Ty) -> Option<(Ty, Ty)> {
    match crate::types::last_seg(t) {
        Some(s) => if s.ident@ == "Result"@ {
            match s.args {
                SegArgs::Angle(a) => if a@.len() == 2 && a@[0] is Type && a@[1] is Type {
                    Some((a@[0]->Type_0, a@[1]->Type_0))
                } else {
                    None
                },
                _ => None,
            }
        } else {
            None
        },
        None => None,
    }
}

/// What the parameter resolves from.
pub open spec fn producer_dep<E>(p: ProducerParam<E>) -> Result<PDepSpec, E> {
    match p {
        ProducerParam::Receiver => Err(arbitrary()),
        ProducerParam::Typed { ty, attr_names, inject_check, live_exclusive, section_prefix, config, live_config } => {
            match inject_check {
                Err(e) => Err(e),
                Ok(_) => match live_exclusive {
                    Err(e) => Err(e),
                    Ok(_) => if names_include(attr_names@, "config_section"@) {
                        match section_prefix {
                            Err(e) => Err(e),
                            Ok(p) => Ok(PDepSpec::Section(p@)),
                        }
                    } else if names_include(attr_names@, "config"@) {
                        match config {
                            Err(e) => Err(e),
                            Ok((k, t)) => Ok(
                                PDepSpec::Config {
                                    key: k@,
                                    ty_name: t@,
                                    is_option: wrapped_in(ty, "Option"@) is Some,
                                },
                            ),
                        }
                    } else if names_include(attr_names@, "live_config"@) {
                        match live_config {
                            Err(e) => Err(e),
                            Ok((k, t)) => Ok(PDepSpec::Live { key: k@, ty_name: t@ }),
                        }
                    } else {
                        Ok(PDepSpec::ByType(ty))
                    },
                },
            }
        },
    }
}

/// What the parameters resolve from, in order; the first failing reading stops it.
pub open spec fn producer_deps<E>(ps: Seq<ProducerParam<E>>) -> Result<Seq<PDepSpec>, E>
    decreases ps.len(),
{
    if ps.len() == 0 {
        Ok(Seq::empty())
    } else {
        match producer_deps(ps.drop_last()) {
            Err(e) => Err(e),
            Ok(acc) => match producer_dep(ps.last()) {
                Err(e) => Err(e),
                Ok(d) => Ok(acc.push(d)),
            },
        }
    }
}

proof fn lemma_producer_deps_stop<E>(ps: Seq<ProducerParam<E>>, i: int)
    requires
        0 <= i <= ps.len(),
        producer_deps(ps.take(i)) is Err,
    ensures
        producer_deps(ps) == producer_deps(ps.take(i)),
    decreases ps.len() - i,
{
    if i == ps.len() {
        assert(ps.take(i) =~= ps);
    } else {
        assert(ps.drop_last().take(i) =~= ps.take(i));
        lemma_producer_deps_stop(ps.drop_last(), i);
    }
}

/// Whether a parameter list has a receiver.
pub open spec fn has_receiver<E>(ps: Seq<ProducerParam<E>>) -> bool {
    exists|k: int| 0 <= k < ps.len() && #[trigger] ps[k] is Receiver
}

/// The types of the by-type dependencies, in order.
pub open spec fn by_type_tys(ds: Seq<PDepSpec>) -> Seq<Ty>
    decreases ds.len(),
{
    if ds.len() == 0 {
        Seq::empty()
    } else {
        by_type_tys(ds.drop_last()) + match ds.last() {
            PDepSpec::ByType(t) => seq![t],
            _ => Seq::empty(),
        }
    }
}

/// The position of the first `after(..)` type whose rendering is that of a
/// type before it: a by-type parameter, or an earlier `after(..)` type.
pub open spec fn after_clash(before: Seq<Ty>, after: Seq<Ty>) -> Option<int>
    decreases after.len(),
{
    if after.len() == 0 {
        None
    } else {
        match after_clash(before, after.drop_last()) {
            Some(k) => Some(k),
            None => if exists|j: int|
                0 <= j < before.len() + after.len() - 1 && (#[trigger] (before + after.drop_last())[j]).tokens@
                    == after.last().tokens@ {
                Some(after.len() - 1)
            } else {
                None
            },
        }
    }
}

/// What `#[producer]` registers, as values.
pub struct ProducerSpec {
    pub struct_name: Seq<char>,
    pub is_async: bool,
    pub declared: Ty,
    pub split: Option<(Ty, Ty)>,
    pub params: Seq<PDepSpec>,
    pub dep_types: Seq<Ty>,
    pub has_config: bool,
    pub has_live_config: bool,
    pub start: bool,
}

/// Whether some parameter reads a configuration value or section.
pub open spec fn reads_static_config(ds: Seq<PDepSpec>) -> bool {
    exists|k: int| 0 <= k < ds.len() && (#[trigger] ds[k] is Section || ds[k] is Config)
}

/// Whether some parameter reads a live configuration value.
pub open spec fn reads_live_config(ds: Seq<PDepSpec>) -> bool {
    exists|k: int| 0 <= k < ds.len() && #[trigger] ds[k] is Live
}

/// What `#[producer]` registers for a function, or why it refuses it:
/// the `unsafe` check, a return type, the alias check, no receiver, each
/// parameter's resolution, then no `after(..)` type named twice.
pub open spec fn producer_outcome<E>(f: ProducerFn<E>, args: ProducerArgs) -> Result<ProducerSpec, PFaultSpec<E>> {
    match f.unsafe_check {
        Err(e) => Err(PFaultSpec::Read(e)),
        Ok(_) => match f.output {
            None => Err(PFaultSpec::At(ProducerSite::FnName, no_return_msg())),
            Some(declared) => match f.alias_check {
                Err(e) => Err(PFaultSpec::Read(e)),
                Ok(_) => if has_receiver(f.params@) {
                    Err(PFaultSpec::At(ProducerSite::FnName, producer_self_msg()))
                } else {
                    match producer_deps(f.params@) {
                        Err(e) => Err(PFaultSpec::Read(e)),
                        Ok(ds) => match after_clash(by_type_tys(ds), args.after@) {
                            Some(k) => Err(PFaultSpec::At(ProducerSite::After(k as usize), after_duplicate_msg())),
                            None => Ok(
                                ProducerSpec {
                                    struct_name: renamed(RenameAll::Pascal, f.ident@),
                                    is_async: f.is_async,
                                    declared,
                                    split: result_split(declared),
                                    params: ds,
                                    dep_types: by_type_tys(ds) + args.after@,
                                    has_config: reads_static_config(ds),
                                    has_live_config: reads_live_config(ds),
                                    start: args.start,
                                },
                            ),
                        },
                    }
                },
            },
        },
    }
}

/// What `#[producer]` registers, with references into the function.
pub struct ProducerPlan<'a> {
    /// The generated struct's name: the function's, in PascalCase.
    pub struct_name: String,
    pub is_async: bool,
    /// The declared return type: the bean, unless it is split.
    pub declared: &'a Ty,
    /// `(T, E)` when the return type is `Result<T, E>`: the bean is `T`,
    /// and an `E` aborts the build.
    pub split: Option<(&'a Ty, &'a Ty)>,
    pub params: Vec<ProducerDep<'a>>,
    /// The bean types built before this one: the by-type parameters, then
    /// the `after(..)` types.
    pub dep_types: Vec<&'a Ty>,
    pub has_config: bool,
    pub has_live_config: bool,
    pub start: bool,
}

pub open spec fn producer_view<'a>(p: ProducerPlan<'a>) -> ProducerSpec {
    ProducerSpec {
        struct_name: p.struct_name@,
        is_async: p.is_async,
        declared: *p.declared,
        split: match p.split {
            Some((a, b)) => Some((*a, *b)),
            None => None,
        },
        params: p.params@.map_values(|d: ProducerDep<'a>| pdep_view(d)),
        dep_types: p.dep_types@.map_values(|t: &'a Ty| *t),
        has_config: p.has_config,
        has_live_config: p.has_live_config,
        start: p.start,
    }
}

fn msg(s: &str) -> (r: String)
    ensures
        r@ == s@,
{
    string_of(&chars_of(s))
}

/// `(T, E)` of `Result<T, E>`.
fn split_result(t: &Ty) -> (r: Option<(&Ty, &Ty)>)
    ensures
        match r {
            Some((a, b)) => result_split(*t) == Some((*a, *b)),
            None => result_split(*t) is None,
        },
{
    proof {
        reveal_strlit("Result");
    }
    match crate::types::last_segment(t) {
        None => None,
        Some(s) => {
            if !str_is(s.ident.as_str(), "Result") {
                return None;
            }
            match &s.args {
                SegArgs::Angle(a) => {
                    if a.len() == 2 {
                        match (&a[0], &a[1]) {
                            (GenArg::Type(x), GenArg::Type(y)) => Some((x, y)),
                            _ => None,
                        }
                    } else {
                        None
                    }
                },
                _ => None,
            }
        },
    }
}

/// What each parameter resolves from.
fn resolve_params<'a, E>(ps: &'a Vec<ProducerParam<E>>) -> (r: Result<Vec<ProducerDep<'a>>, &'a E>)
    requires
        !has_receiver(ps@),
    ensures
        match r {
            Ok(ds) => producer_deps(ps@) == Ok::<Seq<PDepSpec>, E>(ds@.map_values(|d: ProducerDep<'a>| pdep_view(d))),
            Err(e) => producer_deps(ps@) == Err::<Seq<PDepSpec>, E>(*e),
        },
{
    let mut out: Vec<ProducerDep<'a>> = Vec::new();
    let mut i: usize = 0;
    proof {
        assert(ps@.take(0) =~= Seq::<ProducerParam<E>>::empty());
        assert(out@.map_values(|d: ProducerDep<'a>| pdep_view(d)) =~= Seq::<PDepSpec>::empty());
        reveal_strlit("config_section");
        reveal_strlit("config");
        reveal_strlit("live_config");
    }
    while i < ps.len()
        invariant
            0 <= i <= ps@.len(),
            !has_receiver(ps@),
            producer_deps(ps@.take(i as int)) == Ok::<Seq<PDepSpec>, E>(
                out@.map_values(|d: ProducerDep<'a>| pdep_view(d)),
            ),
        decreases ps@.len() - i,
    {
        proof {
            assert(ps@.take(i + 1).drop_last() =~= ps@.take(i as int));
            assert(ps@.take(i + 1).last() == ps@[i as int]);
        }
        let d: ProducerDep<'a> = match &ps[i] {
            ProducerParam::Receiver => {
                return vstd::pervasive::unreached();
            },
            ProducerParam::Typed { ty, attr_names, inject_check, live_exclusive, section_prefix, config, live_config } => {
                if let Err(e) = inject_check {
                    proof {
                        lemma_producer_deps_stop(ps@, i + 1);
                    }
                    return Err(e);
                }
                if let Err(e) = live_exclusive {
                    proof {
                        lemma_producer_deps_stop(ps@, i + 1);
                    }
                    return Err(e);
                }
                if includes_name(attr_names, "config_section") {
                    match section_prefix {
                        Err(e) => {
                            proof {
                                lemma_producer_deps_stop(ps@, i + 1);
                            }
                            return Err(e);
                        },
                        Ok(p) => ProducerDep::Section(p),
                    }
                } else if includes_name(attr_names, "config") {
                    match config {
                        Err(e) => {
                            proof {
                                lemma_producer_deps_stop(ps@, i + 1);
                            }
                            return Err(e);
                        },
                        Ok((key, ty_name)) => ProducerDep::Config {
                            key,
                            ty_name,
                            is_option: unwrap_option_type(ty).is_some(),
                        },
                    }
                } else if includes_name(attr_names, "live_config") {
                    match live_config {
                        Err(e) => {
                            proof {
                                lemma_producer_deps_stop(ps@, i + 1);
                            }
                            return Err(e);
                        },
                        Ok((key, ty_name)) => ProducerDep::Live { key, ty_name },
                    }
                } else {
                    ProducerDep::ByType(ty)
                }
            },
        };
        assert(producer_dep(ps@[i as int]) == Ok::<PDepSpec, E>(pdep_view(d)));
        let ghost before = out@;
        out.push(d);
        proof {
            assert(out@.map_values(|d: ProducerDep<'a>| pdep_view(d)) =~= before.map_values(
                |d: ProducerDep<'a>| pdep_view(d),
            ).push(pdep_view(d)));
        }
        i = i + 1;
    }
    proof {
        assert(ps@.take(i as int) =~= ps@);
    }
    Ok(out)
}

/// The types of the by-type dependencies.
fn by_type_refs<'a>(ds: &Vec<ProducerDep<'a>>) -> (r: Vec<&'a Ty>)
    ensures
        r@.map_values(|t: &'a Ty| *t) == by_type_tys(ds@.map_values(|d: ProducerDep<'a>| pdep_view(d))),
{
    let ghost dv = ds@.map_values(|d: ProducerDep<'a>| pdep_view(d));
    let mut out: Vec<&'a Ty> = Vec::new();
    let mut i: usize = 0;
    proof {
        assert(dv.take(0) =~= Seq::<PDepSpec>::empty());
        assert(out@.map_values(|t: &'a Ty| *t) =~= Seq::<Ty>::empty());
    }
    while i < ds.len()
        invariant
            0 <= i <= ds@.len(),
            dv == ds@.map_values(|d: ProducerDep<'a>| pdep_view(d)),
            out@.map_values(|t: &'a Ty| *t) == by_type_tys(dv.take(i as int)),
        decreases ds@.len() - i,
    {
        proof {
            assert(dv.take(i + 1).drop_last() =~= dv.take(i as int));
            assert(dv.take(i + 1).last() == dv[i as int]);
        }
        match &ds[i] {
            ProducerDep::ByType(t) => {
                let ghost before = out@;
                out.push(*t);
                proof {
                    assert(out@.map_values(|t: &'a Ty| *t) =~= before.map_values(|t: &'a Ty| *t) + seq![**t]);
                }
            },
            _ => {
                proof {
                    assert(by_type_tys(dv.take(i + 1)) =~= by_type_tys(dv.take(i as int)));
                }
            },
        }
        i = i + 1;
    }
    proof {
        assert(dv.take(i as int) =~= dv);
    }
    out
}

proof fn lemma_after_clash_stop(before: Seq<Ty>, after: Seq<Ty>, i: int)
    requires
        0 <= i <= after.len(),
        after_clash(before, after.take(i)) is Some,
    ensures
        after_clash(before, after) == after_clash(before, after.take(i)),
    decreases after.len() - i,
{
    if i == after.len() {
        assert(after.take(i) =~= after);
    } else {
        assert(after.drop_last().take(i) =~= after.take(i));
        lemma_after_clash_stop(before, after.drop_last(), i);
    }
}

/// Whether a rendering is among those of `seen`.
fn rendered_among<'a>(seen: &Vec<&'a Ty>, t: &Ty) -> (r: bool)
    ensures
        r == exists|j: int| 0 <= j < seen@.len() && (#[trigger] seen@[j]).tokens@ == t.tokens@,
{
    let mut i: usize = 0;
    while i < seen.len()
        invariant
            0 <= i <= seen@.len(),
            forall|j: int| 0 <= j < i ==> (#[trigger] seen@[j]).tokens@ != t.tokens@,
        decreases seen@.len() - i,
    {
        if str_is(seen[i].tokens.as_str(), t.tokens.as_str()) {
            return true;
        }
        i = i + 1;
    }
    false
}

/// What `#[producer(...)]` registers for a function.
pub fn plan_producer<'a, E>(f: &'a ProducerFn<E>, args: &'a ProducerArgs) -> (r: Result<
    ProducerPlan<'a>,
    ProducerFault<'a, E>,
>)
    ensures
        match r {
            Ok(p) => producer_outcome(*f, *args) == Ok::<ProducerSpec, PFaultSpec<E>>(producer_view(p)),
            Err(x) => producer_outcome(*f, *args) == Err::<ProducerSpec, PFaultSpec<E>>(pfault_view(x)),
        },
{
    if let Err(e) = &f.unsafe_check {
        return Err(ProducerFault::Read(e));
    }
    let declared = match &f.output {
        None => {
            return Err(
                ProducerFault::At(
                    ProducerSite::FnName,
                    msg(
                        "#[producer] function must have a return type:\n\n  #[producer]\n  async fn create_pool() -> SqlitePool { ... }",
                    ),
                ),
            );
        },
        Some(t) => t,
    };
    if let Err(e) = &f.alias_check {
        return Err(ProducerFault::Read(e));
    }
    let mut k: usize = 0;
    while k < f.params.len()
        invariant
            0 <= k <= f.params@.len(),
            f.unsafe_check is Ok,
            f.output == Some(*declared),
            f.alias_check is Ok,
            forall|j: int| 0 <= j < k ==> !(#[trigger] f.params@[j] is Receiver),
        decreases f.params@.len() - k,
    {
        if let ProducerParam::Receiver = &f.params[k] {
            return Err(
                ProducerFault::At(
                    ProducerSite::FnName,
                    msg(
                        "#[producer] must be a free function (no `self` parameter):\n\n  #[producer]\n  async fn create_pool(#[config(\"app.db.url\")] url: String) -> SqlitePool { ... }",
                    ),
                ),
            );
        }
        k = k + 1;
    }
    let params = match resolve_params(&f.params) {
        Err(e) => return Err(ProducerFault::Read(e)),
        Ok(ds) => ds,
    };
    let ghost dv = params@.map_values(|d: ProducerDep<'a>| pdep_view(d));
    let mut dep_types = by_type_refs(&params);
    let ghost before = by_type_tys(dv);
    let ghost av = args.after@;
    let mut i: usize = 0;
    proof {
        assert(av.take(0) =~= Seq::<Ty>::empty());
        assert(before + av.take(0) =~= before);
    }
    while i < args.after.len()
        invariant
            0 <= i <= av.len(),
            av == args.after@,
            f.unsafe_check is Ok,
            f.output == Some(*declared),
            f.alias_check is Ok,
            !has_receiver(f.params@),
            producer_deps(f.params@) == Ok::<Seq<PDepSpec>, E>(dv),
            dv == params@.map_values(|d: ProducerDep<'a>| pdep_view(d)),
            before == by_type_tys(dv),
            dep_types@.map_values(|t: &'a Ty| *t) == before + av.take(i as int),
            after_clash(before, av.take(i as int)) is None,
        decreases av.len() - i,
    {
        let t = &args.after[i];
        proof {
            assert(av.take(i + 1).drop_last() =~= av.take(i as int));
            assert(av.take(i + 1).last() == av[i as int]);
        }
        if rendered_among(&dep_types, t) {
            proof {
                let dtv = dep_types@.map_values(|t: &'a Ty| *t);
                let j = choose|j: int| 0 <= j < dep_types@.len() && (#[trigger] dep_types@[j]).tokens@ == t.tokens@;
                assert(dtv.len() == dep_types@.len());
                assert(dtv.len() == before.len() + i);
                assert(dtv[j] == *dep_types@[j]);
                assert(av.take(i + 1).last().tokens@ == t.tokens@);
                assert((before + av.take(i + 1).drop_last())[j] == dtv[j]);
                assert(after_clash(before, av.take(i + 1)) == Some(i as int));
                lemma_after_clash_stop(before, av, i + 1);
            }
            return Err(
                ProducerFault::At(
                    ProducerSite::After(i),
                    msg(
                        "`after(..)` names a type this producer already takes as a parameter — a parameter is already a dependency edge; drop it from `after(..)`",
                    ),
                ),
            );
        }
        proof {
            let dtv = dep_types@.map_values(|t: &'a Ty| *t);
            assert(dtv.len() == dep_types@.len());
            assert(dtv.len() == before.len() + i);
            assert forall|j: int| 0 <= j < before.len() + av.take(i + 1).len() - 1 implies !((
            #[trigger] (before + av.take(i + 1).drop_last())[j]).tokens@ == av.take(i + 1).last().tokens@) by {
                assert((before + av.take(i + 1).drop_last())[j] == dtv[j]);
                assert(dtv[j] == *dep_types@[j]);
            }
        }
        let ghost b = dep_types@;
        dep_types.push(t);
        proof {
            assert(dep_types@.map_values(|t: &'a Ty| *t) =~= b.map_values(|t: &'a Ty| *t).push(*t));
            assert(before + av.take(i + 1) =~= (before + av.take(i as int)).push(av[i as int]));
        }
        i = i + 1;
    }
    proof {
        assert(av.take(i as int) =~= av);
    }
    let mut has_config = false;
    let mut has_live_config = false;
    let mut j: usize = 0;
    while j < params.len()
        invariant
            0 <= j <= params@.len(),
            dv == params@.map_values(|d: ProducerDep<'a>| pdep_view(d)),
            has_config == exists|k: int| 0 <= k < j && (#[trigger] dv[k] is Section || dv[k] is Config),
            has_live_config == exists|k: int| 0 <= k < j && #[trigger] dv[k] is Live,
        decreases params@.len() - j,
    {
        match &params[j] {
            ProducerDep::Section(_) | ProducerDep::Config { .. } => {
                has_config = true;
            },
            ProducerDep::Live { .. } => {
                has_live_config = true;
            },
            _ => {},
        }
        proof {
            assert(dv[j as int] == pdep_view(params@[j as int]));
        }
        j = j + 1;
    }
    let split = split_result(declared);
    Ok(
        ProducerPlan {
            struct_name: RenameAll::Pascal.apply(f.ident.as_str()),
            is_async: f.is_async,
            declared,
            split,
            params,
            dep_types,
            has_config,
            has_live_config,
            start: args.start,
        },
    )
}

// ── laws ────────────────────────────────────────────────────────────────

proof fn lemma_after_clash_none(before: Seq<Ty>, after: Seq<Ty>)
    requires
        after_clash(before, after) is None,
    ensures
        forall|k: int, j: int|
            0 <= k < after.len() && 0 <= j < before.len() + k ==> (#[trigger] (before + after)[j]).tokens@
                != (#[trigger] after[k]).tokens@,
    decreases after.len(),
{
    if after.len() > 0 {
        let pre = after.drop_last();
        lemma_after_clash_none(before, pre);
        assert forall|k: int, j: int|
            0 <= k < after.len() && 0 <= j < before.len() + k implies (#[trigger] (before + after)[j]).tokens@
                != (#[trigger] after[k]).tokens@ by {
            assert((before + after)[j] == (before + pre)[j]);
            if k < after.len() - 1 {
                assert(after[k] == pre[k]);
            } else {
                assert(after[k] == after.last());
                if (before + pre)[j].tokens@ == after.last().tokens@ {
                    assert(exists|i: int|
                        0 <= i < before.len() + after.len() - 1 && (#[trigger] (before + after.drop_last())[i]).tokens@
                            == after.last().tokens@);
                }
            }
        }
    }
}

/// Of every producer that is accepted: an `after(..)` edge never repeats a
/// dependency already declared before it, by parameter or by `after(..)`.
pub proof fn lemma_after_edges_are_new<E>(f: ProducerFn<E>, args: ProducerArgs, p: ProducerSpec)
    requires
        producer_outcome(f, args) == Ok::<ProducerSpec, PFaultSpec<E>>(p),
    ensures
        p.dep_types.len() == by_type_tys(p.params).len() + args.after@.len(),
        forall|k: int, j: int|
            by_type_tys(p.params).len() <= k < p.dep_types.len() && 0 <= j < k ==> (#[trigger] p.dep_types[j]).tokens@
                != (#[trigger] p.dep_types[k]).tokens@,
{
    let before = by_type_tys(p.params);
    let after = args.after@;
    lemma_after_clash_none(before, after);
    assert forall|k: int, j: int|
        before.len() <= k < p.dep_types.len() && 0 <= j < k implies (#[trigger] p.dep_types[j]).tokens@
            != (#[trigger] p.dep_types[k]).tokens@ by {
        assert(p.dep_types[k] == after[k - before.len()]);
        assert(p.dep_types[j] == (before + after)[j]);
    }
}

} // verus!
