//! `#[bean]` on an impl block: the constructor it builds the bean with, the
//! dependencies that constructor's parameters declare, and the scheduled,
//! consumer and post-construct methods it wires, with the combinations it
//! refuses.

use vstd::prelude::*;

use crate::attrs::{any_named, has_named, name_views, named, named_any, retain_unnamed, Attr, MetaArg, MetaValue};
use crate::extract::consumer::{consumer_outcome, extract_consumer, ConsumerConfig, ConsumerSpec};
use crate::extract::scheduled::{read_scheduled, scheduled_outcome, ReadResult, Reading, ScheduledConfig, ScheduledSpec};
use crate::text::{chars_of, str_is, string_of};
use crate::types::{
    extract_event_type_from_arc, last_seg, last_segment, not_arc_msg, wrapped_in, Seg, SegArgs, Ty, TyKind,
};

verus! {

/// A parameter of a method of the impl block. A typed parameter carries the
/// names of its attributes and what reading each annotation that carries
/// data gives; a reading is consulted only where the parameter's
/// annotations call for it.
pub enum BeanParam<E> {
    /// `self`, `&self` or `&mut self`.
    Receiver,
    Typed {
        ty: Ty,
        attr_names: Vec<Option<String>>,
        /// The bean name of `#[inject(name = "...")]`; `None` without one.
        inject_name: Result<Option<String>, E>,
        /// The prefix of `#[config_section(prefix = "...")]`.
        section_prefix: Result<String, E>,
        /// Key, environment-variable hint and type name of `#[config("...")]`.
        config: Result<(String, String, String), E>,
    },
}

/// A method of the impl block: its name, `async`, parameters, return type
/// (`None` for none written), whether that return type is `Result`-like,
/// its attributes, and the reading of its `#[intercept(...)]` attributes.
pub struct BeanMethod<R, X, E> {
    pub ident: String,
    pub is_async: bool,
    pub params: Vec<BeanParam<E>>,
    pub output: Option<Ty>,
    pub output_result_like: bool,
    pub attrs: Vec<crate::attrs::Attr<R>>,
    pub intercepts: Result<Vec<X>, E>,
}

/// An impl block under `#[bean]`: its self type, the reading of its own
/// `#[intercept(...)]` attributes, its methods in order, and whether
/// `#[bean(lazy)]` was given.
pub struct BeanImpl<R, X, E> {
    pub self_ty: Ty,
    pub intercepts: Result<Vec<X>, E>,
    pub methods: Vec<BeanMethod<R, X, E>>,
    pub lazy: bool,
}

/// Where a refusal points.
#[derive(PartialEq, Eq, Structural, Clone, Copy, Debug)]
pub enum BeanSite {
    /// The impl's self type.
    SelfTy,
    /// The method at this position.
    Method(usize),
    /// The constructor's parameter at this position.
    Param(usize),
    /// The impl block's first `#[intercept]` attribute.
    ImplIntercept,
}

/// Why the impl block is refused.
pub enum BeanFault<'a, E> {
    /// Reading an annotation failed.
    Read(&'a E),
    /// A refusal with its message.
    At(BeanSite, String),
}

/// The value of a `BeanFault`.
pub enum FaultSpec<E> {
    Read(E),
    At(BeanSite, Seq<char>),
}

pub open spec fn fault_view<'a, E>(f: BeanFault<'a, E>) -> FaultSpec<E> {
    match f {
        BeanFault::Read(e) => FaultSpec::Read(*e),
        BeanFault::At(s, m) => FaultSpec::At(s, m@),
    }
}

/// Where the constructor takes a parameter's value from.
pub enum BeanDep<'a> {
    /// The bean registered for the parameter's type.
    ByType,
    /// The bean registered under this name (`#[inject(name = "...")]`).
    Named(&'a String),
    /// A typed configuration section (`#[config_section(prefix = "...")]`).
    Section(&'a String),
    /// A configuration value: key, environment-variable hint, type name.
    Config(&'a String, &'a String, &'a String),
}

/// The value of a `BeanDep`.
pub enum DepSpec {
    ByType,
    Named(Seq<char>),
    Section(Seq<char>),
    Config(Seq<char>, Seq<char>, Seq<char>),
}

pub open spec fn dep_view<'a>(d: BeanDep<'a>) -> DepSpec {
    match d {
        BeanDep::ByType => DepSpec::ByType,
        BeanDep::Named(n) => DepSpec::Named(n@),
        BeanDep::Section(p) => DepSpec::Section(p@),
        BeanDep::Config(k, h, t) => DepSpec::Config(k@, h@, t@),
    }
}

/// The index of the first element of `s` that satisfies `p`.
pub open spec fn first_where<A>(s: Seq<A>, p: spec_fn(A) -> bool) -> Option<int>
    decreases s.len(),
{
    if s.len() == 0 {
        None
    } else {
        match first_where(s.drop_last(), p) {
            Some(i) => Some(i),
            None => if p(s.last()) {
                Some(s.len() - 1)
            } else {
                None
            },
        }
    }
}

pub proof fn lemma_first_where<A>(s: Seq<A>, p: spec_fn(A) -> bool)
    ensures
        match first_where(s, p) {
            Some(i) => 0 <= i < s.len() && p(s[i]) && forall|k: int| 0 <= k < i ==> !p(#[trigger] s[k]),
            None => forall|k: int| 0 <= k < s.len() ==> !p(#[trigger] s[k]),
        },
    decreases s.len(),
{
    if s.len() > 0 {
        lemma_first_where(s.drop_last(), p);
        assert forall|k: int| 0 <= k < s.len() - 1 implies s.drop_last()[k] == s[k] by {}
    }
}

/// `first_where` over a prefix one longer.
proof fn lemma_first_where_step<A>(s: Seq<A>, p: spec_fn(A) -> bool, i: int)
    requires
        0 <= i < s.len(),
    ensures
        first_where(s.take(i + 1), p) == match first_where(s.take(i), p) {
            Some(j) => Some(j),
            None => if p(s[i]) {
                Some(i)
            } else {
                None
            },
        },
{
    assert(s.take(i + 1).drop_last() =~= s.take(i));
}

/// `first_where` of a prefix that already has a match is that of the whole.
proof fn lemma_first_where_prefix<A>(s: Seq<A>, p: spec_fn(A) -> bool, i: int)
    requires
        0 <= i <= s.len(),
        first_where(s.take(i), p) is Some,
    ensures
        first_where(s, p) == first_where(s.take(i), p),
    decreases s.len() - i,
{
    if i < s.len() {
        lemma_first_where_step(s, p, i);
        lemma_first_where_prefix(s, p, i + 1);
    } else {
        assert(s.take(i) =~= s);
    }
}

/// Whether a parameter list has a receiver.
pub open spec fn takes_self<E>(params: Seq<BeanParam<E>>) -> bool {
    exists|k: int| 0 <= k < params.len() && #[trigger] params[k] is Receiver
}

/// Whether a list of attribute names includes `n`.
pub open spec fn names_include(names: Seq<Option<String>>, n: Seq<char>) -> bool {
    exists|k: int| 0 <= k < names.len() && (#[trigger] names[k] matches Some(s) && s@ == n)
}

/// The identifier of the last segment of a path.
pub open spec fn last_ident(segs: Seq<Seg>) -> Option<Seq<char>> {
    if segs.len() == 0 {
        None
    } else {
        Some(segs.last().ident@)
    }
}

/// Whether a path is the single identifier `Self`.
pub open spec fn is_self_path(segs: Seq<Seg>) -> bool {
    segs.len() == 1 && segs[0].ident@ == "Self"@ && segs[0].args is Plain
}

/// Whether a return type names the impl's type: `Self`, or a path whose
/// last segment is named as the self type's.
pub open spec fn returns_self(out: Option<Ty>, self_ty: Ty) -> bool {
    match out {
        Some(t) => match t.kind {
            TyKind::Path(segs) => is_self_path(segs@) || match self_ty.kind {
                TyKind::Path(ss) => last_ident(segs@) == last_ident(ss@),
                _ => false,
            },
            _ => false,
        },
        None => false,
    }
}

/// A constructor: a method without receiver that returns the impl's type.
pub open spec fn is_constructor<R, X, E>(m: BeanMethod<R, X, E>, self_ty: Ty) -> bool {
    !takes_self(m.params@) && returns_self(m.output, self_ty)
}

/// The position of the constructor: the first method that is one.
pub open spec fn constructor_index<R, X, E>(ms: Seq<BeanMethod<R, X, E>>, self_ty: Ty) -> Option<int> {
    first_where(ms, |m: BeanMethod<R, X, E>| is_constructor(m, self_ty))
}

pub open spec fn no_constructor_msg() -> Seq<char> {
    "#[bean] requires a constructor — a static method returning Self:\n\n  #[bean]\n  impl MyService {\n      fn new(dep: OtherService) -> Self {\n          Self { dep }\n      }\n  }"@
}

pub open spec fn constructor_receiver_msg() -> Seq<char> {
    "#[bean] constructor must be a static associated function (no `self` parameter):\n\n  fn new(dep: MyDependency) -> Self {\n      Self { dep }\n  }"@
}

/// What the constructor's parameter at position `i` depends on.
pub open spec fn param_dep<E>(p: BeanParam<E>, i: int) -> Result<DepSpec, FaultSpec<E>> {
    match p {
        BeanParam::Receiver => Err(FaultSpec::At(BeanSite::Param(i as usize), constructor_receiver_msg())),
        BeanParam::Typed { attr_names, inject_name, section_prefix, config, .. } => match inject_name {
            Err(e) => Err(FaultSpec::Read(e)),
            Ok(Some(n)) => Ok(DepSpec::Named(n@)),
            Ok(None) => if names_include(attr_names@, "config_section"@) {
                match section_prefix {
                    Err(e) => Err(FaultSpec::Read(e)),
                    Ok(p) => Ok(DepSpec::Section(p@)),
                }
            } else if names_include(attr_names@, "config"@) {
                match config {
                    Err(e) => Err(FaultSpec::Read(e)),
                    Ok((k, h, t)) => Ok(DepSpec::Config(k@, h@, t@)),
                }
            } else {
                Ok(DepSpec::ByType)
            },
        },
    }
}

/// The dependencies of a parameter list, in order; the first parameter that
/// cannot be classified stops it.
pub open spec fn deps_of<E>(ps: Seq<BeanParam<E>>) -> Result<Seq<DepSpec>, FaultSpec<E>>
    decreases ps.len(),
{
    if ps.len() == 0 {
        Ok(Seq::empty())
    } else {
        match deps_of(ps.drop_last()) {
            Err(f) => Err(f),
            Ok(acc) => match param_dep(ps.last(), ps.len() - 1) {
                Err(f) => Err(f),
                Ok(d) => Ok(acc.push(d)),
            },
        }
    }
}

proof fn lemma_deps_stop<E>(ps: Seq<BeanParam<E>>, i: int)
    requires
        0 <= i <= ps.len(),
        deps_of(ps.take(i)) is Err,
    ensures
        deps_of(ps) == deps_of(ps.take(i)),
    decreases ps.len() - i,
{
    if i == ps.len() {
        assert(ps.take(i) =~= ps);
    } else {
        assert(ps.drop_last().take(i) =~= ps.take(i));
        lemma_deps_stop(ps.drop_last(), i);
    }
}

fn msg(s: &str) -> (r: String)
    ensures
        r@ == s@,
{
    string_of(&chars_of(s))
}

/// Whether a parameter list has a receiver.
pub fn has_receiver_param<E>(params: &Vec<BeanParam<E>>) -> (r: bool)
    ensures
        r == takes_self(params@),
{
    let mut i: usize = 0;
    while i < params.len()
        invariant
            0 <= i <= params@.len(),
            forall|k: int| 0 <= k < i ==> !(#[trigger] params@[k] is Receiver),
        decreases params@.len() - i,
    {
        if let BeanParam::Receiver = &params[i] {
            return true;
        }
        i = i + 1;
    }
    false
}

/// Whether a list of attribute names includes `n`.
pub fn includes_name(names: &Vec<Option<String>>, n: &str) -> (r: bool)
    ensures
        r == names_include(names@, n@),
{
    let mut i: usize = 0;
    while i < names.len()
        invariant
            0 <= i <= names@.len(),
            forall|k: int| 0 <= k < i ==> !(#[trigger] names@[k] matches Some(s) && s@ == n@),
        decreases names@.len() - i,
    {
        if let Some(s) = &names[i] {
            if str_is(s.as_str(), n) {
                return true;
            }
        }
        i = i + 1;
    }
    false
}

/// Whether a return type names the impl's type.
pub fn is_self_return(out: &Option<Ty>, self_ty: &Ty) -> (r: bool)
    ensures
        r == returns_self(*out, *self_ty),
{
    proof {
        reveal_strlit("Self");
    }
    let t = match out {
        None => return false,
        Some(t) => t,
    };
    let segs = match &t.kind {
        TyKind::Path(segs) => segs,
        _ => return false,
    };
    if segs.len() == 1 && str_is(segs[0].ident.as_str(), "Self") {
        if let SegArgs::Plain = &segs[0].args {
            return true;
        }
    }
    match &self_ty.kind {
        TyKind::Path(ss) => {
            if segs.len() == 0 || ss.len() == 0 {
                segs.len() == ss.len()
            } else {
                str_is(segs[segs.len() - 1].ident.as_str(), ss[ss.len() - 1].ident.as_str())
            }
        },
        _ => false,
    }
}

/// The position of the impl block's constructor.
pub fn find_constructor<R, X, E>(imp: &BeanImpl<R, X, E>) -> (r: Option<usize>)
    ensures
        match r {
            Some(i) => constructor_index(imp.methods@, imp.self_ty) == Some(i as int),
            None => constructor_index(imp.methods@, imp.self_ty) is None,
        },
{
    let ghost p = |m: BeanMethod<R, X, E>| is_constructor(m, imp.self_ty);
    let ghost ms = imp.methods@;
    let mut i: usize = 0;
    while i < imp.methods.len()
        invariant
            0 <= i <= ms.len(),
            ms == imp.methods@,
            p == (|m: BeanMethod<R, X, E>| is_constructor(m, imp.self_ty)),
            first_where(ms.take(i as int), p) is None,
        decreases ms.len() - i,
    {
        proof {
            lemma_first_where_step(ms, p, i as int);
        }
        let m = &imp.methods[i];
        if !has_receiver_param(&m.params) && is_self_return(&m.output, &imp.self_ty) {
            proof {
                lemma_first_where_prefix(ms, p, i + 1);
            }
            return Some(i);
        }
        i = i + 1;
    }
    proof {
        assert(ms.take(i as int) =~= ms);
    }
    None
}

/// What the constructor's parameters depend on, in order.
pub fn constructor_deps<'a, E>(params: &'a Vec<BeanParam<E>>) -> (r: Result<Vec<BeanDep<'a>>, BeanFault<'a, E>>)
    ensures
        match r {
            Ok(ds) => deps_of(params@) == Ok::<Seq<DepSpec>, FaultSpec<E>>(
                ds@.map_values(|d: BeanDep<'a>| dep_view(d)),
            ),
            Err(f) => deps_of(params@) == Err::<Seq<DepSpec>, FaultSpec<E>>(fault_view(f)),
        },
{
    let ghost ps = params@;
    let mut out: Vec<BeanDep<'a>> = Vec::new();
    let mut i: usize = 0;
    proof {
        assert(ps.take(0) =~= Seq::<BeanParam<E>>::empty());
        assert(out@.map_values(|d: BeanDep<'a>| dep_view(d)) =~= Seq::<DepSpec>::empty());
    }
    while i < params.len()
        invariant
            0 <= i <= ps.len(),
            ps == params@,
            deps_of(ps.take(i as int)) == Ok::<Seq<DepSpec>, FaultSpec<E>>(
                out@.map_values(|d: BeanDep<'a>| dep_view(d)),
            ),
        decreases ps.len() - i,
    {
        proof {
            assert(ps.take(i + 1).drop_last() =~= ps.take(i as int));
            assert(ps.take(i + 1).last() == ps[i as int]);
            reveal_strlit("config_section");
            reveal_strlit("config");
        }
        let d: BeanDep<'a> = match &params[i] {
            BeanParam::Receiver => {
                let f = BeanFault::At(
                    BeanSite::Param(i),
                    msg(
                        "#[bean] constructor must be a static associated function (no `self` parameter):\n\n  fn new(dep: MyDependency) -> Self {\n      Self { dep }\n  }",
                    ),
                );
                proof {
                    lemma_deps_stop(ps, i + 1);
                }
                return Err(f);
            },
            BeanParam::Typed { attr_names, inject_name, section_prefix, config, .. } => {
                match inject_name {
                    Err(e) => {
                        proof {
                            lemma_deps_stop(ps, i + 1);
                        }
                        return Err(BeanFault::Read(e));
                    },
                    Ok(Some(n)) => BeanDep::Named(n),
                    Ok(None) => {
                        if includes_name(attr_names, "config_section") {
                            match section_prefix {
                                Err(e) => {
                                    proof {
                                        lemma_deps_stop(ps, i + 1);
                                    }
                                    return Err(BeanFault::Read(e));
                                },
                                Ok(p) => BeanDep::Section(p),
                            }
                        } else if includes_name(attr_names, "config") {
                            match config {
                                Err(e) => {
                                    proof {
                                        lemma_deps_stop(ps, i + 1);
                                    }
                                    return Err(BeanFault::Read(e));
                                },
                                Ok((k, h, t)) => BeanDep::Config(k, h, t),
                            }
                        } else {
                            BeanDep::ByType
                        }
                    },
                }
            },
        };
        assert(param_dep(ps[i as int], i as int) == Ok::<DepSpec, FaultSpec<E>>(dep_view(d)));
        let ghost before = out@;
        out.push(d);
        proof {
            assert(out@.map_values(|d: BeanDep<'a>| dep_view(d)) =~= before.map_values(
                |d: BeanDep<'a>| dep_view(d),
            ).push(dep_view(d)));
        }
        i = i + 1;
    }
    proof {
        assert(ps.take(i as int) =~= ps);
    }
    Ok(out)
}

// ── method scans ────────────────────────────────────────────────────────

/// The outcome of a scan over the methods: what it collected, the refusal
/// that stopped it, or a duration that overflows while a `#[scheduled]`
/// attribute is read.
pub enum Scan<T, E> {
    Done(T),
    Fault(FaultSpec<E>),
    Overflow,
}

/// A left-to-right scan over `ms`: `step` sees each method with its
/// position and what was collected before it; the first step that does not
/// finish with `Done` ends the scan.
pub open spec fn scan_with<M, T, E>(ms: Seq<M>, step: spec_fn(M, int, Seq<T>) -> Scan<Seq<T>, E>) -> Scan<
    Seq<T>,
    E,
>
    decreases ms.len(),
{
    if ms.len() == 0 {
        Scan::Done(Seq::empty())
    } else {
        match scan_with(ms.drop_last(), step) {
            Scan::Done(acc) => step(ms.last(), ms.len() - 1, acc),
            Scan::Fault(f) => Scan::Fault(f),
            Scan::Overflow => Scan::Overflow,
        }
    }
}

proof fn lemma_scan_step<M, T, E>(ms: Seq<M>, step: spec_fn(M, int, Seq<T>) -> Scan<Seq<T>, E>, i: int)
    requires
        0 <= i < ms.len(),
    ensures
        scan_with(ms.take(i + 1), step) == match scan_with(ms.take(i), step) {
            Scan::Done(acc) => step(ms[i], i, acc),
            Scan::Fault(f) => Scan::Fault(f),
            Scan::Overflow => Scan::<Seq<T>, E>::Overflow,
        },
{
    assert(ms.take(i + 1).drop_last() =~= ms.take(i));
}

proof fn lemma_scan_stop<M, T, E>(ms: Seq<M>, step: spec_fn(M, int, Seq<T>) -> Scan<Seq<T>, E>, i: int)
    requires
        0 <= i <= ms.len(),
        !(scan_with(ms.take(i), step) is Done),
    ensures
        scan_with(ms, step) == scan_with(ms.take(i), step),
    decreases ms.len() - i,
{
    if i == ms.len() {
        assert(ms.take(i) =~= ms);
    } else {
        assert(ms.drop_last().take(i) =~= ms.take(i));
        lemma_scan_stop(ms.drop_last(), step, i);
    }
}

pub open spec fn stray_intercept_msg() -> Seq<char> {
    "#[intercept] on a bean method is only supported on #[scheduled]/#[consumer] methods — a plain method has no dispatch wrapper to run the interceptor chain"@
}

/// A method with `#[intercept]` that is neither `#[scheduled]` nor
/// `#[consumer]`.
pub open spec fn stray_intercept<R, X, E>(m: BeanMethod<R, X, E>) -> bool {
    has_named(m.attrs@, "intercept"@) && !has_named(m.attrs@, "scheduled"@) && !has_named(
        m.attrs@,
        "consumer"@,
    )
}

/// The position of the first method with a stray `#[intercept]`.
pub fn find_stray_intercept<R, X, E>(ms: &Vec<BeanMethod<R, X, E>>) -> (r: Option<usize>)
    ensures
        match r {
            Some(i) => first_where(ms@, |m: BeanMethod<R, X, E>| stray_intercept(m)) == Some(i as int),
            None => first_where(ms@, |m: BeanMethod<R, X, E>| stray_intercept(m)) is None,
        },
{
    let ghost p = |m: BeanMethod<R, X, E>| stray_intercept(m);
    let mut i: usize = 0;
    while i < ms.len()
        invariant
            0 <= i <= ms@.len(),
            p == (|m: BeanMethod<R, X, E>| stray_intercept(m)),
            first_where(ms@.take(i as int), p) is None,
        decreases ms@.len() - i,
    {
        proof {
            lemma_first_where_step(ms@, p, i as int);
        }
        let a = &ms[i].attrs;
        if any_named(a, "intercept") && !any_named(a, "scheduled") && !any_named(a, "consumer") {
            proof {
                lemma_first_where_prefix(ms@, p, i + 1);
            }
            return Some(i);
        }
        i = i + 1;
    }
    proof {
        assert(ms@.take(i as int) =~= ms@);
    }
    None
}

pub open spec fn sched_consumer_msg() -> Seq<char> {
    "#[scheduled] and #[consumer] cannot be combined on the same method"@
}

pub open spec fn sched_params_msg() -> Seq<char> {
    "#[scheduled] methods cannot have parameters other than &self"@
}

/// A `#[scheduled]` method: its position, schedule and `async`.
pub struct SchedSpec {
    pub method: int,
    pub config: ScheduledSpec,
    pub is_async: bool,
}

/// One method of the scheduled scan.
pub open spec fn sched_step<R, X, E>(m: BeanMethod<R, X, E>, i: int, acc: Seq<SchedSpec>) -> Scan<
    Seq<SchedSpec>,
    E,
> {
    match scheduled_outcome(m.attrs@) {
        Reading::Overflow => Scan::Overflow,
        Reading::Refused(e) => Scan::Fault(FaultSpec::At(BeanSite::Method(i as usize), e)),
        Reading::Value(None) => Scan::Done(acc),
        Reading::Value(Some(c)) => if has_named(m.attrs@, "consumer"@) {
            Scan::Fault(FaultSpec::At(BeanSite::Method(i as usize), sched_consumer_msg()))
        } else if !takes_self(m.params@) || m.params@.len() > 1 {
            Scan::Fault(FaultSpec::At(BeanSite::Method(i as usize), sched_params_msg()))
        } else {
            match m.intercepts {
                Err(e) => Scan::Fault(FaultSpec::Read(e)),
                Ok(_) => Scan::Done(acc.push(SchedSpec { method: i, config: c, is_async: m.is_async })),
            }
        },
    }
}

/// The scheduled methods of the impl block, in order.
pub open spec fn sched_scan<R, X, E>(ms: Seq<BeanMethod<R, X, E>>) -> Scan<Seq<SchedSpec>, E> {
    scan_with(ms, |m: BeanMethod<R, X, E>, i: int, acc: Seq<SchedSpec>| sched_step(m, i, acc))
}

/// A `#[scheduled]` method of the plan, with its own `#[intercept]` list.
pub struct ScheduledPlan<'a, X> {
    pub method: usize,
    pub config: ScheduledConfig,
    pub is_async: bool,
    pub intercepts: &'a Vec<X>,
}

pub open spec fn sched_view<'a, X>(p: ScheduledPlan<'a, X>) -> SchedSpec {
    SchedSpec { method: p.method as int, config: p.config@, is_async: p.is_async }
}

/// Each entry's intercept list is the reading of its method's.
pub open spec fn sched_intercepts_match<'a, R, X, E>(
    ms: Seq<BeanMethod<R, X, E>>,
    v: Seq<ScheduledPlan<'a, X>>,
) -> bool {
    forall|k: int|
        0 <= k < v.len() ==> (#[trigger] v[k]).method < ms.len() && ms[v[k].method as int].intercepts
            == Ok::<Vec<X>, E>(*v[k].intercepts)
}

/// Scan the methods for `#[scheduled(...)]`.
pub fn scan_scheduled<'a, R, X, E>(ms: &'a Vec<BeanMethod<R, X, E>>) -> (r: Result<
    Vec<ScheduledPlan<'a, X>>,
    BeanFault<'a, E>,
>)
    requires
        !(sched_scan(ms@) is Overflow),
    ensures
        match r {
            Ok(v) => sched_scan(ms@) == Scan::<Seq<SchedSpec>, E>::Done(
                v@.map_values(|p: ScheduledPlan<'a, X>| sched_view(p)),
            ) && sched_intercepts_match(ms@, v@),
            Err(f) => sched_scan(ms@) == Scan::<Seq<SchedSpec>, E>::Fault(fault_view(f)),
        },
{
    let ghost step = |m: BeanMethod<R, X, E>, i: int, acc: Seq<SchedSpec>| sched_step(m, i, acc);
    let mut out: Vec<ScheduledPlan<'a, X>> = Vec::new();
    let mut i: usize = 0;
    proof {
        assert(ms@.take(0) =~= Seq::<BeanMethod<R, X, E>>::empty());
        assert(out@.map_values(|p: ScheduledPlan<'a, X>| sched_view(p)) =~= Seq::<SchedSpec>::empty());
        reveal_strlit("consumer");
    }
    while i < ms.len()
        invariant
            0 <= i <= ms@.len(),
            step == (|m: BeanMethod<R, X, E>, i: int, acc: Seq<SchedSpec>| sched_step(m, i, acc)),
            !(scan_with(ms@, step) is Overflow),
            scan_with(ms@.take(i as int), step) == Scan::<Seq<SchedSpec>, E>::Done(
                out@.map_values(|p: ScheduledPlan<'a, X>| sched_view(p)),
            ),
            sched_intercepts_match(ms@, out@),
        decreases ms@.len() - i,
    {
        proof {
            lemma_scan_step(ms@, step, i as int);
        }
        let m = &ms[i];
        let c = match read_scheduled(&m.attrs) {
            ReadResult::Overflow => {
                proof {
                    lemma_scan_stop(ms@, step, i + 1);
                }
                assert(false);
                return Err(BeanFault::At(BeanSite::Method(i), String::new()));
            },
            ReadResult::Refused(e) => {
                proof {
                    lemma_scan_stop(ms@, step, i + 1);
                }
                return Err(BeanFault::At(BeanSite::Method(i), e));
            },
            ReadResult::Value(None) => {
                i = i + 1;
                continue;
            },
            ReadResult::Value(Some(c)) => c,
        };
        if any_named(&m.attrs, "consumer") {
            let f = BeanFault::At(
                BeanSite::Method(i),
                msg("#[scheduled] and #[consumer] cannot be combined on the same method"),
            );
            proof {
                lemma_scan_stop(ms@, step, i + 1);
            }
            return Err(f);
        }
        if !has_receiver_param(&m.params) || m.params.len() > 1 {
            let f = BeanFault::At(
                BeanSite::Method(i),
                msg("#[scheduled] methods cannot have parameters other than &self"),
            );
            proof {
                lemma_scan_stop(ms@, step, i + 1);
            }
            return Err(f);
        }
        let xs = match &m.intercepts {
            Err(e) => {
                proof {
                    lemma_scan_stop(ms@, step, i + 1);
                }
                return Err(BeanFault::Read(e));
            },
            Ok(xs) => xs,
        };
        let p = ScheduledPlan { method: i, config: c, is_async: m.is_async, intercepts: xs };
        let ghost before = out@;
        out.push(p);
        proof {
            assert(out@.map_values(|p: ScheduledPlan<'a, X>| sched_view(p)) =~= before.map_values(
                |p: ScheduledPlan<'a, X>| sched_view(p),
            ).push(sched_view(p)));
            assert forall|k: int| 0 <= k < out@.len() implies (#[trigger] out@[k]).method < ms@.len()
                && ms@[out@[k].method as int].intercepts == Ok::<Vec<X>, E>(*out@[k].intercepts) by {
                if k < before.len() {
                    assert(out@[k] == before[k]);
                }
            }
        }
        i = i + 1;
    }
    proof {
        assert(ms@.take(i as int) =~= ms@);
    }
    Ok(out)
}

pub open spec fn consumer_no_event_msg() -> Seq<char> {
    "#[consumer] method must have an event parameter typed as Arc<EventType>:\n\n  #[consumer(bus = \"event_bus\")]\n\n  async fn on_event(&self, event: Arc<MyEvent>) { }"@
}

pub open spec fn responder_options_msg() -> Seq<char> {
    "a request-reply #[consumer] (non-`()` return) is a responder and does not support `topic`/`deserializer`/`filter`/`retry`/`dlq` — those are fan-out options"@
}

/// The type of a typed parameter.
pub open spec fn param_ty<E>(p: BeanParam<E>) -> Ty {
    match p {
        BeanParam::Typed { ty, .. } => ty,
        BeanParam::Receiver => arbitrary(),
    }
}

/// Whether a type is `()`.
pub open spec fn is_unit(t: Ty) -> bool {
    t.kind matches TyKind::Tuple(v) && v@.len() == 0
}

/// A request-reply consumer: one whose return type is written and is not `()`.
pub open spec fn is_responder<R, X, E>(m: BeanMethod<R, X, E>) -> bool {
    m.output matches Some(t) && !is_unit(t)
}

/// Whether a consumer configuration sets one of the fan-out options.
pub open spec fn fanout_options(c: ConsumerSpec) -> bool {
    c.topic is Some || c.deserializer is Some || c.filter is Some || c.retry is Some || c.dlq is Some
}

/// A `#[consumer]` method: its position, configuration, event type, and
/// whether it is a responder and its reply a `Result`.
pub struct ConsSpec {
    pub method: int,
    pub config: ConsumerSpec,
    pub event_type: Ty,
    pub responder: bool,
    pub fallible: bool,
}

/// One method of the consumer scan.
pub open spec fn cons_step<R, X, E>(m: BeanMethod<R, X, E>, i: int, acc: Seq<ConsSpec>) -> Scan<
    Seq<ConsSpec>,
    E,
> {
    let at = BeanSite::Method(i as usize);
    if !takes_self(m.params@) {
        Scan::Done(acc)
    } else {
        match consumer_outcome(m.attrs@) {
            Err(e) => Scan::Fault(FaultSpec::At(at, e)),
            Ok(None) => Scan::Done(acc),
            Ok(Some(c)) => match first_where(m.params@, |p: BeanParam<E>| p is Typed) {
                None => Scan::Fault(FaultSpec::At(at, consumer_no_event_msg())),
                Some(j) => match wrapped_in(param_ty(m.params@[j]), "Arc"@) {
                    None => Scan::Fault(FaultSpec::At(at, not_arc_msg())),
                    Some(ev) => if is_responder(m) && fanout_options(c) {
                        Scan::Fault(FaultSpec::At(at, responder_options_msg()))
                    } else {
                        match m.intercepts {
                            Err(e) => Scan::Fault(FaultSpec::Read(e)),
                            Ok(_) => Scan::Done(
                                acc.push(
                                    ConsSpec {
                                        method: i,
                                        config: c,
                                        event_type: ev,
                                        responder: is_responder(m),
                                        fallible: m.output_result_like,
                                    },
                                ),
                            ),
                        }
                    },
                },
            },
        }
    }
}

/// The consumer methods of the impl block, in order.
pub open spec fn cons_scan<R, X, E>(ms: Seq<BeanMethod<R, X, E>>) -> Scan<Seq<ConsSpec>, E> {
    scan_with(ms, |m: BeanMethod<R, X, E>, i: int, acc: Seq<ConsSpec>| cons_step(m, i, acc))
}

/// A `#[consumer]` method of the plan, with its own `#[intercept]` list.
pub struct ConsumerPlan<'a, X> {
    pub method: usize,
    pub config: ConsumerConfig,
    pub event_type: &'a Ty,
    pub responder: bool,
    pub fallible: bool,
    pub intercepts: &'a Vec<X>,
}

pub open spec fn cons_view<'a, X>(p: ConsumerPlan<'a, X>) -> ConsSpec {
    ConsSpec {
        method: p.method as int,
        config: p.config@,
        event_type: *p.event_type,
        responder: p.responder,
        fallible: p.fallible,
    }
}

/// Each entry's intercept list is the reading of its method's.
pub open spec fn cons_intercepts_match<'a, R, X, E>(
    ms: Seq<BeanMethod<R, X, E>>,
    v: Seq<ConsumerPlan<'a, X>>,
) -> bool {
    forall|k: int|
        0 <= k < v.len() ==> (#[trigger] v[k]).method < ms.len() && ms[v[k].method as int].intercepts
            == Ok::<Vec<X>, E>(*v[k].intercepts)
}

/// The position of the first typed parameter.
fn first_typed<E>(ps: &Vec<BeanParam<E>>) -> (r: Option<usize>)
    ensures
        match r {
            Some(j) => first_where(ps@, |p: BeanParam<E>| p is Typed) == Some(j as int),
            None => first_where(ps@, |p: BeanParam<E>| p is Typed) is None,
        },
{
    let ghost p = |p: BeanParam<E>| p is Typed;
    let mut i: usize = 0;
    while i < ps.len()
        invariant
            0 <= i <= ps@.len(),
            p == (|p: BeanParam<E>| p is Typed),
            first_where(ps@.take(i as int), p) is None,
        decreases ps@.len() - i,
    {
        proof {
            lemma_first_where_step(ps@, p, i as int);
        }
        if let BeanParam::Typed { .. } = &ps[i] {
            proof {
                lemma_first_where_prefix(ps@, p, i + 1);
            }
            return Some(i);
        }
        i = i + 1;
    }
    proof {
        assert(ps@.take(i as int) =~= ps@);
    }
    None
}

/// Whether a method's return type is written and is not `()`.
fn returns_reply<R, X, E>(m: &BeanMethod<R, X, E>) -> (r: bool)
    ensures
        r == is_responder(*m),
{
    match &m.output {
        None => false,
        Some(t) => match &t.kind {
            TyKind::Tuple(v) => v.len() != 0,
            _ => true,
        },
    }
}

/// Scan the methods that take `self` for `#[consumer(...)]`.
pub fn scan_consumers<'a, R, X, E>(ms: &'a Vec<BeanMethod<R, X, E>>) -> (r: Result<
    Vec<ConsumerPlan<'a, X>>,
    BeanFault<'a, E>,
>)
    ensures
        match r {
            Ok(v) => cons_scan(ms@) == Scan::<Seq<ConsSpec>, E>::Done(
                v@.map_values(|p: ConsumerPlan<'a, X>| cons_view(p)),
            ) && cons_intercepts_match(ms@, v@),
            Err(f) => cons_scan(ms@) == Scan::<Seq<ConsSpec>, E>::Fault(fault_view(f)),
        },
{
    let ghost step = |m: BeanMethod<R, X, E>, i: int, acc: Seq<ConsSpec>| cons_step(m, i, acc);
    let mut out: Vec<ConsumerPlan<'a, X>> = Vec::new();
    let mut i: usize = 0;
    proof {
        assert(ms@.take(0) =~= Seq::<BeanMethod<R, X, E>>::empty());
        assert(out@.map_values(|p: ConsumerPlan<'a, X>| cons_view(p)) =~= Seq::<ConsSpec>::empty());
    }
    while i < ms.len()
        invariant
            0 <= i <= ms@.len(),
            step == (|m: BeanMethod<R, X, E>, i: int, acc: Seq<ConsSpec>| cons_step(m, i, acc)),
            scan_with(ms@.take(i as int), step) == Scan::<Seq<ConsSpec>, E>::Done(
                out@.map_values(|p: ConsumerPlan<'a, X>| cons_view(p)),
            ),
            cons_intercepts_match(ms@, out@),
        decreases ms@.len() - i,
    {
        proof {
            lemma_scan_step(ms@, step, i as int);
        }
        let m = &ms[i];
        if !has_receiver_param(&m.params) {
            i = i + 1;
            continue;
        }
        let c = match extract_consumer(&m.attrs) {
            Err(e) => {
                proof {
                    lemma_scan_stop(ms@, step, i + 1);
                }
                return Err(BeanFault::At(BeanSite::Method(i), e));
            },
            Ok(None) => {
                i = i + 1;
                continue;
            },
            Ok(Some(c)) => c,
        };
        let j = match first_typed(&m.params) {
            None => {
                let f = BeanFault::At(
                    BeanSite::Method(i),
                    msg(
                        "#[consumer] method must have an event parameter typed as Arc<EventType>:\n\n  #[consumer(bus = \"event_bus\")]\n\n  async fn on_event(&self, event: Arc<MyEvent>) { }",
                    ),
                );
                proof {
                    lemma_scan_stop(ms@, step, i + 1);
                }
                return Err(f);
            },
            Some(j) => j,
        };
        proof {
            lemma_first_where(m.params@, |p: BeanParam<E>| p is Typed);
        }
        let ty: &'a Ty = match &m.params[j] {
            BeanParam::Typed { ty, .. } => ty,
            BeanParam::Receiver => {
                assert(false);
                return Err(BeanFault::At(BeanSite::Method(i), String::new()));
            },
        };
        let ev = match extract_event_type_from_arc(ty) {
            Err(e) => {
                proof {
                    lemma_scan_stop(ms@, step, i + 1);
                }
                return Err(BeanFault::At(BeanSite::Method(i), e));
            },
            Ok(ev) => ev,
        };
        let responder = returns_reply(m);
        if responder && (c.topic.is_some() || c.deserializer.is_some() || c.filter.is_some()
            || c.retry.is_some() || c.dlq.is_some()) {
            let f = BeanFault::At(
                BeanSite::Method(i),
                msg(
                    "a request-reply #[consumer] (non-`()` return) is a responder and does not support `topic`/`deserializer`/`filter`/`retry`/`dlq` — those are fan-out options",
                ),
            );
            proof {
                lemma_scan_stop(ms@, step, i + 1);
            }
            return Err(f);
        }
        let xs = match &m.intercepts {
            Err(e) => {
                proof {
                    lemma_scan_stop(ms@, step, i + 1);
                }
                return Err(BeanFault::Read(e));
            },
            Ok(xs) => xs,
        };
        let p = ConsumerPlan {
            method: i,
            config: c,
            event_type: ev,
            responder,
            fallible: m.output_result_like,
            intercepts: xs,
        };
        let ghost before = out@;
        out.push(p);
        proof {
            assert(out@.map_values(|p: ConsumerPlan<'a, X>| cons_view(p)) =~= before.map_values(
                |p: ConsumerPlan<'a, X>| cons_view(p),
            ).push(cons_view(p)));
            assert forall|k: int| 0 <= k < out@.len() implies (#[trigger] out@[k]).method < ms@.len()
                && ms@[out@[k].method as int].intercepts == Ok::<Vec<X>, E>(*out@[k].intercepts) by {
                if k < before.len() {
                    assert(out@[k] == before[k]);
                }
            }
        }
        i = i + 1;
    }
    proof {
        assert(ms@.take(i as int) =~= ms@);
    }
    Ok(out)
}

pub open spec fn post_construct_params_msg() -> Seq<char> {
    "#[post_construct] method must take only `&self` — no additional parameters"@
}

/// A `#[post_construct]` method: its position, `async`, and whether it
/// returns a `Result` whose error the hook propagates.
pub struct PostConstructPlan {
    pub method: usize,
    pub is_async: bool,
    pub returns_result: bool,
}

pub struct PcSpec {
    pub method: int,
    pub is_async: bool,
    pub returns_result: bool,
}

pub open spec fn pc_view(p: PostConstructPlan) -> PcSpec {
    PcSpec { method: p.method as int, is_async: p.is_async, returns_result: p.returns_result }
}

/// One method of the post-construct scan.
pub open spec fn pc_step<R, X, E>(m: BeanMethod<R, X, E>, i: int, acc: Seq<PcSpec>) -> Scan<Seq<PcSpec>, E> {
    if !takes_self(m.params@) || !has_named(m.attrs@, "post_construct"@) {
        Scan::Done(acc)
    } else if m.params@.len() > 1 {
        Scan::Fault(FaultSpec::At(BeanSite::Method(i as usize), post_construct_params_msg()))
    } else {
        Scan::Done(
            acc.push(
                PcSpec {
                    method: i,
                    is_async: m.is_async,
                    returns_result: m.output is Some && m.output_result_like,
                },
            ),
        )
    }
}

/// The post-construct methods of the impl block, in order.
pub open spec fn pc_scan<R, X, E>(ms: Seq<BeanMethod<R, X, E>>) -> Scan<Seq<PcSpec>, E> {
    scan_with(ms, |m: BeanMethod<R, X, E>, i: int, acc: Seq<PcSpec>| pc_step(m, i, acc))
}

/// Scan the methods that take `self` for `#[post_construct]`.
pub fn scan_post_construct<R, X, E>(ms: &Vec<BeanMethod<R, X, E>>) -> (r: Result<
    Vec<PostConstructPlan>,
    (usize, String),
>)
    ensures
        match r {
            Ok(v) => pc_scan(ms@) == Scan::<Seq<PcSpec>, E>::Done(
                v@.map_values(|p: PostConstructPlan| pc_view(p)),
            ),
            Err((i, m)) => pc_scan(ms@) == Scan::<Seq<PcSpec>, E>::Fault(
                FaultSpec::At(BeanSite::Method(i), m@),
            ),
        },
{
    let ghost step = |m: BeanMethod<R, X, E>, i: int, acc: Seq<PcSpec>| pc_step(m, i, acc);
    let mut out: Vec<PostConstructPlan> = Vec::new();
    let mut i: usize = 0;
    proof {
        assert(ms@.take(0) =~= Seq::<BeanMethod<R, X, E>>::empty());
        assert(out@.map_values(|p: PostConstructPlan| pc_view(p)) =~= Seq::<PcSpec>::empty());
    }
    while i < ms.len()
        invariant
            0 <= i <= ms@.len(),
            step == (|m: BeanMethod<R, X, E>, i: int, acc: Seq<PcSpec>| pc_step(m, i, acc)),
            scan_with(ms@.take(i as int), step) == Scan::<Seq<PcSpec>, E>::Done(
                out@.map_values(|p: PostConstructPlan| pc_view(p)),
            ),
        decreases ms@.len() - i,
    {
        proof {
            lemma_scan_step(ms@, step, i as int);
        }
        let m = &ms[i];
        if has_receiver_param(&m.params) && any_named(&m.attrs, "post_construct") {
            if m.params.len() > 1 {
                let e = msg("#[post_construct] method must take only `&self` — no additional parameters");
                proof {
                    lemma_scan_stop(ms@, step, i + 1);
                }
                return Err((i, e));
            }
            let p = PostConstructPlan {
                method: i,
                is_async: m.is_async,
                returns_result: m.output.is_some() && m.output_result_like,
            };
            let ghost before = out@;
            out.push(p);
            proof {
                assert(out@.map_values(|p: PostConstructPlan| pc_view(p)) =~= before.map_values(
                    |p: PostConstructPlan| pc_view(p),
                ).push(pc_view(p)));
            }
        }
        i = i + 1;
    }
    proof {
        assert(ms@.take(i as int) =~= ms@);
    }
    Ok(out)
}

// ── the plan ────────────────────────────────────────────────────────────

pub open spec fn lazy_scheduled_msg() -> Seq<char> {
    "#[bean(lazy)] does not yet support #[scheduled] methods — remove one or the other"@
}

pub open spec fn lazy_consumer_msg() -> Seq<char> {
    "#[bean(lazy)] does not yet support #[consumer] methods — remove one or the other"@
}

pub open spec fn lazy_post_construct_msg() -> Seq<char> {
    "#[bean(lazy)] does not yet support #[post_construct] — remove one or the other"@
}

pub open spec fn idle_impl_intercept_msg() -> Seq<char> {
    "impl-level #[intercept] on a #[bean] impl requires at least one #[scheduled] or #[consumer] method — it applies to those methods, and there are none here"@
}

/// Whether a dependency list reads configuration.
pub open spec fn reads_config(ds: Seq<DepSpec>) -> bool {
    exists|k: int| 0 <= k < ds.len() && (#[trigger] ds[k] is Section || ds[k] is Config)
}

/// What the `#[bean]` impl block builds, as values.
pub struct PlanSpec {
    pub constructor: int,
    pub is_async: bool,
    pub lazy: bool,
    pub deps: Seq<DepSpec>,
    pub has_config: bool,
    pub scheduled: Seq<SchedSpec>,
    pub consumers: Seq<ConsSpec>,
    pub post_construct: Seq<PcSpec>,
}

/// What the `#[bean]` impl block builds, or why it is refused: the
/// constructor, its dependencies, the impl's `#[intercept]` reading, stray
/// interceptors, then the scheduled, consumer and post-construct methods,
/// each followed by the check that `lazy` does not meet them, and last an
/// impl-level `#[intercept]` with nothing to apply to.
pub open spec fn bean_outcome<R, X, E>(imp: BeanImpl<R, X, E>) -> Scan<PlanSpec, E> {
    let ms = imp.methods@;
    match constructor_index(ms, imp.self_ty) {
        None => Scan::Fault(FaultSpec::At(BeanSite::SelfTy, no_constructor_msg())),
        Some(c) => match deps_of(ms[c].params@) {
            Err(f) => Scan::Fault(f),
            Ok(deps) => match imp.intercepts {
                Err(e) => Scan::Fault(FaultSpec::Read(e)),
                Ok(ii) => match first_where(ms, |m: BeanMethod<R, X, E>| stray_intercept(m)) {
                    Some(i) => Scan::Fault(FaultSpec::At(BeanSite::Method(i as usize), stray_intercept_msg())),
                    None => match sched_scan(ms) {
                        Scan::Overflow => Scan::Overflow,
                        Scan::Fault(f) => Scan::Fault(f),
                        Scan::Done(ss) => if imp.lazy && ss.len() > 0 {
                            Scan::Fault(FaultSpec::At(BeanSite::SelfTy, lazy_scheduled_msg()))
                        } else {
                            match cons_scan(ms) {
                                Scan::Overflow => Scan::Overflow,
                                Scan::Fault(f) => Scan::Fault(f),
                                Scan::Done(cs) => if imp.lazy && cs.len() > 0 {
                                    Scan::Fault(FaultSpec::At(BeanSite::SelfTy, lazy_consumer_msg()))
                                } else {
                                    match pc_scan(ms) {
                                        Scan::Overflow => Scan::Overflow,
                                        Scan::Fault(f) => Scan::Fault(f),
                                        Scan::Done(ps) => if imp.lazy && ps.len() > 0 {
                                            Scan::Fault(
                                                FaultSpec::At(BeanSite::SelfTy, lazy_post_construct_msg()),
                                            )
                                        } else if ii@.len() > 0 && ss.len() == 0 && cs.len() == 0 {
                                            Scan::Fault(
                                                FaultSpec::At(BeanSite::ImplIntercept, idle_impl_intercept_msg()),
                                            )
                                        } else {
                                            Scan::Done(
                                                PlanSpec {
                                                    constructor: c,
                                                    is_async: ms[c].is_async,
                                                    lazy: imp.lazy,
                                                    deps,
                                                    has_config: reads_config(deps),
                                                    scheduled: ss,
                                                    consumers: cs,
                                                    post_construct: ps,
                                                },
                                            )
                                        },
                                    }
                                },
                            }
                        },
                    },
                },
            },
        },
    }
}

/// What a `#[bean]` impl block builds: the constructor (position and
/// `async`), what each of its parameters depends on, whether it reads
/// configuration, the impl's own `#[intercept]` list, and the scheduled,
/// consumer and post-construct methods. An intercepted method runs the
/// impl's interceptors first, then its own.
pub struct BeanPlan<'a, X> {
    pub constructor: usize,
    pub is_async: bool,
    pub lazy: bool,
    pub deps: Vec<BeanDep<'a>>,
    pub has_config: bool,
    pub impl_intercepts: &'a Vec<X>,
    pub scheduled: Vec<ScheduledPlan<'a, X>>,
    pub consumers: Vec<ConsumerPlan<'a, X>>,
    pub post_construct: Vec<PostConstructPlan>,
}

pub open spec fn plan_view<'a, X>(p: BeanPlan<'a, X>) -> PlanSpec {
    PlanSpec {
        constructor: p.constructor as int,
        is_async: p.is_async,
        lazy: p.lazy,
        deps: p.deps@.map_values(|d: BeanDep<'a>| dep_view(d)),
        has_config: p.has_config,
        scheduled: p.scheduled@.map_values(|x: ScheduledPlan<'a, X>| sched_view(x)),
        consumers: p.consumers@.map_values(|x: ConsumerPlan<'a, X>| cons_view(x)),
        post_construct: p.post_construct@.map_values(|x: PostConstructPlan| pc_view(x)),
    }
}

/// Whether a dependency list reads configuration.
fn deps_read_config<'a>(ds: &Vec<BeanDep<'a>>) -> (r: bool)
    ensures
        r == reads_config(ds@.map_values(|d: BeanDep<'a>| dep_view(d))),
{
    let ghost v = ds@.map_values(|d: BeanDep<'a>| dep_view(d));
    let mut i: usize = 0;
    while i < ds.len()
        invariant
            0 <= i <= ds@.len(),
            v == ds@.map_values(|d: BeanDep<'a>| dep_view(d)),
            forall|k: int| 0 <= k < i ==> !(#[trigger] v[k] is Section || v[k] is Config),
        decreases ds@.len() - i,
    {
        match &ds[i] {
            BeanDep::Section(_) | BeanDep::Config(..) => {
                assert(v[i as int] is Section || v[i as int] is Config);
                return true;
            },
            _ => {},
        }
        i = i + 1;
    }
    false
}

/// Plan a `#[bean]` impl block.
pub fn plan_bean<'a, R, X, E>(imp: &'a BeanImpl<R, X, E>) -> (r: Result<BeanPlan<'a, X>, BeanFault<'a, E>>)
    requires
        !(bean_outcome(*imp) is Overflow),
    ensures
        match r {
            Ok(p) => bean_outcome(*imp) == Scan::<PlanSpec, E>::Done(plan_view(p)) && imp.intercepts
                == Ok::<Vec<X>, E>(*p.impl_intercepts) && sched_intercepts_match(imp.methods@, p.scheduled@)
                && cons_intercepts_match(imp.methods@, p.consumers@),
            Err(f) => bean_outcome(*imp) == Scan::<PlanSpec, E>::Fault(fault_view(f)),
        },
{
    let ms = &imp.methods;
    let c = match find_constructor(imp) {
        None => {
            return Err(
                BeanFault::At(
                    BeanSite::SelfTy,
                    msg(
                        "#[bean] requires a constructor — a static method returning Self:\n\n  #[bean]\n  impl MyService {\n      fn new(dep: OtherService) -> Self {\n          Self { dep }\n      }\n  }",
                    ),
                ),
            );
        },
        Some(c) => c,
    };
    proof {
        lemma_first_where(ms@, |m: BeanMethod<R, X, E>| is_constructor(m, imp.self_ty));
    }
    let deps = match constructor_deps(&ms[c].params) {
        Err(f) => return Err(f),
        Ok(d) => d,
    };
    let ii = match &imp.intercepts {
        Err(e) => return Err(BeanFault::Read(e)),
        Ok(ii) => ii,
    };
    match find_stray_intercept(ms) {
        Some(i) => {
            return Err(
                BeanFault::At(
                    BeanSite::Method(i),
                    msg(
                        "#[intercept] on a bean method is only supported on #[scheduled]/#[consumer] methods — a plain method has no dispatch wrapper to run the interceptor chain",
                    ),
                ),
            );
        },
        None => {},
    }
    let scheduled = scan_scheduled(ms)?;
    if imp.lazy && scheduled.len() > 0 {
        return Err(
            BeanFault::At(
                BeanSite::SelfTy,
                msg("#[bean(lazy)] does not yet support #[scheduled] methods — remove one or the other"),
            ),
        );
    }
    let consumers = scan_consumers(ms)?;
    if imp.lazy && consumers.len() > 0 {
        return Err(
            BeanFault::At(
                BeanSite::SelfTy,
                msg("#[bean(lazy)] does not yet support #[consumer] methods — remove one or the other"),
            ),
        );
    }
    let post_construct = match scan_post_construct(ms) {
        Err((i, m)) => return Err(BeanFault::At(BeanSite::Method(i), m)),
        Ok(v) => v,
    };
    if imp.lazy && post_construct.len() > 0 {
        return Err(
            BeanFault::At(
                BeanSite::SelfTy,
                msg("#[bean(lazy)] does not yet support #[post_construct] — remove one or the other"),
            ),
        );
    }
    if ii.len() > 0 && scheduled.len() == 0 && consumers.len() == 0 {
        return Err(
            BeanFault::At(
                BeanSite::ImplIntercept,
                msg(
                    "impl-level #[intercept] on a #[bean] impl requires at least one #[scheduled] or #[consumer] method — it applies to those methods, and there are none here",
                ),
            ),
        );
    }
    let has_config = deps_read_config(&deps);
    Ok(
        BeanPlan {
            constructor: c,
            is_async: ms[c].is_async,
            lazy: imp.lazy,
            deps,
            has_config,
            impl_intercepts: ii,
            scheduled,
            consumers,
            post_construct,
        },
    )
}

// ── arguments and naming ────────────────────────────────────────────────

/// The reading of `#[bean(...)]`'s arguments: `lazy` is the one accepted;
/// it takes no value.
pub open spec fn lazy_args(ms: Seq<MetaArg>) -> Result<bool, Seq<char>>
    decreases ms.len(),
{
    if ms.len() == 0 {
        Ok(false)
    } else if ms[0].key@ != "lazy"@ {
        Err("expected `lazy`"@)
    } else if !(ms[0].value is Bare) {
        Err("expected `,`"@)
    } else {
        match lazy_args(ms.drop_first()) {
            Ok(_) => Ok(true),
            Err(e) => Err(e),
        }
    }
}

/// The refusal of one argument of `#[bean(...)]`, if it is refused.
pub open spec fn lazy_arg_fault(a: MetaArg) -> Option<Seq<char>> {
    if a.key@ != "lazy"@ {
        Some("expected `lazy`"@)
    } else if !(a.value is Bare) {
        Some("expected `,`"@)
    } else {
        None
    }
}

proof fn lemma_lazy_args(s: Seq<MetaArg>, i: int)
    requires
        0 <= i <= s.len(),
        forall|k: int| 0 <= k < i ==> lazy_arg_fault(#[trigger] s[k]) is None,
    ensures
        i == s.len() ==> lazy_args(s) == Ok::<bool, Seq<char>>(s.len() > 0),
        i < s.len() && lazy_arg_fault(s[i]) is Some ==> lazy_args(s) == Err::<bool, Seq<char>>(
            lazy_arg_fault(s[i])->Some_0,
        ),
    decreases i,
{
    if i > 0 {
        let t = s.drop_first();
        assert forall|k: int| 0 <= k < i - 1 implies lazy_arg_fault(#[trigger] t[k]) is None by {
            assert(t[k] == s[k + 1]);
        }
        lemma_lazy_args(t, i - 1);
        assert(lazy_arg_fault(s[0]) is None);
        if i < s.len() {
            assert(t[i - 1] == s[i]);
        }
    }
}

/// Whether `#[bean(...)]` asks for a lazy bean, from its arguments read as
/// nested metas.
pub fn parse_bean_args(args: &Result<Vec<MetaArg>, String>) -> (r: Result<bool, String>)
    ensures
        match args {
            Err(e) => r matches Err(x) && x@ == e@,
            Ok(v) => match lazy_args(v@) {
                Ok(b) => r == Ok::<bool, String>(b),
                Err(m) => r matches Err(x) && x@ == m,
            },
        },
{
    let v = match args {
        Err(e) => return Err(e.clone()),
        Ok(v) => v,
    };
    proof {
        reveal_strlit("lazy");
        reveal_strlit("expected `lazy`");
        reveal_strlit("expected `,`");
    }
    let mut i: usize = 0;
    while i < v.len()
        invariant
            0 <= i <= v@.len(),
            *args == Ok::<Vec<MetaArg>, String>(*v),
            forall|k: int| 0 <= k < i ==> lazy_arg_fault(#[trigger] v@[k]) is None,
        decreases v@.len() - i,
    {
        if !str_is(v[i].key.as_str(), "lazy") {
            proof {
                lemma_lazy_args(v@, i as int);
            }
            return Err(msg("expected `lazy`"));
        }
        match &v[i].value {
            MetaValue::Bare => {},
            _ => {
                proof {
                    lemma_lazy_args(v@, i as int);
                }
                return Err(msg("expected `,`"));
            },
        }
        i = i + 1;
    }
    proof {
        lemma_lazy_args(v@, i as int);
    }
    Ok(i > 0)
}

/// The name of the impl's type that hidden items are named after: the last
/// segment of its path, or `Bean`.
pub fn bean_type_ident(t: &Ty) -> (r: String)
    ensures
        r@ == match last_seg(*t) {
            Some(s) => s.ident@,
            None => "Bean"@,
        },
{
    match last_segment(t) {
        Some(s) => s.ident.clone(),
        None => msg("Bean"),
    }
}

// ── laws ────────────────────────────────────────────────────────────────

/// What holds of every element a scan collects, when each step keeps it.
proof fn lemma_scan_all<M, T, E>(
    ms: Seq<M>,
    step: spec_fn(M, int, Seq<T>) -> Scan<Seq<T>, E>,
    good: spec_fn(T) -> bool,
)
    requires
        forall|i: int, acc: Seq<T>|
            #![trigger step(ms[i], i, acc)]
            0 <= i < ms.len() && (forall|k: int| 0 <= k < acc.len() ==> good(#[trigger] acc[k]))
                && step(ms[i], i, acc) is Done ==> forall|k: int|
                0 <= k < step(ms[i], i, acc)->Done_0.len() ==> good(
                    #[trigger] step(ms[i], i, acc)->Done_0[k],
                ),
    ensures
        scan_with(ms, step) is Done ==> forall|k: int|
            0 <= k < scan_with(ms, step)->Done_0.len() ==> good(#[trigger] scan_with(ms, step)->Done_0[k]),
    decreases ms.len(),
{
    if ms.len() > 0 {
        let pre = ms.drop_last();
        assert forall|i: int, acc: Seq<T>|
            #![trigger step(pre[i], i, acc)]
            0 <= i < pre.len() && (forall|k: int| 0 <= k < acc.len() ==> good(#[trigger] acc[k]))
                && step(pre[i], i, acc) is Done implies forall|k: int|
                0 <= k < step(pre[i], i, acc)->Done_0.len() ==> good(
                    #[trigger] step(pre[i], i, acc)->Done_0[k],
                ) by {
            assert(pre[i] == ms[i]);
        }
        lemma_scan_all(pre, step, good);
        let n = ms.len() - 1;
        assert(ms.last() == ms[n]);
    }
}

/// A scheduled method of the plan takes `&self` and nothing else.
pub open spec fn self_only<R, X, E>(ms: Seq<BeanMethod<R, X, E>>, s: SchedSpec) -> bool {
    0 <= s.method < ms.len() && takes_self(ms[s.method].params@) && ms[s.method].params@.len() == 1
}

/// Of every `#[bean]` impl block that is accepted: the constructor is a
/// method without `self` that returns the impl's type, and no method before
/// it is one; every scheduled method takes `&self` and nothing else; and a
/// lazy bean wires no scheduled, consumer or post-construct method.
pub proof fn lemma_bean_plan_shape<R, X, E>(imp: BeanImpl<R, X, E>, p: PlanSpec)
    requires
        bean_outcome(imp) == Scan::<PlanSpec, E>::Done(p),
    ensures
        0 <= p.constructor < imp.methods@.len(),
        is_constructor(imp.methods@[p.constructor], imp.self_ty),
        forall|k: int| 0 <= k < p.constructor ==> !is_constructor(#[trigger] imp.methods@[k], imp.self_ty),
        forall|k: int| 0 <= k < p.scheduled.len() ==> self_only(imp.methods@, #[trigger] p.scheduled[k]),
        p.lazy ==> p.scheduled.len() == 0 && p.consumers.len() == 0 && p.post_construct.len() == 0,
{
    let ms = imp.methods@;
    lemma_first_where(ms, |m: BeanMethod<R, X, E>| is_constructor(m, imp.self_ty));
    let step = |m: BeanMethod<R, X, E>, i: int, acc: Seq<SchedSpec>| sched_step(m, i, acc);
    let good = |s: SchedSpec| self_only(ms, s);
    assert forall|i: int, acc: Seq<SchedSpec>|
        #![trigger step(ms[i], i, acc)]
        0 <= i < ms.len() && (forall|k: int| 0 <= k < acc.len() ==> good(#[trigger] acc[k]))
            && step(ms[i], i, acc) is Done implies forall|k: int|
            0 <= k < step(ms[i], i, acc)->Done_0.len() ==> good(#[trigger] step(ms[i], i, acc)->Done_0[k]) by {
        let out = step(ms[i], i, acc)->Done_0;
        assert forall|k: int| 0 <= k < out.len() implies good(#[trigger] out[k]) by {
            if k < acc.len() {
                assert(out[k] == acc[k]);
            } else {
                let j = choose|j: int| 0 <= j < ms[i].params@.len() && #[trigger] ms[i].params@[j] is Receiver;
                assert(ms[i].params@.len() >= 1);
            }
        }
    }
    lemma_scan_all(ms, step, good);
}


// ── the item under `#[bean]` ────────────────────────────────────────────

/// The item `#[bean]` is written on.
pub enum BeanItem {
    /// A struct; `named_fields` when it has braces.
    Struct { named_fields: bool },
    Impl,
    Other,
}

/// Why `#[bean]` refuses its item: arguments on a struct, a struct without
/// named fields, or an item that is neither a struct nor an impl block.
#[derive(PartialEq, Eq, Structural, Clone, Copy, Debug)]
pub enum BeanItemFault {
    StructArgs,
    StructFields,
    NotStructOrImpl,
}

pub open spec fn bean_item_msg(f: BeanItemFault) -> Seq<char> {
    match f {
        BeanItemFault::StructArgs => "#[bean] on a struct takes no arguments (`lazy` applies to the impl block)"@,
        BeanItemFault::StructFields => "#[bean] on a struct requires named fields to hold the hidden decorator slot — give the struct braces (`struct Foo { .. }`), even if empty (`struct Foo {}`)"@,
        BeanItemFault::NotStructOrImpl => "#[bean] is only valid on a `struct` (to inject the decorator slot) or an `impl` block (to declare the constructor / scheduled / consumer methods)"@,
    }
}

impl BeanItemFault {
    /// The diagnostic of the refusal.
    pub fn message(&self) -> (r: String)
        ensures
            r@ == bean_item_msg(*self),
    {
        match self {
            BeanItemFault::StructArgs => msg(
                "#[bean] on a struct takes no arguments (`lazy` applies to the impl block)",
            ),
            BeanItemFault::StructFields => msg(
                "#[bean] on a struct requires named fields to hold the hidden decorator slot — give the struct braces (`struct Foo { .. }`), even if empty (`struct Foo {}`)",
            ),
            BeanItemFault::NotStructOrImpl => msg(
                "#[bean] is only valid on a `struct` (to inject the decorator slot) or an `impl` block (to declare the constructor / scheduled / consumer methods)",
            ),
        }
    }
}

/// Whether `#[bean]` accepts its item: a struct, without arguments and with
/// named fields (it receives the hidden decorator slot), or an impl block
/// (whose arguments are read separately).
pub fn check_bean_item(item: &BeanItem, has_args: bool) -> (r: Result<(), BeanItemFault>)
    ensures
        r == match *item {
            BeanItem::Struct { named_fields } => if has_args {
                Err(BeanItemFault::StructArgs)
            } else if !named_fields {
                Err(BeanItemFault::StructFields)
            } else {
                Ok(())
            },
            BeanItem::Impl => Ok(()),
            BeanItem::Other => Err(BeanItemFault::NotStructOrImpl),
        },
{
    match item {
        BeanItem::Struct { named_fields } => if has_args {
            Err(BeanItemFault::StructArgs)
        } else if !*named_fields {
            Err(BeanItemFault::StructFields)
        } else {
            Ok(())
        },
        BeanItem::Impl => Ok(()),
        BeanItem::Other => Err(BeanItemFault::NotStructOrImpl),
    }
}

/// Whether a struct literal builds the bean's own type: its path is `Self`,
/// or ends in the last segment of the impl's self type.
pub open spec fn builds_self(path: Seq<String>, self_ty: Ty) -> bool {
    (path.len() == 1 && path[0]@ == "Self"@) || (last_seg(self_ty) matches Some(s) && path.len() > 0
        && path.last()@ == s.ident@)
}

/// Whether a struct literal, in an impl block with interceptor sites, must
/// have the hidden decorator slot added: it builds the bean's own type, has
/// no `..base` (which fills and shares the slot) and does not set the slot
/// itself.
pub open spec fn literal_needs_slot(
    path: Seq<String>,
    has_rest: bool,
    members: Seq<Option<String>>,
    self_ty: Ty,
) -> bool {
    !has_rest && builds_self(path, self_ty) && !(exists|k: int|
        0 <= k < members.len() && (#[trigger] members[k] matches Some(m) && m@ == "__r2e_decos"@))
}

/// Whether the struct literal with path segments `path`, a `..base` where
/// `has_rest`, and named members `members` (`None` for a positional one),
/// written in the impl block of `self_ty`, gets the hidden decorator slot
/// `__r2e_decos` added.
pub fn struct_literal_needs_slot(
    path: &Vec<String>,
    has_rest: bool,
    members: &Vec<Option<String>>,
    self_ty: &Ty,
) -> (r: bool)
    ensures
        r == literal_needs_slot(path@, has_rest, members@, *self_ty),
{
    if has_rest {
        return false;
    }
    let is_self = (path.len() == 1 && str_is(path[0].as_str(), "Self")) || match last_segment(self_ty) {
        Some(s) => path.len() > 0 && str_is(path[path.len() - 1].as_str(), s.ident.as_str()),
        None => false,
    };
    if !is_self {
        return false;
    }
    let mut i: usize = 0;
    while i < members.len()
        invariant
            0 <= i <= members@.len(),
            forall|k: int|
                0 <= k < i ==> !(#[trigger] members@[k] matches Some(m) && m@ == "__r2e_decos"@),
        decreases members@.len() - i,
    {
        if let Some(m) = &members[i] {
            if str_is(m.as_str(), "__r2e_decos") {
                return false;
            }
        }
        i = i + 1;
    }
    true
}


// ── the emitted impl block ──────────────────────────────────────────────

/// How a method of the impl block is emitted: a constructor keeps its
/// attributes and loses its parameters' injection annotations; an
/// intercepted scheduled or consumer method is split into a hidden inner
/// method and a dispatch wrapper; any other method loses its wiring
/// attributes.
#[derive(PartialEq, Eq, Structural, Clone, Copy, Debug)]
pub enum MethodEmission {
    Constructor,
    Intercepted,
    Plain,
}

pub open spec fn emission_of<R, X, E>(m: BeanMethod<R, X, E>, self_ty: Ty, intercepted: Seq<String>) -> MethodEmission {
    if is_constructor(m, self_ty) {
        MethodEmission::Constructor
    } else if exists|k: int| 0 <= k < intercepted.len() && (#[trigger] intercepted[k])@ == m.ident@ {
        MethodEmission::Intercepted
    } else {
        MethodEmission::Plain
    }
}

/// How each method of the impl block is emitted, given the names of the
/// intercepted scheduled and consumer methods. Every static method returning
/// `Self` counts as a constructor here.
pub fn method_emissions<R, X, E>(imp: &BeanImpl<R, X, E>, intercepted: &Vec<String>) -> (r: Vec<MethodEmission>)
    ensures
        r@.len() == imp.methods@.len(),
        forall|k: int|
            0 <= k < r@.len() ==> #[trigger] r@[k] == emission_of(imp.methods@[k], imp.self_ty, intercepted@),
{
    let mut out: Vec<MethodEmission> = Vec::new();
    let mut i: usize = 0;
    while i < imp.methods.len()
        invariant
            0 <= i <= imp.methods@.len(),
            out@.len() == i,
            forall|k: int|
                0 <= k < i ==> #[trigger] out@[k] == emission_of(imp.methods@[k], imp.self_ty, intercepted@),
        decreases imp.methods@.len() - i,
    {
        let m = &imp.methods[i];
        let e = if !has_receiver_param(&m.params) && is_self_return(&m.output, &imp.self_ty) {
            MethodEmission::Constructor
        } else {
            let mut found = false;
            let mut j: usize = 0;
            while j < intercepted.len()
                invariant
                    0 <= j <= intercepted@.len(),
                    found == exists|k: int| 0 <= k < j && (#[trigger] intercepted@[k])@ == m.ident@,
                decreases intercepted@.len() - j,
            {
                if str_is(intercepted[j].as_str(), m.ident.as_str()) {
                    found = true;
                }
                j = j + 1;
            }
            if found {
                MethodEmission::Intercepted
            } else {
                MethodEmission::Plain
            }
        };
        out.push(e);
        i = i + 1;
    }
    out
}

/// Whether a parameter attribute is an injection annotation that the
/// emitted constructor drops.
pub open spec fn injection_attr<R>(a: Attr<R>) -> bool {
    named(a, "config"@) || named(a, "config_section"@) || named(a, "inject"@)
}

/// The attributes a constructor parameter keeps: all but `#[config]`,
/// `#[config_section]` and `#[inject]`.
pub fn strip_injection_attrs<R>(attrs: Vec<Attr<R>>) -> (r: Vec<Attr<R>>)
    ensures
        r@ == attrs@.filter(|a: Attr<R>| !injection_attr(a)),
{
    let names = vec!["config", "config_section", "inject"];
    let r = retain_unnamed(attrs, &names);
    proof {
        let ns = name_views(names@);
        assert forall|a: Attr<R>| #![auto] named_any(a, ns) == injection_attr(a) by {
            if named_any(a, ns) {
                let k = choose|k: int| 0 <= k < ns.len() && named(a, #[trigger] ns[k]);
                assert(ns[k] == names@[k]@);
            }
            if named(a, "config"@) {
                assert(ns[0] == "config"@);
            }
            if named(a, "config_section"@) {
                assert(ns[1] == "config_section"@);
            }
            if named(a, "inject"@) {
                assert(ns[2] == "inject"@);
            }
        }
        assert((|a: Attr<R>| !named_any(a, ns)) =~= (|a: Attr<R>| !injection_attr(a)));
    }
    r
}


// ── duration overflow ───────────────────────────────────────────────────

/// A scan whose steps never overflow never overflows.
proof fn lemma_scan_no_overflow<M, T, E>(ms: Seq<M>, step: spec_fn(M, int, Seq<T>) -> Scan<Seq<T>, E>)
    requires
        forall|m: M, i: int, acc: Seq<T>| !(#[trigger] step(m, i, acc) is Overflow),
    ensures
        !(scan_with(ms, step) is Overflow),
    decreases ms.len(),
{
    if ms.len() > 0 {
        lemma_scan_no_overflow(ms.drop_last(), step);
    }
}

/// Whether the scan for `#[scheduled]` methods stops on a duration that
/// overflows.
fn sched_scan_overflows<R, X, E>(ms: &Vec<BeanMethod<R, X, E>>) -> (r: bool)
    ensures
        r == (sched_scan(ms@) is Overflow),
{
    let ghost step = |m: BeanMethod<R, X, E>, i: int, acc: Seq<SchedSpec>| sched_step(m, i, acc);
    let ghost mut acc: Seq<SchedSpec> = Seq::empty();
    let mut i: usize = 0;
    proof {
        assert(ms@.take(0) =~= Seq::<BeanMethod<R, X, E>>::empty());
    }
    while i < ms.len()
        invariant
            0 <= i <= ms@.len(),
            step == (|m: BeanMethod<R, X, E>, i: int, acc: Seq<SchedSpec>| sched_step(m, i, acc)),
            scan_with(ms@.take(i as int), step) == Scan::<Seq<SchedSpec>, E>::Done(acc),
        decreases ms@.len() - i,
    {
        proof {
            lemma_scan_step(ms@, step, i as int);
            reveal_strlit("consumer");
        }
        let m = &ms[i];
        let done = match read_scheduled(&m.attrs) {
            ReadResult::Overflow => {
                proof {
                    lemma_scan_stop(ms@, step, i + 1);
                }
                return true;
            },
            ReadResult::Refused(_) => false,
            ReadResult::Value(None) => true,
            ReadResult::Value(Some(c)) => !any_named(&m.attrs, "consumer") && has_receiver_param(&m.params)
                && m.params.len() <= 1 && m.intercepts.is_ok(),
        };
        if !done {
            proof {
                lemma_scan_stop(ms@, step, i + 1);
            }
            return false;
        }
        proof {
            acc = scan_with(ms@.take(i + 1), step)->Done_0;
        }
        i = i + 1;
    }
    proof {
        assert(ms@.take(i as int) =~= ms@);
    }
    false
}

/// Whether planning the impl block would meet a duration that overflows
/// while a `#[scheduled]` attribute is read (where the macro panics): the
/// case that `plan_bean` leaves out. Test it before calling `plan_bean`.
pub fn bean_overflows<R, X, E>(imp: &BeanImpl<R, X, E>) -> (r: bool)
    ensures
        r == (bean_outcome(*imp) is Overflow),
{
    let ms = &imp.methods;
    proof {
        lemma_scan_no_overflow(ms@, |m: BeanMethod<R, X, E>, i: int, acc: Seq<ConsSpec>| cons_step(m, i, acc));
        lemma_scan_no_overflow(ms@, |m: BeanMethod<R, X, E>, i: int, acc: Seq<PcSpec>| pc_step(m, i, acc));
    }
    let c = match find_constructor(imp) {
        None => return false,
        Some(c) => c,
    };
    proof {
        lemma_first_where(ms@, |m: BeanMethod<R, X, E>| is_constructor(m, imp.self_ty));
    }
    if constructor_deps(&ms[c].params).is_err() {
        return false;
    }
    if imp.intercepts.is_err() {
        return false;
    }
    if find_stray_intercept(ms).is_some() {
        return false;
    }
    sched_scan_overflows(ms)
}

} // verus!
