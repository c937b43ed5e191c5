//! `#[grpc_routes(Trait)]` on an impl block: which methods are gRPC
//! handlers, what each declares (roles, guards, interceptors, an identity
//! parameter), and which are passed through as helpers.

use vstd::prelude::*;

use crate::attrs::{is_named, name_views, named, named_any, retain_unnamed, Attr};
use crate::controller::{has_qualifier, qualifier_is};
use crate::extract::route::{extract_roles, roles_outcome, string_views};
use crate::text::{chars_of, string_of};
use crate::types::{last_seg, unwrap_option_type, wrapped_in, Ty, TyKind};

verus! {

/// A parameter of a method: a receiver, or a typed parameter with its type
/// and attributes.
pub enum GrpcParam<R> {
    Receiver,
    Typed { ty: Ty, attrs: Vec<Attr<R>> },
}

/// A method of the impl block: name, `async`, parameters, attributes, and
/// the readings of its `#[guard(...)]` and `#[intercept(...)]` attributes.
pub struct GrpcMethodInput<R, X, E> {
    pub ident: String,
    pub is_async: bool,
    pub params: Vec<GrpcParam<R>>,
    pub attrs: Vec<Attr<R>>,
    pub guards: Result<Vec<X>, E>,
    pub intercepts: Result<Vec<X>, E>,
}

/// The impl block: its self type, the reading of its own `#[intercept]`
/// attributes, and its methods in order.
pub struct GrpcImplInput<R, X, E> {
    pub self_ty: Ty,
    pub intercepts: Result<Vec<X>, E>,
    pub methods: Vec<GrpcMethodInput<R, X, E>>,
}

#[derive(PartialEq, Eq, Structural, Clone, Copy, Debug)]
pub enum GrpcSite {
    SelfTy,
    /// Parameter `.1` of method `.0`.
    Param(usize, usize),
}

pub enum GrpcFault<'a, E> {
    Read(&'a E),
    /// A refusal of a method's `#[roles(...)]`.
    Roles(usize, String),
    At(GrpcSite, String),
}

pub enum GFaultSpec<E> {
    Read(E),
    Roles(int, Seq<char>),
    At(GrpcSite, Seq<char>),
}

pub open spec fn gfault_view<'a, E>(f: GrpcFault<'a, E>) -> GFaultSpec<E> {
    match f {
        GrpcFault::Read(e) => GFaultSpec::Read(*e),
        GrpcFault::Roles(i, m) => GFaultSpec::Roles(i as int, m@),
        GrpcFault::At(s, m) => GFaultSpec::At(s, m@),
    }
}

pub open spec fn expected_type_name_msg() -> Seq<char> {
    "expected type name"@
}

pub open spec fn expected_type_path_msg() -> Seq<char> {
    "expected a type path"@
}

pub open spec fn second_identity_msg() -> Seq<char> {
    "only one #[inject(identity)] parameter is allowed per gRPC handler"@
}

/// An attribute that marks the request's identity: `#[inject(identity)]`,
/// or the older `#[identity]`.
pub open spec fn is_identity_attr<R>(a: Attr<R>) -> bool {
    (named(a, "inject"@) && qualifier_is(a, "identity"@)) || named(a, "identity"@)
}

/// Whether a parameter is marked as the identity.
pub open spec fn identity_marked<R>(p: GrpcParam<R>) -> bool {
    match p {
        GrpcParam::Typed { attrs, .. } => exists|k: int| 0 <= k < attrs@.len() && is_identity_attr(#[trigger] attrs@[k]),
        GrpcParam::Receiver => false,
    }
}

/// The position of the identity parameter among `ps`, or the position of
/// a second one.
pub open spec fn identity_scan<R>(ps: Seq<GrpcParam<R>>) -> Result<Option<int>, int>
    decreases ps.len(),
{
    if ps.len() == 0 {
        Ok(None)
    } else {
        match identity_scan(ps.drop_last()) {
            Err(p) => Err(p),
            Ok(found) => if identity_marked(ps.last()) {
                if found is Some {
                    Err(ps.len() - 1)
                } else {
                    Ok(Some(ps.len() - 1))
                }
            } else {
                Ok(found)
            },
        }
    }
}

/// The number of typed parameters among `ps`.
pub open spec fn typed_count<R>(ps: Seq<GrpcParam<R>>) -> nat
    decreases ps.len(),
{
    if ps.len() == 0 {
        0
    } else {
        typed_count(ps.drop_last()) + if ps.last() is Typed {
            1nat
        } else {
            0nat
        }
    }
}

/// The identity parameter: its index among the typed parameters, the type
/// a guard sees (`T` of a declared `Option<T>`), and whether it is optional.
pub struct IdentityParam<'a> {
    pub index: usize,
    pub ty: &'a Ty,
    pub optional: bool,
}

pub struct IdentitySpec {
    pub index: int,
    pub ty: Ty,
    pub optional: bool,
}

pub open spec fn identity_view<'a>(p: IdentityParam<'a>) -> IdentitySpec {
    IdentitySpec { index: p.index as int, ty: *p.ty, optional: p.optional }
}

/// The identity parameter at position `pos` of `ps`.
pub open spec fn identity_at<R>(ps: Seq<GrpcParam<R>>, pos: int) -> IdentitySpec {
    let ty = match ps[pos] {
        GrpcParam::Typed { ty, .. } => ty,
        GrpcParam::Receiver => arbitrary(),
    };
    match wrapped_in(ty, "Option"@) {
        Some(inner) => IdentitySpec { index: typed_count(ps.take(pos)) as int, ty: inner, optional: true },
        None => IdentitySpec { index: typed_count(ps.take(pos)) as int, ty, optional: false },
    }
}

fn msg(s: &str) -> (r: String)
    ensures
        r@ == s@,
{
    string_of(&chars_of(s))
}

fn is_identity<R>(a: &Attr<R>) -> (r: bool)
    ensures
        r == is_identity_attr(*a),
{
    (is_named(a, "inject") && has_qualifier(a, "identity")) || is_named(a, "identity")
}

proof fn lemma_identity_stop<R>(ps: Seq<GrpcParam<R>>, i: int)
    requires
        0 <= i <= ps.len(),
        identity_scan(ps.take(i)) is Err,
    ensures
        identity_scan(ps) == identity_scan(ps.take(i)),
    decreases ps.len() - i,
{
    if i == ps.len() {
        assert(ps.take(i) =~= ps);
    } else {
        assert(ps.drop_last().take(i) =~= ps.take(i));
        lemma_identity_stop(ps.drop_last(), i);
    }
}

/// The identity parameter of a handler, if any; refused at a second one.
pub fn find_identity_param<'a, R>(ps: &'a Vec<GrpcParam<R>>) -> (r: Result<Option<IdentityParam<'a>>, usize>)
    ensures
        match r {
            Ok(None) => identity_scan(ps@) == Ok::<Option<int>, int>(None),
            Ok(Some(p)) => identity_scan(ps@) matches Ok(Some(pos)) && identity_view(p) == identity_at(ps@, pos),
            Err(pos) => identity_scan(ps@) == Err::<Option<int>, int>(pos as int),
        },
{
    let mut found: Option<IdentityParam<'a>> = None;
    let ghost mut found_pos: Option<int> = None;
    let mut typed: usize = 0;
    let mut i: usize = 0;
    proof {
        assert(ps@.take(0) =~= Seq::<GrpcParam<R>>::empty());
    }
    while i < ps.len()
        invariant
            0 <= i <= ps@.len(),
            typed == typed_count(ps@.take(i as int)),
            typed <= i,
            identity_scan(ps@.take(i as int)) == Ok::<Option<int>, int>(found_pos),
            found is Some <==> found_pos is Some,
            found_pos matches Some(p) ==> 0 <= p < i && identity_view(found->Some_0) == identity_at(ps@, p),
        decreases ps@.len() - i,
    {
        proof {
            assert(ps@.take(i + 1).drop_last() =~= ps@.take(i as int));
            assert(ps@.take(i + 1).last() == ps@[i as int]);
        }
        match &ps[i] {
            GrpcParam::Receiver => {},
            GrpcParam::Typed { ty, attrs } => {
                let mut marked = false;
                let mut k: usize = 0;
                while k < attrs.len()
                    invariant
                        0 <= k <= attrs@.len(),
                        marked == exists|j: int| 0 <= j < k && is_identity_attr(#[trigger] attrs@[j]),
                    decreases attrs@.len() - k,
                {
                    if is_identity(&attrs[k]) {
                        marked = true;
                    }
                    k = k + 1;
                }
                if marked {
                    if found.is_some() {
                        proof {
                            lemma_identity_stop(ps@, i + 1);
                        }
                        return Err(i);
                    }
                    proof {
                        assert(ps@.take(i as int) =~= ps@.take(i as int));
                    }
                    let p = match unwrap_option_type(ty) {
                        Some(inner) => IdentityParam { index: typed, ty: inner, optional: true },
                        None => IdentityParam { index: typed, ty, optional: false },
                    };
                    found = Some(p);
                    proof {
                        found_pos = Some(i as int);
                    }
                }
                typed = typed + 1;
            },
        }
        i = i + 1;
    }
    proof {
        assert(ps@.take(i as int) =~= ps@);
    }
    match found {
        None => Ok(None),
        Some(p) => Ok(Some(p)),
    }
}

/// The service's name: the last segment of the self type's path.
pub open spec fn service_name(t: Ty) -> Result<Seq<char>, Seq<char>> {
    match t.kind {
        TyKind::Path(segs) => if segs@.len() == 0 {
            Err(expected_type_name_msg())
        } else {
            Ok(segs@.last().ident@)
        },
        _ => Err(expected_type_path_msg()),
    }
}

/// A gRPC handler: an `async` method whose first parameter is a receiver;
/// every other method is a helper passed through.
pub open spec fn is_handler<R, X, E>(m: GrpcMethodInput<R, X, E>) -> bool {
    m.is_async && m.params@.len() > 0 && m.params@[0] is Receiver
}

/// A handler: its position, roles, and identity parameter.
pub struct HandlerSpec {
    pub method: int,
    pub roles: Seq<Seq<char>>,
    pub identity: Option<IdentitySpec>,
}

/// One method of the block, at position `i`, after the handlers `hs` and
/// helpers `os` before it.
pub open spec fn grpc_step<R, X, E>(m: GrpcMethodInput<R, X, E>, i: int, hs: Seq<HandlerSpec>, os: Seq<int>) -> Result<
    (Seq<HandlerSpec>, Seq<int>),
    GFaultSpec<E>,
> {
    if is_handler(m) {
        match roles_outcome(m.attrs@) {
            Err(e) => Err(GFaultSpec::Roles(i, e)),
            Ok(roles) => match m.guards {
                Err(e) => Err(GFaultSpec::Read(e)),
                Ok(_) => match m.intercepts {
                    Err(e) => Err(GFaultSpec::Read(e)),
                    Ok(_) => match identity_scan(m.params@) {
                        Err(p) => Err(GFaultSpec::At(GrpcSite::Param(i as usize, p as usize), second_identity_msg())),
                        Ok(found) => Ok(
                            (
                                hs.push(
                                    HandlerSpec {
                                        method: i,
                                        roles,
                                        identity: match found {
                                            Some(pos) => Some(identity_at(m.params@, pos)),
                                            None => None,
                                        },
                                    },
                                ),
                                os,
                            ),
                        ),
                    },
                },
            },
        }
    } else {
        Ok((hs, os.push(i)))
    }
}

/// The handlers and helpers of the block, in order.
pub open spec fn grpc_methods<R, X, E>(ms: Seq<GrpcMethodInput<R, X, E>>) -> Result<
    (Seq<HandlerSpec>, Seq<int>),
    GFaultSpec<E>,
>
    decreases ms.len(),
{
    if ms.len() == 0 {
        Ok((Seq::empty(), Seq::empty()))
    } else {
        match grpc_methods(ms.drop_last()) {
            Err(f) => Err(f),
            Ok((hs, os)) => grpc_step(ms.last(), ms.len() - 1, hs, os),
        }
    }
}

proof fn lemma_grpc_stop<R, X, E>(ms: Seq<GrpcMethodInput<R, X, E>>, i: int)
    requires
        0 <= i <= ms.len(),
        grpc_methods(ms.take(i)) is Err,
    ensures
        grpc_methods(ms) == grpc_methods(ms.take(i)),
    decreases ms.len() - i,
{
    if i == ms.len() {
        assert(ms.take(i) =~= ms);
    } else {
        assert(ms.drop_last().take(i) =~= ms.take(i));
        lemma_grpc_stop(ms.drop_last(), i);
    }
}

/// What `#[grpc_routes]` reads from the block: the service name, the
/// block's interceptors, the handlers, and the helpers.
pub open spec fn grpc_outcome<R, X, E>(imp: GrpcImplInput<R, X, E>) -> Result<
    (Seq<char>, Seq<HandlerSpec>, Seq<int>),
    GFaultSpec<E>,
> {
    match service_name(imp.self_ty) {
        Err(m) => Err(GFaultSpec::At(GrpcSite::SelfTy, m)),
        Ok(name) => match imp.intercepts {
            Err(e) => Err(GFaultSpec::Read(e)),
            Ok(_) => match grpc_methods(imp.methods@) {
                Err(f) => Err(f),
                Ok((hs, os)) => Ok((name, hs, os)),
            },
        },
    }
}

/// A gRPC handler of the plan, with its own guard and interceptor lists.
pub struct GrpcHandler<'a, X> {
    pub method: usize,
    pub roles: Vec<String>,
    pub guards: &'a Vec<X>,
    pub intercepts: &'a Vec<X>,
    pub identity: Option<IdentityParam<'a>>,
}

pub open spec fn handler_view<'a, X>(h: GrpcHandler<'a, X>) -> HandlerSpec {
    HandlerSpec {
        method: h.method as int,
        roles: string_views(h.roles@),
        identity: match h.identity {
            Some(p) => Some(identity_view(p)),
            None => None,
        },
    }
}

/// What `#[grpc_routes]` reads from an impl block.
pub struct GrpcPlan<'a, X> {
    pub service_name: &'a String,
    pub intercepts: &'a Vec<X>,
    pub handlers: Vec<GrpcHandler<'a, X>>,
    pub helpers: Vec<usize>,
}

/// Each handler's lists are the readings of its method's.
pub open spec fn handler_lists_match<'a, R, X, E>(ms: Seq<GrpcMethodInput<R, X, E>>, hs: Seq<GrpcHandler<'a, X>>) -> bool {
    forall|k: int|
        0 <= k < hs.len() ==> (#[trigger] hs[k]).method < ms.len() && ms[hs[k].method as int].guards == Ok::<
            Vec<X>,
            E,
        >(*hs[k].guards) && ms[hs[k].method as int].intercepts == Ok::<Vec<X>, E>(*hs[k].intercepts)
}

/// Read a `#[grpc_routes]` impl block.
pub fn plan_grpc_routes<'a, R, X, E>(imp: &'a GrpcImplInput<R, X, E>) -> (r: Result<GrpcPlan<'a, X>, GrpcFault<'a, E>>)
    ensures
        match r {
            Ok(p) => grpc_outcome(*imp) == Ok::<(Seq<char>, Seq<HandlerSpec>, Seq<int>), GFaultSpec<E>>(
                (
                    p.service_name@,
                    p.handlers@.map_values(|h: GrpcHandler<'a, X>| handler_view(h)),
                    p.helpers@.map_values(|k: usize| k as int),
                ),
            ) && imp.intercepts == Ok::<Vec<X>, E>(*p.intercepts) && handler_lists_match(imp.methods@, p.handlers@),
            Err(f) => grpc_outcome(*imp) == Err::<(Seq<char>, Seq<HandlerSpec>, Seq<int>), GFaultSpec<E>>(
                gfault_view(f),
            ),
        },
{
    let name: &'a String = match &imp.self_ty.kind {
        TyKind::Path(segs) => {
            if segs.len() == 0 {
                return Err(GrpcFault::At(GrpcSite::SelfTy, msg("expected type name")));
            }
            &segs[segs.len() - 1].ident
        },
        _ => return Err(GrpcFault::At(GrpcSite::SelfTy, msg("expected a type path"))),
    };
    let ii = match &imp.intercepts {
        Err(e) => return Err(GrpcFault::Read(e)),
        Ok(ii) => ii,
    };
    let ms = &imp.methods;
    let mut handlers: Vec<GrpcHandler<'a, X>> = Vec::new();
    let mut helpers: Vec<usize> = Vec::new();
    let mut i: usize = 0;
    proof {
        assert(ms@.take(0) =~= Seq::<GrpcMethodInput<R, X, E>>::empty());
        assert(handlers@.map_values(|h: GrpcHandler<'a, X>| handler_view(h)) =~= Seq::<HandlerSpec>::empty());
        assert(helpers@.map_values(|k: usize| k as int) =~= Seq::<int>::empty());
    }
    while i < ms.len()
        invariant
            0 <= i <= ms@.len(),
            ms == &imp.methods,
            service_name(imp.self_ty) == Ok::<Seq<char>, Seq<char>>(name@),
            imp.intercepts == Ok::<Vec<X>, E>(*ii),
            grpc_methods(ms@.take(i as int)) == Ok::<(Seq<HandlerSpec>, Seq<int>), GFaultSpec<E>>(
                (
                    handlers@.map_values(|h: GrpcHandler<'a, X>| handler_view(h)),
                    helpers@.map_values(|k: usize| k as int),
                ),
            ),
            handler_lists_match(ms@, handlers@),
        decreases ms@.len() - i,
    {
        proof {
            assert(ms@.take(i + 1).drop_last() =~= ms@.take(i as int));
            assert(ms@.take(i + 1).last() == ms@[i as int]);
        }
        let m = &ms[i];
        let handler = m.is_async && m.params.len() > 0 && match &m.params[0] {
            GrpcParam::Receiver => true,
            _ => false,
        };
        if handler {
            let roles = match extract_roles(&m.attrs) {
                Err(e) => {
                    proof {
                        lemma_grpc_stop(ms@, i + 1);
                    }
                    return Err(GrpcFault::Roles(i, e));
                },
                Ok(r) => r,
            };
            let guards = match &m.guards {
                Err(e) => {
                    proof {
                        lemma_grpc_stop(ms@, i + 1);
                    }
                    return Err(GrpcFault::Read(e));
                },
                Ok(g) => g,
            };
            let intercepts = match &m.intercepts {
                Err(e) => {
                    proof {
                        lemma_grpc_stop(ms@, i + 1);
                    }
                    return Err(GrpcFault::Read(e));
                },
                Ok(x) => x,
            };
            let identity = match find_identity_param(&m.params) {
                Err(p) => {
                    let f = GrpcFault::At(
                        GrpcSite::Param(i, p),
                        msg("only one #[inject(identity)] parameter is allowed per gRPC handler"),
                    );
                    proof {
                        lemma_grpc_stop(ms@, i + 1);
                    }
                    return Err(f);
                },
                Ok(found) => found,
            };
            let h = GrpcHandler { method: i, roles, guards, intercepts, identity };
            let ghost before = handlers@;
            handlers.push(h);
            proof {
                assert(handlers@.map_values(|h: GrpcHandler<'a, X>| handler_view(h)) =~= before.map_values(
                    |h: GrpcHandler<'a, X>| handler_view(h),
                ).push(handler_view(h)));
                assert forall|k: int| 0 <= k < handlers@.len() implies (#[trigger] handlers@[k]).method < ms@.len()
                    && ms@[handlers@[k].method as int].guards == Ok::<Vec<X>, E>(*handlers@[k].guards)
                    && ms@[handlers@[k].method as int].intercepts == Ok::<Vec<X>, E>(*handlers@[k].intercepts) by {
                    if k < before.len() {
                        assert(handlers@[k] == before[k]);
                    }
                }
            }
        } else {
            let ghost before = helpers@;
            helpers.push(i);
            proof {
                assert(helpers@.map_values(|k: usize| k as int) =~= before.map_values(|k: usize| k as int).push(
                    i as int,
                ));
            }
        }
        i = i + 1;
    }
    proof {
        assert(ms@.take(i as int) =~= ms@);
    }
    Ok(GrpcPlan { service_name: name, intercepts: ii, handlers, helpers })
}

/// Removes the attributes `#[grpc_routes]` consumes from a handler:
/// `#[roles]`, `#[guard]` and `#[intercept]`.
pub fn strip_grpc_attrs<R>(attrs: Vec<Attr<R>>) -> (r: Vec<Attr<R>>)
    ensures
        r@ == attrs@.filter(|a: Attr<R>| !(named(a, "roles"@) || named(a, "guard"@) || named(a, "intercept"@))),
{
    let names = vec!["roles", "guard", "intercept"];
    let r = retain_unnamed(attrs, &names);
    proof {
        let ns = name_views(names@);
        assert forall|a: Attr<R>| #![auto]
            named_any(a, ns) == (named(a, "roles"@) || named(a, "guard"@) || named(a, "intercept"@)) by {
            if named(a, "roles"@) {
                assert(ns[0] == "roles"@);
            }
            if named(a, "guard"@) {
                assert(ns[1] == "guard"@);
            }
            if named(a, "intercept"@) {
                assert(ns[2] == "intercept"@);
            }
        }
        assert((|a: Attr<R>| !named_any(a, ns)) =~= (|a: Attr<R>|
            !(named(a, "roles"@) || named(a, "guard"@) || named(a, "intercept"@))));
    }
    r
}

/// Removes the identity markers from a parameter's attributes.
pub fn strip_identity_attrs<R>(attrs: Vec<Attr<R>>) -> (r: Vec<Attr<R>>)
    ensures
        r@ == attrs@.filter(|a: Attr<R>| !is_identity_attr(a)),
{
    let ghost orig = attrs@;
    let ghost p = |a: Attr<R>| !is_identity_attr(a);
    let mut out: Vec<Attr<R>> = Vec::new();
    let mut rest = attrs;
    let ghost mut taken: int = 0;
    proof {
        reveal(Seq::filter);
        assert(orig.take(0) =~= Seq::<Attr<R>>::empty());
    }
    while rest.len() > 0
        invariant
            0 <= taken <= orig.len(),
            rest@ == orig.skip(taken),
            p == (|a: Attr<R>| !is_identity_attr(a)),
            out@ == orig.take(taken).filter(p),
        decreases rest@.len(),
    {
        assert(rest@[0] == orig[taken]);
        let a = rest.remove(0);
        proof {
            reveal(Seq::filter);
            assert(rest@ =~= orig.skip(taken + 1));
            assert(orig.take(taken + 1).drop_last() =~= orig.take(taken));
            assert(orig.take(taken + 1).last() == orig[taken]);
        }
        if !is_identity(&a) {
            out.push(a);
        }
        proof {
            taken = taken + 1;
        }
    }
    proof {
        assert(orig.take(taken) =~= orig);
    }
    out
}

// ── laws ────────────────────────────────────────────────────────────────

/// Of every `#[grpc_routes]` block that is read: each method is a handler
/// or a helper, not both, by whether it is `async` with a receiver first;
/// and no handler has two identity parameters.
pub proof fn lemma_handlers_and_helpers<R, X, E>(ms: Seq<GrpcMethodInput<R, X, E>>, hs: Seq<HandlerSpec>, os: Seq<int>)
    requires
        grpc_methods(ms) == Ok::<(Seq<HandlerSpec>, Seq<int>), GFaultSpec<E>>((hs, os)),
    ensures
        hs.len() + os.len() == ms.len(),
        forall|k: int|
            0 <= k < hs.len() ==> 0 <= (#[trigger] hs[k]).method < ms.len() && is_handler(ms[hs[k].method])
                && identity_scan(ms[hs[k].method].params@) is Ok,
        forall|k: int| 0 <= k < os.len() ==> 0 <= #[trigger] os[k] < ms.len() && !is_handler(ms[os[k]]),
        forall|i: int| 0 <= i < ms.len() && is_handler(#[trigger] ms[i]) ==> exists|k: int| 0 <= k < hs.len() && hs[k].method == i,
        forall|i: int| 0 <= i < ms.len() && !is_handler(#[trigger] ms[i]) ==> os.contains(i),
    decreases ms.len(),
{
    if ms.len() > 0 {
        let pre = ms.drop_last();
        let n = ms.len() - 1;
        let (hp, op) = grpc_methods(pre)->Ok_0;
        lemma_handlers_and_helpers(pre, hp, op);
        assert forall|i: int| 0 <= i < n implies #[trigger] pre[i] == ms[i] by {}
        assert(ms.last() == ms[n]);
        if is_handler(ms[n]) {
            assert(hs == hp.push(hs.last()));
            assert(os == op);
            assert forall|i: int| 0 <= i < ms.len() && is_handler(#[trigger] ms[i]) implies exists|k: int|
                0 <= k < hs.len() && hs[k].method == i by {
                if i < n {
                    assert(is_handler(pre[i]));
                    let k = choose|k: int| 0 <= k < hp.len() && hp[k].method == i;
                    assert(hs[k] == hp[k]);
                } else {
                    assert(hs[hs.len() - 1].method == i);
                }
            }
            assert forall|i: int| 0 <= i < ms.len() && !is_handler(#[trigger] ms[i]) implies os.contains(i) by {
                assert(i < n);
                assert(!is_handler(pre[i]));
            }
            assert forall|k: int| 0 <= k < hs.len() implies 0 <= (#[trigger] hs[k]).method < ms.len() && is_handler(
                ms[hs[k].method],
            ) && identity_scan(ms[hs[k].method].params@) is Ok by {
                if k < hp.len() {
                    assert(hs[k] == hp[k]);
                    assert(pre[hp[k].method] == ms[hp[k].method]);
                }
            }
        } else {
            assert(hs == hp);
            assert(os == op.push(n));
            assert forall|i: int| 0 <= i < ms.len() && is_handler(#[trigger] ms[i]) implies exists|k: int|
                0 <= k < hs.len() && hs[k].method == i by {
                assert(i < n);
                assert(is_handler(pre[i]));
            }
            assert forall|i: int| 0 <= i < ms.len() && !is_handler(#[trigger] ms[i]) implies os.contains(i) by {
                if i < n {
                    assert(!is_handler(pre[i]));
                    assert(op.contains(i));
                    let k = choose|k: int| 0 <= k < op.len() && op[k] == i;
                    assert(os[k] == i);
                } else {
                    assert(os[os.len() - 1] == i);
                }
            }
            assert forall|k: int| 0 <= k < hs.len() implies 0 <= (#[trigger] hs[k]).method < ms.len() && is_handler(
                ms[hs[k].method],
            ) && identity_scan(ms[hs[k].method].params@) is Ok by {
                assert(pre[hp[k].method] == ms[hp[k].method]);
            }
            assert forall|k: int| 0 <= k < os.len() implies 0 <= #[trigger] os[k] < ms.len() && !is_handler(ms[os[k]]) by {
                if k < op.len() {
                    assert(os[k] == op[k]);
                    assert(pre[op[k]] == ms[op[k]]);
                }
            }
        }
        assert forall|k: int| 0 <= k < os.len() implies 0 <= #[trigger] os[k] < ms.len() && !is_handler(ms[os[k]]) by {
            if k < op.len() {
                assert(os[k] == op[k]);
                assert(pre[op[k]] == ms[op[k]]);
            }
        }
    }
}

} // verus!
