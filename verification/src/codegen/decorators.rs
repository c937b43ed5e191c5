//! The decorators of a route method, composed from its attributes in the
//! fixed plugin order: roles (whose guard runs first), guards, pre-guards,
//! transactional, interceptors, middleware, layers, status, declared
//! response type; and how they shape the generated handler.

use vstd::prelude::*;

use crate::attrs::Attr;
use crate::codegen::handlers::{handler_plan, shape_of, HandlerPlan, ParamPlan, ValidationTarget};
use crate::extract::plugins::{grpc_disallowed_names, grpc_refusal, validate_grpc_attrs};
use crate::attrs::first_named_any;
use crate::extract::route::{
    extract_roles, extract_status, extract_transactional, roles_outcome, status_outcome, string_views,
    transactional_outcome, TransactionalConfig,
};

verus! {

/// What the attributes whose arguments are expressions, paths or types read
/// as: for each of `#[guard]`, `#[pre_guard]`, `#[intercept]`,
/// `#[middleware]` and `#[layer]` the argument of every such attribute, in
/// order; for `#[returns]` the type of the first one.
pub struct DecoReadings<X, P, T, E> {
    pub guards: Result<Vec<X>, E>,
    pub pre_guards: Result<Vec<X>, E>,
    pub intercepts: Result<Vec<X>, E>,
    pub middleware: Result<Vec<P>, E>,
    pub layers: Result<Vec<X>, E>,
    pub returns_type: Result<Option<T>, E>,
}

/// One guard of a route, in the order the guards run.
#[derive(Clone, Copy, PartialEq, Eq, Structural, Debug)]
pub enum GuardSite {
    /// The `RolesGuard` built from `#[roles(...)]`.
    Roles,
    /// The `#[guard(...)]` expression at this position of the readings.
    Expr(usize),
}

/// The composed decorators of a route method.
pub struct MethodDecorators<'a, X, P, T> {
    pub roles: Vec<String>,
    pub guards: Vec<GuardSite>,
    pub pre_guards: &'a Vec<X>,
    pub transactional: Option<TransactionalConfig>,
    pub intercepts: &'a Vec<X>,
    pub middleware: &'a Vec<P>,
    pub layers: &'a Vec<X>,
    pub status_override: Option<u16>,
    pub returns_type: &'a Option<T>,
}

/// Why the decorators are refused: an attribute's own diagnostic, or the
/// failed reading of an expression attribute.
pub enum DecoFault<'a, E> {
    Attr(String),
    Read(&'a E),
}

/// The first refusal in plugin order, if any: a diagnostic (`Ok`) or a
/// failed reading (`Err`).
pub open spec fn deco_fault<R, X, P, T, E>(attrs: Seq<Attr<R>>, rd: DecoReadings<X, P, T, E>) -> Option<
    Result<Seq<char>, E>,
> {
    if roles_outcome(attrs) is Err {
        Some(Ok(roles_outcome(attrs)->Err_0))
    } else if rd.guards is Err {
        Some(Err(rd.guards->Err_0))
    } else if rd.pre_guards is Err {
        Some(Err(rd.pre_guards->Err_0))
    } else if transactional_outcome(attrs) is Err {
        Some(Ok(transactional_outcome(attrs)->Err_0))
    } else if rd.intercepts is Err {
        Some(Err(rd.intercepts->Err_0))
    } else if rd.middleware is Err {
        Some(Err(rd.middleware->Err_0))
    } else if rd.layers is Err {
        Some(Err(rd.layers->Err_0))
    } else if status_outcome(attrs) is Err {
        Some(Ok(status_outcome(attrs)->Err_0))
    } else if rd.returns_type is Err {
        Some(Err(rd.returns_type->Err_0))
    } else {
        None
    }
}

/// The guards in the order they run: the roles guard first when there are
/// roles, then each `#[guard]` expression.
pub open spec fn guard_sites(has_roles: bool, n: nat) -> Seq<GuardSite> {
    (if has_roles {
        seq![GuardSite::Roles]
    } else {
        Seq::empty()
    }) + Seq::new(n, |k: int| GuardSite::Expr(k as usize))
}

/// Composes the decorators of a route method from its attributes and the
/// readings of its expression attributes.
pub fn parse_decorators<'a, R, X, P, T, E>(attrs: &Vec<Attr<R>>, rd: &'a DecoReadings<X, P, T, E>) -> (r: Result<
    MethodDecorators<'a, X, P, T>,
    DecoFault<'a, E>,
>)
    ensures
        match r {
            Err(DecoFault::Attr(m)) => deco_fault(attrs@, *rd) == Some(Ok::<Seq<char>, E>(m@)),
            Err(DecoFault::Read(e)) => deco_fault(attrs@, *rd) == Some(Err::<Seq<char>, E>(*e)),
            Ok(d) => {
                &&& deco_fault(attrs@, *rd) is None
                &&& roles_outcome(attrs@) == Ok::<Seq<Seq<char>>, Seq<char>>(string_views(d.roles@))
                &&& d.guards@ == guard_sites(d.roles@.len() > 0, rd.guards->Ok_0@.len())
                &&& rd.pre_guards == Ok::<Vec<X>, E>(*d.pre_guards)
                &&& transactional_outcome(attrs@) == Ok::<Option<Seq<char>>, Seq<char>>(
                    match d.transactional {
                        Some(c) => Some(c.pool_field@),
                        None => None,
                    },
                )
                &&& rd.intercepts == Ok::<Vec<X>, E>(*d.intercepts)
                &&& rd.middleware == Ok::<Vec<P>, E>(*d.middleware)
                &&& rd.layers == Ok::<Vec<X>, E>(*d.layers)
                &&& status_outcome(attrs@) == Ok::<Option<int>, Seq<char>>(
                    match d.status_override {
                        Some(s) => Some(s as int),
                        None => None,
                    },
                )
                &&& rd.returns_type == Ok::<Option<T>, E>(*d.returns_type)
            },
        },
{
    let roles = match extract_roles(attrs) {
        Err(m) => return Err(DecoFault::Attr(m)),
        Ok(v) => v,
    };
    let guard_exprs = match &rd.guards {
        Err(e) => return Err(DecoFault::Read(e)),
        Ok(g) => g,
    };
    let mut guards: Vec<GuardSite> = Vec::new();
    if roles.len() > 0 {
        guards.push(GuardSite::Roles);
    }
    let ghost start = guards@;
    let mut k: usize = 0;
    while k < guard_exprs.len()
        invariant
            0 <= k <= guard_exprs@.len(),
            guards@ == start + Seq::new(k as nat, |j: int| GuardSite::Expr(j as usize)),
        decreases guard_exprs@.len() - k,
    {
        guards.push(GuardSite::Expr(k));
        k = k + 1;
        assert(guards@ =~= start + Seq::new(k as nat, |j: int| GuardSite::Expr(j as usize)));
    }
    assert(guards@ =~= guard_sites(roles@.len() > 0, guard_exprs@.len()));
    let pre_guards = match &rd.pre_guards {
        Err(e) => return Err(DecoFault::Read(e)),
        Ok(v) => v,
    };
    let transactional = match extract_transactional(attrs) {
        Err(m) => return Err(DecoFault::Attr(m)),
        Ok(t) => t,
    };
    let intercepts = match &rd.intercepts {
        Err(e) => return Err(DecoFault::Read(e)),
        Ok(v) => v,
    };
    let middleware = match &rd.middleware {
        Err(e) => return Err(DecoFault::Read(e)),
        Ok(v) => v,
    };
    let layers = match &rd.layers {
        Err(e) => return Err(DecoFault::Read(e)),
        Ok(v) => v,
    };
    let status_override = match extract_status(attrs) {
        Err(m) => return Err(DecoFault::Attr(m)),
        Ok(s) => s,
    };
    let returns_type = match &rd.returns_type {
        Err(e) => return Err(DecoFault::Read(e)),
        Ok(t) => t,
    };
    Ok(
        MethodDecorators {
            roles,
            guards,
            pre_guards,
            transactional,
            intercepts,
            middleware,
            layers,
            status_override,
            returns_type,
        },
    )
}

/// The interceptors of a gRPC route method: the HTTP-only decorators are
/// refused first; then the `#[intercept]` reading is taken.
pub fn parse_grpc_decorators<'a, R, X, E>(attrs: &Vec<Attr<R>>, intercepts: &'a Result<Vec<X>, E>) -> (r: Result<
    &'a Vec<X>,
    DecoFault<'a, E>,
>)
    ensures
        match first_named_any(attrs@, grpc_disallowed_names()) {
            Some(i) => r matches Err(DecoFault::Attr(m)) && m@ == grpc_refusal(attrs@[i].ident->0@),
            None => match r {
                Ok(v) => *intercepts == Ok::<Vec<X>, E>(*v),
                Err(DecoFault::Read(e)) => *intercepts == Err::<Vec<X>, E>(*e),
                Err(DecoFault::Attr(_)) => false,
            },
        },
{
    match validate_grpc_attrs(attrs) {
        Err(m) => return Err(DecoFault::Attr(m)),
        Ok(()) => {},
    }
    match intercepts {
        Err(e) => Err(DecoFault::Read(e)),
        Ok(v) => Ok(v),
    }
}

/// Whether some parameter is validated by the generated handler.
pub open spec fn validates_some(params: Seq<ParamPlan>) -> bool {
    exists|k: int| 0 <= k < params.len() && !((#[trigger] params[k]).validation is Skip)
}

/// The invocation plan of a route handler from its composed decorators,
/// whether it has managed parameters, the number of controller-level
/// interceptors and the plans of its parameters: guards come from the
/// roles and `#[guard]` sites, interceptors from the method's own and the
/// controller's, validation from the parameters not skipped.
pub fn route_handler_plan<'a, X, P, T>(
    d: &MethodDecorators<'a, X, P, T>,
    has_managed: bool,
    ctrl_intercepts: usize,
    params: &Vec<ParamPlan>,
) -> (r: HandlerPlan)
    ensures
        r.needs_state == (d.guards@.len() > 0 || has_managed || d.intercepts@.len() > 0 || ctrl_intercepts > 0),
        r.guard_inputs == (d.guards@.len() > 0),
        r.shape == shape_of(
            d.guards@.len() > 0,
            has_managed,
            d.intercepts@.len() > 0 || ctrl_intercepts > 0,
            validates_some(params@),
        ),
{
    let mut validation = false;
    let mut i: usize = 0;
    while i < params.len()
        invariant
            0 <= i <= params@.len(),
            validation == exists|k: int| 0 <= k < i && !((#[trigger] params@[k]).validation is Skip),
        decreases params@.len() - i,
    {
        match params[i].validation {
            ValidationTarget::Skip => {},
            _ => {
                validation = true;
            },
        }
        i = i + 1;
    }
    handler_plan(d.guards.len() > 0, has_managed, d.intercepts.len() > 0 || ctrl_intercepts > 0, validation)
}

} // verus!
