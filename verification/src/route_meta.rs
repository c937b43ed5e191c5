//! The OpenAPI metadata of a route: whether it is secured, whether its
//! body is required, its request body and its response type.

use vstd::prelude::*;

use crate::sig::FnInput;
use crate::text::str_is;
use crate::types::{
    extractor_inner, has_json_type, is_no_body_type, is_option_wrapping_json, is_string_type, last_is,
    last_seg, last_segment, first_generic_type, first_type_arg, no_body, result_inner, schema_name,
    type_to_schema_name, unwrap_extractor_inner, unwrap_json_type, unwrap_result_type, wrapped_in, Ty,
    TyKind,
};

verus! {

/// Whether a route is marked as secured in its metadata.
#[derive(PartialEq, Eq, Structural, Clone, Copy, Debug)]
pub enum AuthFlag {
    /// An `#[anonymous]` route: secured only by its explicit guards.
    Guards(bool),
    /// Any other route: secured by roles, an identity parameter, guards,
    /// or the controller's identity field.
    Secured { roles: bool, identity: bool, guards: bool },
}

/// How a route's security flag is computed.
pub fn auth_flag(anonymous: bool, has_roles: bool, has_identity_param: bool, has_guards: bool) -> (r: AuthFlag)
    ensures
        r == (if anonymous {
            AuthFlag::Guards(has_guards)
        } else {
            AuthFlag::Secured { roles: has_roles, identity: has_identity_param, guards: has_guards }
        }),
{
    if anonymous {
        AuthFlag::Guards(has_guards)
    } else {
        AuthFlag::Secured { roles: has_roles, identity: has_identity_param, guards: has_guards }
    }
}

/// The type of a typed parameter.
pub open spec fn input_ty(i: FnInput) -> Option<Ty> {
    match i {
        FnInput::Typed { ty, .. } => Some(ty),
        _ => None,
    }
}

/// Whether the request body is required: the first body parameter decides
/// it, `Json<T>` is required and `Option<Json<T>>` is not; with no such
/// parameter the body counts as required.
pub open spec fn body_required(inputs: Seq<FnInput>) -> bool
    decreases inputs.len(),
{
    if inputs.len() == 0 {
        true
    } else {
        match input_ty(inputs[0]) {
            Some(t) => if last_is(t, "Json"@) {
                true
            } else if wrapped_in(t, "Option"@) matches Some(inner) && last_is(inner, "Json"@) {
                false
            } else {
                body_required(inputs.drop_first())
            },
            None => body_required(inputs.drop_first()),
        }
    }
}

/// Whether the request body is required.
pub fn detect_body_required(inputs: &Vec<FnInput>) -> (r: bool)
    ensures
        r == body_required(inputs@),
{
    let mut i: usize = 0;
    proof {
        assert(inputs@.skip(0) =~= inputs@);
    }
    while i < inputs.len()
        invariant
            0 <= i <= inputs@.len(),
            body_required(inputs@) == body_required(inputs@.skip(i as int)),
        decreases inputs@.len() - i,
    {
        proof {
            assert(inputs@.skip(i as int).drop_first() =~= inputs@.skip(i + 1));
            assert(inputs@.skip(i as int)[0] == inputs@[i as int]);
        }
        if let FnInput::Typed { ty, .. } = &inputs[i] {
            if has_json_type(ty) {
                return true;
            }
            if is_option_wrapping_json(ty) {
                return false;
            }
        }
        i = i + 1;
    }
    true
}

/// The response body type of a route: the `#[returns(T)]` override if
/// given; else, from the written return type, its `Result`-like payload,
/// unless that carries no body or is a `String`, when it is `Json<T>`.
pub open spec fn response_type(overridden: Option<Ty>, output: Option<Ty>) -> Option<Ty> {
    match overridden {
        Some(t) => Some(t),
        None => match output {
            None => None,
            Some(t) => {
                let u = result_inner(t);
                if no_body(u) || last_is(u, "String"@) {
                    None
                } else {
                    wrapped_in(u, "Json"@)
                }
            },
        },
    }
}

/// The response body type of a route.
pub fn resolve_response_type<'a>(overridden: Option<&'a Ty>, output: Option<&'a Ty>) -> (r: Option<&'a Ty>)
    ensures
        match r {
            Some(t) => response_type(
                match overridden {
                    Some(x) => Some(*x),
                    None => None,
                },
                match output {
                    Some(x) => Some(*x),
                    None => None,
                },
            ) == Some(*t),
            None => response_type(
                match overridden {
                    Some(x) => Some(*x),
                    None => None,
                },
                match output {
                    Some(x) => Some(*x),
                    None => None,
                },
            ) is None,
        },
{
    if let Some(t) = overridden {
        return Some(t);
    }
    let t = match output {
        None => return None,
        Some(t) => t,
    };
    let u = unwrap_result_type(t);
    if is_no_body_type(u) || is_string_type(u) {
        return None;
    }
    unwrap_json_type(u)
}

/// The response's schema name, with its type.
pub fn response_info<'a>(overridden: Option<&'a Ty>, output: Option<&'a Ty>) -> (r: Option<(String, &'a Ty)>)
    ensures
        match r {
            Some((n, t)) => response_type(
                match overridden {
                    Some(x) => Some(*x),
                    None => None,
                },
                match output {
                    Some(x) => Some(*x),
                    None => None,
                },
            ) == Some(*t) && n@ == schema_name(*t),
            None => response_type(
                match overridden {
                    Some(x) => Some(*x),
                    None => None,
                },
                match output {
                    Some(x) => Some(*x),
                    None => None,
                },
            ) is None,
        },
{
    match resolve_response_type(overridden, output) {
        Some(t) => Some((type_to_schema_name(t), t)),
        None => None,
    }
}

/// A parameter recognized as the request body.
pub enum BodyExtractor<'a> {
    /// `Json<T>`: JSON, named by `T`'s last segment.
    Json { name: &'a String, ty: &'a Ty },
    /// `TypedMultipart<T>`: a multipart form, named by `T`'s last segment.
    TypedMultipart { name: &'a String, ty: &'a Ty },
    /// `Multipart`: a free-form multipart body.
    RawMultipart,
}

pub enum BodySpec {
    Json { name: Seq<char>, ty: Ty },
    TypedMultipart { name: Seq<char>, ty: Ty },
    RawMultipart,
}

pub open spec fn body_view<'a>(b: BodyExtractor<'a>) -> BodySpec {
    match b {
        BodyExtractor::Json { name, ty } => BodySpec::Json { name: name@, ty: *ty },
        BodyExtractor::TypedMultipart { name, ty } => BodySpec::TypedMultipart { name: name@, ty: *ty },
        BodyExtractor::RawMultipart => BodySpec::RawMultipart,
    }
}

/// What a parameter of type `t` is as a request body, by its last segment.
pub open spec fn body_kind(t: Ty) -> Option<BodySpec> {
    match last_seg(t) {
        Some(s) => if s.ident@ == "Json"@ || s.ident@ == "TypedMultipart"@ {
            match first_type_arg(s) {
                Some(inner) => match last_seg(inner) {
                    Some(is) => if s.ident@ == "Json"@ {
                        Some(BodySpec::Json { name: is.ident@, ty: inner })
                    } else {
                        Some(BodySpec::TypedMultipart { name: is.ident@, ty: inner })
                    },
                    None => None,
                },
                None => None,
            }
        } else if s.ident@ == "Multipart"@ {
            Some(BodySpec::RawMultipart)
        } else {
            None
        },
        None => None,
    }
}

/// What a parameter of type `t` is as a request body.
pub fn body_type_info<'a>(t: &'a Ty) -> (r: Option<BodyExtractor<'a>>)
    ensures
        match r {
            Some(b) => body_kind(*t) == Some(body_view(b)),
            None => body_kind(*t) is None,
        },
{
    proof {
        reveal_strlit("Json");
        reveal_strlit("TypedMultipart");
        reveal_strlit("Multipart");
    }
    let s = match last_segment(t) {
        None => return None,
        Some(s) => s,
    };
    let json = str_is(s.ident.as_str(), "Json");
    if json || str_is(s.ident.as_str(), "TypedMultipart") {
        let inner = match first_generic_type(s) {
            None => return None,
            Some(x) => x,
        };
        match last_segment(inner) {
            Some(is) => {
                if json {
                    Some(BodyExtractor::Json { name: &is.ident, ty: inner })
                } else {
                    Some(BodyExtractor::TypedMultipart { name: &is.ident, ty: inner })
                }
            },
            None => None,
        }
    } else if str_is(s.ident.as_str(), "Multipart") {
        Some(BodyExtractor::RawMultipart)
    } else {
        None
    }
}

/// The request body of a route: the first parameter that is one.
pub open spec fn body_of(inputs: Seq<FnInput>) -> Option<BodySpec>
    decreases inputs.len(),
{
    if inputs.len() == 0 {
        None
    } else {
        match input_ty(inputs[0]) {
            Some(t) => match body_kind(t) {
                Some(b) => Some(b),
                None => body_of(inputs.drop_first()),
            },
            None => body_of(inputs.drop_first()),
        }
    }
}

/// The request body of a route.
pub fn body_info<'a>(inputs: &'a Vec<FnInput>) -> (r: Option<BodyExtractor<'a>>)
    ensures
        match r {
            Some(b) => body_of(inputs@) == Some(body_view(b)),
            None => body_of(inputs@) is None,
        },
{
    let mut i: usize = 0;
    proof {
        assert(inputs@.skip(0) =~= inputs@);
    }
    while i < inputs.len()
        invariant
            0 <= i <= inputs@.len(),
            body_of(inputs@) == body_of(inputs@.skip(i as int)),
        decreases inputs@.len() - i,
    {
        proof {
            assert(inputs@.skip(i as int).drop_first() =~= inputs@.skip(i + 1));
            assert(inputs@.skip(i as int)[0] == inputs@[i as int]);
        }
        if let FnInput::Typed { ty, .. } = &inputs[i] {
            if let Some(b) = body_type_info(ty) {
                return Some(b);
            }
        }
        i = i + 1;
    }
    proof {
        assert(inputs@.skip(i as int) =~= Seq::<FnInput>::empty());
    }
    None
}

/// The types probed for parameter metadata: each typed parameter's type,
/// with `Query<T>` and `Path<T>` unwrapped to `T`.
pub open spec fn probe_types(inputs: Seq<FnInput>) -> Seq<Ty>
    decreases inputs.len(),
{
    if inputs.len() == 0 {
        Seq::empty()
    } else {
        match input_ty(inputs[0]) {
            Some(t) => seq![extractor_inner(t)] + probe_types(inputs.drop_first()),
            None => probe_types(inputs.drop_first()),
        }
    }
}

/// The types probed for parameter metadata.
pub fn handler_param_types<'a>(inputs: &'a Vec<FnInput>) -> (r: Vec<&'a Ty>)
    ensures
        r@.map_values(|t: &'a Ty| *t) == probe_types(inputs@),
{
    let mut out: Vec<&'a Ty> = Vec::new();
    let mut i: usize = 0;
    proof {
        assert(inputs@.skip(0) =~= inputs@);
        assert(out@.map_values(|t: &'a Ty| *t) + probe_types(inputs@.skip(0)) =~= probe_types(inputs@));
    }
    while i < inputs.len()
        invariant
            0 <= i <= inputs@.len(),
            out@.map_values(|t: &'a Ty| *t) + probe_types(inputs@.skip(i as int)) == probe_types(inputs@),
        decreases inputs@.len() - i,
    {
        proof {
            assert(inputs@.skip(i as int).drop_first() =~= inputs@.skip(i + 1));
            assert(inputs@.skip(i as int)[0] == inputs@[i as int]);
        }
        if let FnInput::Typed { ty, .. } = &inputs[i] {
            let t = unwrap_extractor_inner(ty);
            let ghost before = out@;
            out.push(t);
            proof {
                assert(out@.map_values(|t: &'a Ty| *t) =~= before.map_values(|t: &'a Ty| *t).push(*t));
                assert(out@.map_values(|t: &'a Ty| *t) + probe_types(inputs@.skip(i + 1)) =~= before.map_values(
                    |t: &'a Ty| *t,
                ) + probe_types(inputs@.skip(i as int)));
            }
        }
        i = i + 1;
    }
    proof {
        assert(inputs@.skip(i as int) =~= Seq::<FnInput>::empty());
        assert(out@.map_values(|t: &'a Ty| *t) + Seq::<Ty>::empty() =~= out@.map_values(|t: &'a Ty| *t));
    }
    out
}

} // verus!
