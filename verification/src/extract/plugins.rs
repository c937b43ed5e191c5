//! The decorator attribute registry: which attribute names the route
//! decorators consume, and which of them gRPC routes refuse.

use vstd::prelude::*;

use crate::attrs::{
    find_named_any, first_named_any, name_views, lemma_first_named_any, named, named_any, retain_unnamed, Attr,
};
use crate::text::{chars_of, push_str, string_of};

verus! {

/// Attribute names consumed by the HTTP decorator plugins, in registry order.
pub open spec fn decorator_attr_names() -> Seq<Seq<char>> {
    seq![
        "roles"@,
        "guard"@,
        "pre_guard"@,
        "transactional"@,
        "intercept"@,
        "middleware"@,
        "layer"@,
        "status"@,
        "returns"@,
    ]
}

/// Decorators that gRPC routes do not support.
pub open spec fn grpc_disallowed_names() -> Seq<Seq<char>> {
    seq!["roles"@, "guard"@, "pre_guard"@, "transactional"@, "middleware"@, "layer"@]
}

/// Every attribute name that route-method stripping removes: route verbs,
/// `sse`, `ws` and the decorator names.
pub open spec fn known_attr_names() -> Seq<Seq<char>> {
    seq!["get"@, "post"@, "put"@, "delete"@, "patch"@, "sse"@, "ws"@] + decorator_attr_names()
}

fn grpc_disallowed() -> (r: Vec<&'static str>)
    ensures
        name_views(r@) == grpc_disallowed_names(),
{
    let r = vec!["roles", "guard", "pre_guard", "transactional", "middleware", "layer"];
    assert(name_views(r@) =~= grpc_disallowed_names());
    r
}

/// Collect all attribute names consumed by plugins.
pub fn all_decorator_attr_names() -> (r: Vec<&'static str>)
    ensures
        name_views(r@) == decorator_attr_names(),
{
    let r = vec![
        "roles",
        "guard",
        "pre_guard",
        "transactional",
        "intercept",
        "middleware",
        "layer",
        "status",
        "returns",
    ];
    assert(name_views(r@) =~= decorator_attr_names());
    r
}

fn known_names() -> (r: Vec<&'static str>)
    ensures
        name_views(r@) == known_attr_names(),
{
    let mut r = vec!["get", "post", "put", "delete", "patch", "sse", "ws"];
    let mut d = all_decorator_attr_names();
    let ghost r0 = r@;
    r.append(&mut d);
    assert(name_views(r@) =~= known_attr_names());
    r
}

/// Strip all known decorator and route-kind attributes from a method's attribute list.
pub fn strip_known_attrs<R>(attrs: Vec<Attr<R>>) -> (r: Vec<Attr<R>>)
    ensures
        r@ == attrs@.filter(|a: Attr<R>| !named_any(a, known_attr_names())),
{
    let names = known_names();
    let r = retain_unnamed(attrs, &names);
    assert((|a: Attr<R>| !named_any(a, name_views(names@))) =~= (|a: Attr<R>|
        !named_any(a, known_attr_names())));
    r
}

/// The message for a decorator that gRPC routes refuse.
pub open spec fn grpc_refusal(name: Seq<char>) -> Seq<char> {
    "#["@ + name + "] is not supported on #[grpc_routes] methods"@
}

/// Refuse the HTTP-only decorators on a gRPC route method: the first such
/// attribute, in order, is reported.
pub fn validate_grpc_attrs<R>(attrs: &Vec<Attr<R>>) -> (r: Result<(), String>)
    ensures
        match first_named_any(attrs@, grpc_disallowed_names()) {
            None => r is Ok,
            Some(i) => r matches Err(e) && e@ == grpc_refusal(attrs@[i].ident->0@),
        },
{
    let names = grpc_disallowed();
    proof {
        lemma_first_named_any(attrs@, grpc_disallowed_names());
    }
    let found = find_named_any(attrs, &names);
    assert(name_views(names@) == grpc_disallowed_names());
    match found {
        None => Ok(()),
        Some(i) => {
            assert(named_any(attrs@[i as int], grpc_disallowed_names()));
            let name = match &attrs[i].ident {
                Some(s) => s.as_str(),
                None => {
                    proof {
                        let ns = grpc_disallowed_names();
                        let k = choose|k: int|
                            0 <= k < ns.len() && named(attrs@[i as int], #[trigger] ns[k]);
                        assert(named(attrs@[i as int], ns[k]));
                        assert(false);
                    }
                    ""
                },
            };
            let mut v = chars_of("#[");
            push_str(&mut v, name);
            push_str(&mut v, "] is not supported on #[grpc_routes] methods");
            Err(string_of(&v))
        },
    }
}

} // verus!
