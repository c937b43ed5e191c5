//! Off-request wiring shared by beans and controllers: how a consumer is
//! subscribed, which wiring attributes a re-emitted method drops, and how
//! the parameters of an `#[async_exec]` wrapper are named.

use vstd::prelude::*;

use crate::attrs::{lemma_filtered_unnamed, name_views, named, named_any, retain_unnamed, Attr};
use crate::extract::async_exec::async_exec_outcome;
use crate::extract::consumer::consumer_outcome;
use crate::extract::scheduled::{scheduled_outcome, Reading, ScheduledSpec};
use crate::extract::consumer::{ConsumerConfig, ConsumerSpec};
use crate::sig::{FnInput, Pat};
use crate::text::{chars_of, decimal, decimal_chars, string_of};

verus! {

/// Whether an attribute is off-request wiring: `#[consumer]`,
/// `#[post_construct]`, `#[scheduled]` or `#[intercept]`.
pub open spec fn transverse_attr<R>(a: Attr<R>) -> bool {
    named(a, "consumer"@) || named(a, "post_construct"@) || named(a, "scheduled"@) || named(a, "intercept"@)
}

/// Removes the wiring attributes of off-request methods: `#[consumer]`,
/// `#[post_construct]`, `#[scheduled]` and `#[intercept]`, in order.
pub fn strip_transverse_attrs<R>(attrs: Vec<Attr<R>>) -> (r: Vec<Attr<R>>)
    ensures
        r@ == attrs@.filter(|a: Attr<R>| !transverse_attr(a)),
{
    let names = vec!["consumer", "post_construct", "scheduled", "intercept"];
    let r = retain_unnamed(attrs, &names);
    proof {
        let ns = name_views(names@);
        assert forall|a: Attr<R>| #![auto]
            named_any(a, ns) == (named(a, "consumer"@) || named(a, "post_construct"@) || named(a, "scheduled"@)
                || named(a, "intercept"@)) by {
            if named(a, "consumer"@) {
                assert(ns[0] == "consumer"@);
            }
            if named(a, "post_construct"@) {
                assert(ns[1] == "post_construct"@);
            }
            if named(a, "scheduled"@) {
                assert(ns[2] == "scheduled"@);
            }
            if named(a, "intercept"@) {
                assert(ns[3] == "intercept"@);
            }
        }
        assert((|a: Attr<R>| !named_any(a, ns)) =~= (|a: Attr<R>| !transverse_attr(a)));
    }
    r
}

/// How a consumer is registered on its event bus.
pub enum Subscription<'a> {
    /// A request-reply consumer answers with `respond`; a reply that is not
    /// `fallible` is wrapped in `Ok`.
    Respond { fallible: bool },
    /// A fan-out consumer subscribes: after registering its topic, if any;
    /// with its custom deserializer, if any; and, where it has a filter or a
    /// retry policy, configured with them (a dead-letter topic only with a
    /// retry count).
    Subscribe {
        topic: Option<&'a String>,
        deserializer: Option<&'a String>,
        configure: bool,
        filter: Option<&'a String>,
        retry: Option<u32>,
        dlq: Option<&'a String>,
    },
}

pub enum SubscriptionSpec {
    Respond { fallible: bool },
    Subscribe {
        topic: Option<Seq<char>>,
        deserializer: Option<Seq<char>>,
        configure: bool,
        filter: Option<Seq<char>>,
        retry: Option<u32>,
        dlq: Option<Seq<char>>,
    },
}

pub open spec fn ref_view<'a>(o: Option<&'a String>) -> Option<Seq<char>> {
    match o {
        Some(s) => Some(s@),
        None => None,
    }
}

pub open spec fn subscription_view<'a>(s: Subscription<'a>) -> SubscriptionSpec {
    match s {
        Subscription::Respond { fallible } => SubscriptionSpec::Respond { fallible },
        Subscription::Subscribe { topic, deserializer, configure, filter, retry, dlq } => SubscriptionSpec::Subscribe {
            topic: ref_view(topic),
            deserializer: ref_view(deserializer),
            configure,
            filter: ref_view(filter),
            retry,
            dlq: ref_view(dlq),
        },
    }
}

/// The registration of a consumer with configuration `c`.
pub open spec fn subscription_of(c: ConsumerSpec, responder: bool, fallible: bool) -> SubscriptionSpec {
    if responder {
        SubscriptionSpec::Respond { fallible }
    } else {
        SubscriptionSpec::Subscribe {
            topic: c.topic,
            deserializer: c.deserializer,
            configure: c.filter is Some || c.retry is Some,
            filter: c.filter,
            retry: c.retry,
            dlq: if c.retry is Some {
                c.dlq
            } else {
                None
            },
        }
    }
}

/// How a consumer with configuration `c` is registered.
pub fn subscription<'a>(c: &'a ConsumerConfig, responder: bool, fallible: bool) -> (r: Subscription<'a>)
    ensures
        subscription_view(r) == subscription_of(c@, responder, fallible),
{
    if responder {
        return Subscription::Respond { fallible };
    }
    let dlq = match c.retry {
        Some(_) => match &c.dlq {
            Some(d) => Some(d),
            None => None,
        },
        None => None,
    };
    Subscription::Subscribe {
        topic: match &c.topic {
            Some(t) => Some(t),
            None => None,
        },
        deserializer: match &c.deserializer {
            Some(d) => Some(d),
            None => None,
        },
        configure: c.filter.is_some() || c.retry.is_some(),
        filter: match &c.filter {
            Some(f) => Some(f),
            None => None,
        },
        retry: c.retry,
        dlq,
    }
}

/// The name an `#[async_exec]` wrapper gives the typed parameter at
/// position `i` among the typed ones: its identifier where the pattern is
/// one, else `__arg_<i>`.
pub open spec fn wrapper_arg_name(p: Pat, i: nat) -> Seq<char> {
    match p {
        Pat::Ident(n) => n@,
        _ => "__arg_"@ + decimal(i),
    }
}

/// The names of the typed parameters among `inputs`, in order; `k` counts
/// the typed parameters before them.
pub open spec fn wrapper_arg_names(inputs: Seq<FnInput>, k: nat) -> Seq<Seq<char>>
    decreases inputs.len(),
{
    if inputs.len() == 0 {
        Seq::empty()
    } else {
        match inputs[0] {
            FnInput::Typed { pat, .. } => seq![wrapper_arg_name(pat, k)] + wrapper_arg_names(
                inputs.drop_first(),
                k + 1,
            ),
            FnInput::Receiver { .. } => wrapper_arg_names(inputs.drop_first(), k),
        }
    }
}

/// The names an `#[async_exec]` wrapper gives the typed parameters of a
/// method, in order.
pub fn async_exec_arg_names(inputs: &Vec<FnInput>) -> (r: Vec<String>)
    ensures
        r@.map_values(|s: String| s@) == wrapper_arg_names(inputs@, 0),
{
    let mut out: Vec<String> = Vec::new();
    let mut typed: usize = 0;
    let mut i: usize = 0;
    proof {
        assert(inputs@.skip(0) =~= inputs@);
        assert(out@.map_values(|s: String| s@) + wrapper_arg_names(inputs@.skip(0), 0) =~= wrapper_arg_names(
            inputs@,
            0,
        ));
        reveal_strlit("__arg_");
    }
    while i < inputs.len()
        invariant
            0 <= i <= inputs@.len(),
            typed <= i,
            out@.map_values(|s: String| s@) + wrapper_arg_names(inputs@.skip(i as int), typed as nat)
                == wrapper_arg_names(inputs@, 0),
        decreases inputs@.len() - i,
    {
        proof {
            assert(inputs@.skip(i as int).drop_first() =~= inputs@.skip(i + 1));
            assert(inputs@.skip(i as int)[0] == inputs@[i as int]);
        }
        match &inputs[i] {
            FnInput::Receiver { .. } => {},
            FnInput::Typed { pat, .. } => {
                let name = match pat {
                    Pat::Ident(n) => n.clone(),
                    _ => {
                        let mut v = chars_of("__arg_");
                        let d = decimal_chars(typed);
                        let mut j: usize = 0;
                        let ghost v0 = v@;
                        while j < d.len()
                            invariant
                                0 <= j <= d@.len(),
                                v@ == v0 + d@.take(j as int),
                            decreases d@.len() - j,
                        {
                            v.push(d[j]);
                            proof {
                                assert(d@.take(j + 1) =~= d@.take(j as int).push(d@[j as int]));
                            }
                            j = j + 1;
                        }
                        proof {
                            assert(d@.take(j as int) =~= d@);
                        }
                        string_of(&v)
                    },
                };
                assert(name@ == wrapper_arg_name(*pat, typed as nat));
                let ghost before = out@;
                out.push(name);
                proof {
                    assert(out@.map_values(|s: String| s@) =~= before.map_values(|s: String| s@).push(name@));
                    assert(seq![name@] + wrapper_arg_names(inputs@.skip(i + 1), (typed + 1) as nat)
                        == wrapper_arg_names(inputs@.skip(i as int), typed as nat));
                    assert(out@.map_values(|s: String| s@) + wrapper_arg_names(inputs@.skip(i + 1), (typed + 1) as nat)
                        =~= before.map_values(|s: String| s@) + (seq![name@] + wrapper_arg_names(
                        inputs@.skip(i + 1),
                        (typed + 1) as nat,
                    )));
                }
                typed = typed + 1;
            },
        }
        i = i + 1;
    }
    proof {
        assert(inputs@.skip(i as int) =~= Seq::<FnInput>::empty());
        assert(out@.map_values(|s: String| s@) + Seq::<Seq<char>>::empty() =~= out@.map_values(|s: String| s@));
    }
    out
}

/// How an off-request method is emitted when interceptors apply to it: the
/// number of its own interceptor sites that run, the number of shared
/// controller-level ones, and whether its wrapper is promoted to `async`
/// (a sync source must be, to await the chain).
#[derive(PartialEq, Eq, Structural, Clone, Copy, Debug)]
pub struct DispatchPlan {
    pub intercept_count: usize,
    pub ctrl_field_count: usize,
    pub promote_async: bool,
}

/// How an off-request method is emitted: unchanged (`None`) where it has no
/// interceptor that runs, its own sites counting only when every one of
/// their spec types is inferable; otherwise behind a dispatch wrapper.
pub fn dispatch_plan(method_intercepts: &Vec<crate::deco::DecoExpr>, ctrl_field_count: usize, source_async: bool) -> (r:
    Option<DispatchPlan>)
    ensures
        ({
            let method_ok = method_intercepts@.len() > 0 && forall|k: int|
                0 <= k < method_intercepts@.len() ==> (#[trigger] crate::deco::spec_type(method_intercepts@[k])) is Ok;
            if !method_ok && ctrl_field_count == 0 {
                r is None
            } else {
                r == Some(
                    DispatchPlan {
                        intercept_count: if method_ok {
                            method_intercepts@.len() as usize
                        } else {
                            0
                        },
                        ctrl_field_count,
                        promote_async: !source_async,
                    },
                )
            }
        }),
{
    let method_ok = method_intercepts.len() > 0 && crate::deco::all_specs_inferable(method_intercepts);
    if !method_ok && ctrl_field_count == 0 {
        return None;
    }
    Some(
        DispatchPlan {
            intercept_count: if method_ok {
                method_intercepts.len()
            } else {
                0
            },
            ctrl_field_count,
            promote_async: !source_async,
        },
    )
}


/// Stripping undoes marking: once a method's wiring attributes are removed
/// (as each macro does before it re-emits the method), reading them again
/// finds no `#[scheduled]`, no `#[consumer]` and no `#[async_exec]`
/// configuration, whether the macro stripped its own marker alone or all the
/// off-request wiring at once.
pub proof fn lemma_stripped_reads_nothing<R>(attrs: Seq<Attr<R>>)
    ensures
        scheduled_outcome(attrs.filter(|a: Attr<R>| !(named(a, "scheduled"@) || named(a, "intercept"@))))
            == Reading::<Option<ScheduledSpec>>::Value(None),
        consumer_outcome(attrs.filter(|a: Attr<R>| !named(a, "consumer"@))) matches Ok(c) && c is None,
        async_exec_outcome(attrs.filter(|a: Attr<R>| !named(a, "async_exec"@))) matches Ok(e) && e is None,
        scheduled_outcome(attrs.filter(|a: Attr<R>| !transverse_attr(a))) == Reading::<Option<ScheduledSpec>>::Value(
            None,
        ),
        consumer_outcome(attrs.filter(|a: Attr<R>| !transverse_attr(a))) matches Ok(c) && c is None,
{
    lemma_filtered_unnamed(
        attrs,
        |a: Attr<R>| !(named(a, "scheduled"@) || named(a, "intercept"@)),
        "scheduled"@,
    );
    lemma_filtered_unnamed(attrs, |a: Attr<R>| !named(a, "consumer"@), "consumer"@);
    lemma_filtered_unnamed(attrs, |a: Attr<R>| !named(a, "async_exec"@), "async_exec"@);
    lemma_filtered_unnamed(attrs, |a: Attr<R>| !transverse_attr(a), "scheduled"@);
    lemma_filtered_unnamed(attrs, |a: Attr<R>| !transverse_attr(a), "consumer"@);
}

} // verus!
