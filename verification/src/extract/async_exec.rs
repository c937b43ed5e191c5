//! `#[async_exec]` attribute extraction and validation.

use vstd::prelude::*;

use crate::attrs::{
    find_named, first_named, has_key, has_named, key_is, lemma_first_named, name_views, named,
    named_any, read_str_arg, res_view, retain_unnamed, route_verb, str_arg, Attr, AttrForm,
    MetaArg,
};
use crate::sig::{find_receiver, first_receiver, lemma_first_receiver, FnInput, Sig};
use crate::text::{chars_of, push_str, string_of};

verus! {

/// Configuration parsed from `#[async_exec(...)]`: the name of the field
/// holding the `PoolExecutor` (default `executor`).
pub struct AsyncExecConfig {
    pub executor_field: String,
}

/// Host of an `#[async_exec]` method: a plain `#[bean]` impl or a `#[routes]`
/// controller impl.
#[derive(Clone, Copy)]
pub enum AsyncExecHost {
    Bean,
    Controller,
}

pub open spec fn async_exec_async_msg() -> Seq<char> {
    "#[async_exec] requires an `async fn` — the body is submitted to a PoolExecutor"@
}

pub open spec fn async_exec_intercept_msg() -> Seq<char> {
    "#[intercept] on an #[async_exec] method is not supported — the pool-submission wrapper does not run an interceptor chain"@
}

pub open spec fn bean_no_receiver_msg() -> Seq<char> {
    "#[async_exec] methods must take `&self` as the first argument. The bean also needs a `PoolExecutor` field (default name: `executor`; override with #[async_exec(executor = \"name\")])"@
}

pub open spec fn controller_no_receiver_msg() -> Seq<char> {
    "#[async_exec] methods must take `&self` as the first argument. The controller also needs an `#[inject] PoolExecutor` field (default name: `executor`; override with `#[async_exec(executor = \"name\")]`)"@
}

pub open spec fn bad_receiver_msg() -> Seq<char> {
    "#[async_exec] methods must take `&self` (not `&mut self` or `self`) — the generated wrapper clones an immutable handle to submit the body to the pool"@
}

pub open spec fn async_exec_unknown_key() -> Seq<char> {
    "unknown key in #[async_exec(...)]: expected `executor`\n\nexample: #[async_exec(executor = \"my_pool\")]"@
}

/// The marker that conflicts with `#[async_exec]`, in the order checked:
/// `#[scheduled]`, `#[consumer]`, `#[post_construct]`, and on controllers a
/// route verb, `#[fallback]`, `#[sse]`, `#[ws]`.
pub open spec fn conflict_label<R>(host: AsyncExecHost, attrs: Seq<Attr<R>>) -> Option<Seq<char>> {
    if has_named(attrs, "scheduled"@) {
        Some("#[scheduled]"@)
    } else if has_named(attrs, "consumer"@) {
        Some("#[consumer]"@)
    } else if has_named(attrs, "post_construct"@) {
        Some("#[post_construct]"@)
    } else if host is Controller && exists|i: int|
        0 <= i < attrs.len() && route_verb(#[trigger] attrs[i]) {
        Some("a route verb (#[get], #[post], ...)"@)
    } else if host is Controller && has_named(attrs, "fallback"@) {
        Some("#[fallback]"@)
    } else if host is Controller && has_named(attrs, "sse"@) {
        Some("#[sse]"@)
    } else if host is Controller && has_named(attrs, "ws"@) {
        Some("#[ws]"@)
    } else {
        None
    }
}

/// The receiver check: exactly `&self`.
pub open spec fn receiver_check(sig: Sig, no_receiver: Seq<char>) -> Result<(), Seq<char>> {
    match first_receiver(sig.inputs@) {
        None => Err(no_receiver),
        Some(i) => match sig.inputs@[i] {
            FnInput::Receiver { reference, mutable } => if !reference || mutable {
                Err(bad_receiver_msg())
            } else {
                Ok(())
            },
            _ => Ok(()),
        },
    }
}

/// The full validation of an `#[async_exec]` method, in order.
pub open spec fn async_exec_check<R>(attrs: Seq<Attr<R>>, sig: Sig, host: AsyncExecHost) -> Result<
    (),
    Seq<char>,
> {
    match conflict_label(host, attrs) {
        Some(label) => Err(
            "#[async_exec] cannot be combined with "@ + label
                + " on the same method — it rewrites the method into a pool-submission wrapper"@,
        ),
        None => if has_named(attrs, "intercept"@) {
            Err(async_exec_intercept_msg())
        } else if !sig.is_async {
            Err(async_exec_async_msg())
        } else {
            receiver_check(
                sig,
                match host {
                    AsyncExecHost::Bean => bean_no_receiver_msg(),
                    AsyncExecHost::Controller => controller_no_receiver_msg(),
                },
            )
        },
    }
}

fn msg(s: &str) -> (r: String)
    ensures
        r@ == s@,
{
    string_of(&chars_of(s))
}

fn any_route_verb<R>(attrs: &Vec<Attr<R>>) -> (r: bool)
    ensures
        r == exists|i: int| 0 <= i < attrs@.len() && route_verb(#[trigger] attrs@[i]),
{
    let mut i: usize = 0;
    while i < attrs.len()
        invariant
            0 <= i <= attrs@.len(),
            forall|k: int| 0 <= k < i ==> !route_verb(#[trigger] attrs@[k]),
        decreases attrs@.len() - i,
    {
        if crate::attrs::is_route_attr(&attrs[i]) {
            return true;
        }
        i = i + 1;
    }
    false
}

impl AsyncExecHost {
    /// Owner-specific error text for a missing `&self` receiver.
    pub fn no_receiver_msg(self) -> (r: &'static str)
        ensures
            r@ == match self {
                AsyncExecHost::Bean => bean_no_receiver_msg(),
                AsyncExecHost::Controller => controller_no_receiver_msg(),
            },
    {
        match self {
            AsyncExecHost::Bean => "#[async_exec] methods must take `&self` as the first argument. The bean also needs a `PoolExecutor` field (default name: `executor`; override with #[async_exec(executor = \"name\")])",
            AsyncExecHost::Controller => "#[async_exec] methods must take `&self` as the first argument. The controller also needs an `#[inject] PoolExecutor` field (default name: `executor`; override with `#[async_exec(executor = \"name\")]`)",
        }
    }

    /// A marker on `attrs` that cannot co-exist with `#[async_exec]`.
    pub fn conflicting_marker<R>(self, attrs: &Vec<Attr<R>>) -> (r: Option<&'static str>)
        ensures
            match r {
                Some(s) => conflict_label(self, attrs@) == Some(s@),
                None => conflict_label(self, attrs@) is None,
            },
    {
        if crate::attrs::any_named(attrs, "scheduled") {
            return Some("#[scheduled]");
        }
        if crate::attrs::any_named(attrs, "consumer") {
            return Some("#[consumer]");
        }
        if crate::attrs::any_named(attrs, "post_construct") {
            return Some("#[post_construct]");
        }
        if let AsyncExecHost::Controller = self {
            if any_route_verb(attrs) {
                return Some("a route verb (#[get], #[post], ...)");
            }
            if crate::attrs::any_named(attrs, "fallback") {
                return Some("#[fallback]");
            }
            if crate::attrs::any_named(attrs, "sse") {
                return Some("#[sse]");
            }
            if crate::attrs::any_named(attrs, "ws") {
                return Some("#[ws]");
            }
        }
        None
    }
}

/// Validate the receiver of an `#[async_exec]` method: it must be exactly
/// `&self`. `no_receiver_msg` is the error for a missing receiver.
pub fn validate_async_exec_receiver(sig: &Sig, no_receiver_msg: &str) -> (r: Result<(), String>)
    ensures
        match r {
            Ok(()) => receiver_check(*sig, no_receiver_msg@) is Ok,
            Err(e) => receiver_check(*sig, no_receiver_msg@) == Err::<(), Seq<char>>(e@),
        },
{
    proof {
        lemma_first_receiver(sig.inputs@);
    }
    match find_receiver(&sig.inputs) {
        None => Err(msg(no_receiver_msg)),
        Some(i) => match &sig.inputs[i] {
            FnInput::Receiver { reference, mutable } => {
                if !*reference || *mutable {
                    Err(msg(
                        "#[async_exec] methods must take `&self` (not `&mut self` or `self`) — the generated wrapper clones an immutable handle to submit the body to the pool",
                    ))
                } else {
                    Ok(())
                }
            },
            _ => Ok(()),
        },
    }
}

/// Full validation of an `#[async_exec]` method: the conflict matrix, the
/// `#[intercept]` refusal, the `async fn` requirement, then the receiver.
pub fn validate_async_exec_method<R>(attrs: &Vec<Attr<R>>, sig: &Sig, host: AsyncExecHost) -> (r:
    Result<(), String>)
    ensures
        match r {
            Ok(()) => async_exec_check(attrs@, *sig, host) is Ok,
            Err(e) => async_exec_check(attrs@, *sig, host) == Err::<(), Seq<char>>(e@),
        },
{
    if let Some(label) = host.conflicting_marker(attrs) {
        let mut v = chars_of("#[async_exec] cannot be combined with ");
        push_str(&mut v, label);
        push_str(&mut v, " on the same method — it rewrites the method into a pool-submission wrapper");
        return Err(string_of(&v));
    }
    if crate::attrs::any_named(attrs, "intercept") {
        return Err(msg(
            "#[intercept] on an #[async_exec] method is not supported — the pool-submission wrapper does not run an interceptor chain",
        ));
    }
    if !sig.is_async {
        return Err(msg("#[async_exec] requires an `async fn` — the body is submitted to a PoolExecutor"));
    }
    validate_async_exec_receiver(sig, host.no_receiver_msg())
}

/// What `extract_async_exec` makes of a method's attributes.
pub open spec fn async_exec_outcome<R>(attrs: Seq<Attr<R>>) -> Result<Option<Seq<char>>, Seq<char>> {
    match first_named(attrs, "async_exec"@) {
        None => Ok(None),
        Some(i) => if attrs[i].form is List {
            match attrs[i].meta {
                Err(m) => Err(m@),
                Ok(args) => executor_args(args@, "executor"@),
            }
        } else {
            Ok(Some("executor"@))
        },
    }
}

/// Reads `executor = "..."` arguments in order; the last one wins.
pub open spec fn executor_args(args: Seq<MetaArg>, cur: Seq<char>) -> Result<Option<Seq<char>>, Seq<char>>
    decreases args.len(),
{
    if args.len() == 0 {
        Ok(Some(cur))
    } else if key_is(args[0], "executor"@) {
        match str_arg(args[0]) {
            Ok(v) => executor_args(args.drop_first(), v),
            Err(e) => Err(e),
        }
    } else {
        Err(async_exec_unknown_key())
    }
}

/// Reads the first `#[async_exec]` / `#[async_exec(executor = "...")]`.
pub fn extract_async_exec<R>(attrs: &Vec<Attr<R>>) -> (r: Result<Option<AsyncExecConfig>, String>)
    ensures
        match r {
            Ok(None) => async_exec_outcome(attrs@) == Ok::<Option<Seq<char>>, Seq<char>>(None),
            Ok(Some(c)) => async_exec_outcome(attrs@) == Ok::<Option<Seq<char>>, Seq<char>>(
                Some(c.executor_field@),
            ),
            Err(e) => async_exec_outcome(attrs@) == Err::<Option<Seq<char>>, Seq<char>>(e@),
        },
{
    proof {
        lemma_first_named(attrs@, "async_exec"@);
    }
    let i = match find_named(attrs, "async_exec") {
        None => return Ok(None),
        Some(i) => i,
    };
    let mut field = msg("executor");
    if let AttrForm::List = &attrs[i].form {
        let args = match &attrs[i].meta {
            Err(m) => return Err(m.clone()),
            Ok(args) => args,
        };
        let mut k: usize = 0;
        assert(args@.skip(0) =~= args@);
        while k < args.len()
            invariant
                0 <= k <= args@.len(),
                i < attrs@.len(),
                first_named(attrs@, "async_exec"@) == Some(i as int),
                attrs@[i as int].form is List,
                attrs@[i as int].meta matches Ok(v) && v@ == args@,
                executor_args(args@, "executor"@) == executor_args(args@.skip(k as int), field@),
            decreases args@.len() - k,
        {
            let a = &args[k];
            assert(args@.skip(k as int)[0] == *a);
            assert(args@.skip(k as int).drop_first() =~= args@.skip(k + 1));
            if has_key(a, "executor") {
                field = read_str_arg(a)?;
            } else {
                return Err(msg(
                    "unknown key in #[async_exec(...)]: expected `executor`\n\nexample: #[async_exec(executor = \"my_pool\")]",
                ));
            }
            k = k + 1;
        }
    }
    Ok(Some(AsyncExecConfig { executor_field: field }))
}

/// Removes `#[async_exec]` attributes.
pub fn strip_async_exec_attrs<R>(attrs: Vec<Attr<R>>) -> (r: Vec<Attr<R>>)
    ensures
        r@ == attrs@.filter(|a: Attr<R>| !named(a, "async_exec"@)),
{
    let names = vec!["async_exec"];
    let r = retain_unnamed(attrs, &names);
    proof {
        let ns = name_views(names@);
        assert forall|a: Attr<R>| #![auto] named_any(a, ns) == named(a, "async_exec"@) by {
            if named(a, "async_exec"@) {
                assert(ns[0] == "async_exec"@);
            }
        }
        assert((|a: Attr<R>| !named_any(a, ns)) =~= (|a: Attr<R>| !named(a, "async_exec"@)));
    }
    r
}

} // verus!
