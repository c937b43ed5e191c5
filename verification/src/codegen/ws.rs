//! `#[ws("/path")]` handlers: a thin upgrade adapter that runs the guards
//! before the upgrade, then hands the socket to an invocation function that
//! calls the method.

use vstd::prelude::*;

use crate::codegen::handlers::typed_params;
use crate::sig::{FnInput, Sig};

verus! {

/// The WebSocket parameter of the method: its position among the typed
/// parameters, and whether it is a `WsStream` (else a raw `WebSocket`).
#[derive(Clone, Copy, PartialEq, Eq, Structural, Debug)]
pub struct WsParam {
    pub index: usize,
    pub is_ws_stream: bool,
}

/// The identity parameter of the method: its position among the typed
/// parameters, and whether it is an `Option`.
#[derive(Clone, Copy, PartialEq, Eq, Structural, Debug)]
pub struct IdentityParam {
    pub index: usize,
    pub optional: bool,
}

/// One argument of the method call inside the invocation function.
#[derive(Clone, Copy, PartialEq, Eq, Structural, Debug)]
pub enum WsArg {
    /// The request-extracted argument of that typed position.
    Forwarded(usize),
    /// The upgraded socket wrapped in a `WsStream`.
    Stream,
    /// The upgraded socket itself.
    Socket,
}

/// What the invocation function does with the upgraded socket.
#[derive(Clone, Copy, PartialEq, Eq, Structural, Debug)]
pub enum WsInvocation {
    /// Passes it to the method (as a `WsStream` when `stream`).
    WithSocket { stream: bool },
    /// Calls the method for its `WsHandler` and runs that handler on the
    /// socket.
    ReturnsHandler,
}

/// Where the guard context takes its identity from.
#[derive(Clone, Copy, PartialEq, Eq, Structural, Debug)]
pub enum GuardIdentity {
    /// The method's identity parameter.
    Param(IdentityParam),
    /// The controller's struct-level identity.
    Struct,
}

/// The generated handler of a WebSocket method.
pub struct WsHandlerPlan {
    /// The typed positions extracted from the request and forwarded to the
    /// invocation: all but the WebSocket parameter, in order.
    pub forwarded: Vec<usize>,
    /// The arguments of the method call, one per typed position.
    pub call_args: Vec<WsArg>,
    pub invocation: WsInvocation,
    /// The method call is awaited.
    pub awaits: bool,
    /// The handler takes the application state and is generic over it.
    pub needs_state: bool,
    /// The handler takes the headers, URI and raw path parameters.
    pub guard_inputs: bool,
    /// A pre-upgrade guard check runs, with this identity; `None` without
    /// guards.
    pub preflight: Option<GuardIdentity>,
}

/// The positions `0..n` other than `ws`, in order.
pub open spec fn forwarded_positions(n: nat, ws: Option<WsParam>) -> Seq<usize>
    decreases n,
{
    if n == 0 {
        Seq::empty()
    } else {
        let k = (n - 1) as nat;
        forwarded_positions(k, ws) + if ws matches Some(w) && w.index == k {
            Seq::empty()
        } else {
            seq![k as usize]
        }
    }
}

/// The call argument at typed position `k`.
pub open spec fn ws_arg(k: int, ws: Option<WsParam>) -> WsArg {
    match ws {
        Some(w) => if w.index == k {
            if w.is_ws_stream {
                WsArg::Stream
            } else {
                WsArg::Socket
            }
        } else {
            WsArg::Forwarded(k as usize)
        },
        None => WsArg::Forwarded(k as usize),
    }
}

/// Plans the handler of a `#[ws]` method from its signature, its WebSocket
/// and identity parameters, and whether it has guards.
pub fn plan_ws_handler(sig: &Sig, ws_param: Option<WsParam>, identity: Option<IdentityParam>, has_guards: bool) -> (r:
    WsHandlerPlan)
    ensures
        r.forwarded@ == forwarded_positions(typed_params(sig.inputs@).len(), ws_param),
        r.call_args@ == Seq::new(typed_params(sig.inputs@).len(), |k: int| ws_arg(k, ws_param)),
        r.invocation == match ws_param {
            Some(w) => WsInvocation::WithSocket { stream: w.is_ws_stream },
            None => WsInvocation::ReturnsHandler,
        },
        r.awaits == sig.is_async,
        r.needs_state == has_guards,
        r.guard_inputs == has_guards,
        r.preflight == if has_guards {
            Some(
                match identity {
                    Some(p) => GuardIdentity::Param(p),
                    None => GuardIdentity::Struct,
                },
            )
        } else {
            None::<GuardIdentity>
        },
{
    let inputs = &sig.inputs;
    let mut forwarded: Vec<usize> = Vec::new();
    let mut call_args: Vec<WsArg> = Vec::new();
    let mut i: usize = 0;
    while i < inputs.len()
        invariant
            0 <= i <= inputs@.len(),
            inputs@ == sig.inputs@,
            call_args@.len() == typed_params(inputs@.take(i as int)).len(),
            call_args@.len() <= i,
            call_args@ == Seq::new(call_args@.len(), |k: int| ws_arg(k, ws_param)),
            forwarded@ == forwarded_positions(call_args@.len() as nat, ws_param),
        decreases inputs@.len() - i,
    {
        let ghost prev = typed_params(inputs@.take(i as int));
        assert(inputs@.take(i + 1).drop_last() =~= inputs@.take(i as int));
        assert(inputs@.take(i + 1).last() == inputs@[i as int]);
        if let FnInput::Typed { ty, .. } = &inputs[i] {
            let k = call_args.len();
            let arg = match ws_param {
                Some(w) => if w.index == k {
                    if w.is_ws_stream {
                        WsArg::Stream
                    } else {
                        WsArg::Socket
                    }
                } else {
                    WsArg::Forwarded(k)
                },
                None => WsArg::Forwarded(k),
            };
            let is_ws = match ws_param {
                Some(w) => w.index == k,
                None => false,
            };
            if !is_ws {
                forwarded.push(k);
            }
            call_args.push(arg);
            assert(call_args@ =~= Seq::new(call_args@.len(), |j: int| ws_arg(j, ws_param)));
            assert(forwarded@ =~= forwarded_positions(call_args@.len() as nat, ws_param));
            assert(typed_params(inputs@.take(i + 1)) =~= prev.push(*ty));
        } else {
            assert(typed_params(inputs@.take(i + 1)) =~= prev);
        }
        i = i + 1;
    }
    assert(inputs@.take(inputs@.len() as int) =~= inputs@);
    let invocation = match ws_param {
        Some(w) => WsInvocation::WithSocket { stream: w.is_ws_stream },
        None => WsInvocation::ReturnsHandler,
    };
    let preflight = if has_guards {
        Some(
            match identity {
                Some(p) => GuardIdentity::Param(p),
                None => GuardIdentity::Struct,
            },
        )
    } else {
        None
    };
    WsHandlerPlan {
        forwarded,
        call_args,
        invocation,
        awaits: sig.is_async,
        needs_state: has_guards,
        guard_inputs: has_guards,
        preflight,
    }
}

} // verus!
