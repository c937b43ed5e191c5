//! Where the methods of a `#[routes]` impl block are emitted: on the
//! request-scoped façade, or on the controller core.

use vstd::prelude::*;

verus! {

/// A method of the impl block, by its kind and its position among the
/// methods of that kind.
#[derive(PartialEq, Eq, Structural, Clone, Copy, Debug)]
pub enum MethodRef {
    Route(usize),
    Sse(usize),
    Ws(usize),
    Consumer(usize),
    Scheduled(usize),
    AsyncExec(usize),
    Other(usize),
}

/// The two impl blocks: the methods of the façade `impl __R2eRequest_<Name>`
/// and those of the core `impl <Name>`, each in emission order. An empty
/// list means that the block is not emitted at all.
pub struct ImplLayout {
    pub facade: Vec<MethodRef>,
    pub core: Vec<MethodRef>,
}

/// The methods `kind(i)` whose `anonymous[i]` equals `want`, in order.
pub open spec fn picks(kind: spec_fn(usize) -> MethodRef, anonymous: Seq<bool>, want: bool) -> Seq<
    MethodRef,
>
    decreases anonymous.len(),
{
    if anonymous.len() == 0 {
        Seq::empty()
    } else {
        picks(kind, anonymous.drop_last(), want) + if anonymous.last() == want {
            seq![kind((anonymous.len() - 1) as usize)]
        } else {
            Seq::empty()
        }
    }
}

/// The methods `kind(0)`, ..., `kind(n - 1)`.
pub open spec fn all_of(kind: spec_fn(usize) -> MethodRef, n: nat) -> Seq<MethodRef> {
    Seq::new(n, |i: int| kind(i as usize))
}

pub open spec fn route_ref() -> spec_fn(usize) -> MethodRef {
    |i: usize| MethodRef::Route(i)
}

pub open spec fn sse_ref() -> spec_fn(usize) -> MethodRef {
    |i: usize| MethodRef::Sse(i)
}

pub open spec fn ws_ref() -> spec_fn(usize) -> MethodRef {
    |i: usize| MethodRef::Ws(i)
}

pub open spec fn consumer_ref() -> spec_fn(usize) -> MethodRef {
    |i: usize| MethodRef::Consumer(i)
}

pub open spec fn scheduled_ref() -> spec_fn(usize) -> MethodRef {
    |i: usize| MethodRef::Scheduled(i)
}

pub open spec fn async_exec_ref() -> spec_fn(usize) -> MethodRef {
    |i: usize| MethodRef::AsyncExec(i)
}

pub open spec fn other_ref() -> spec_fn(usize) -> MethodRef {
    |i: usize| MethodRef::Other(i)
}

/// The façade: the routes, then the SSE and the WebSocket methods that are
/// not `#[anonymous]`.
pub open spec fn facade_of(routes: Seq<bool>, sse: Seq<bool>, ws: Seq<bool>) -> Seq<MethodRef> {
    picks(route_ref(), routes, false) + picks(sse_ref(), sse, false) + picks(ws_ref(), ws, false)
}

/// The core: the `#[anonymous]` routes, SSE and WebSocket methods, then the
/// consumers, the scheduled methods, the `#[async_exec]` methods and the
/// other methods.
pub open spec fn core_of(
    routes: Seq<bool>,
    sse: Seq<bool>,
    ws: Seq<bool>,
    consumers: nat,
    scheduled: nat,
    async_exec: nat,
    other: nat,
) -> Seq<MethodRef> {
    picks(route_ref(), routes, true) + picks(sse_ref(), sse, true) + picks(ws_ref(), ws, true)
        + all_of(consumer_ref(), consumers) + all_of(scheduled_ref(), scheduled) + all_of(
        async_exec_ref(),
        async_exec,
    ) + all_of(other_ref(), other)
}

/// The kinds that carry an `#[anonymous]` flag: routes, SSE, WebSocket.
spec fn flagged_kind(which: u8) -> spec_fn(usize) -> MethodRef {
    if which == 0 {
        route_ref()
    } else if which == 1 {
        sse_ref()
    } else {
        ws_ref()
    }
}

/// The kinds emitted whole on the core: consumers, scheduled, `#[async_exec]`,
/// other methods.
spec fn counted_kind(which: u8) -> spec_fn(usize) -> MethodRef {
    if which == 0 {
        consumer_ref()
    } else if which == 1 {
        scheduled_ref()
    } else if which == 2 {
        async_exec_ref()
    } else {
        other_ref()
    }
}

/// Appends the methods `kind(i)` whose flag equals `want`.
fn push_picks(
    out: &mut Vec<MethodRef>,
    anonymous: &Vec<bool>,
    want: bool,
    which: u8,
)
    requires
        which < 3,
    ensures
        final(out)@ == old(out)@ + picks(flagged_kind(which), anonymous@, want),
{
    let ghost start = out@;
    let ghost kind = flagged_kind(which);
    let mut i: usize = 0;
    while i < anonymous.len()
        invariant
            0 <= i <= anonymous@.len(),
            which < 3,
            kind == flagged_kind(which),
            out@ == start + picks(kind, anonymous@.take(i as int), want),
        decreases anonymous@.len() - i,
    {
        proof {
            assert(anonymous@.take(i + 1).drop_last() =~= anonymous@.take(i as int));
            assert(anonymous@.take(i + 1).last() == anonymous@[i as int]);
        }
        if anonymous[i] == want {
            let m = if which == 0 {
                MethodRef::Route(i)
            } else if which == 1 {
                MethodRef::Sse(i)
            } else {
                MethodRef::Ws(i)
            };
            assert(m == kind(i));
            out.push(m);
            assert(out@ =~= start + picks(kind, anonymous@.take(i + 1), want));
        } else {
            assert(out@ =~= start + picks(kind, anonymous@.take(i + 1), want));
        }
        i = i + 1;
    }
    assert(anonymous@.take(anonymous@.len() as int) =~= anonymous@);
}

/// Appends `kind(0)`, ..., `kind(n - 1)`.
fn push_all(out: &mut Vec<MethodRef>, n: usize, which: u8)
    requires
        which < 4,
    ensures
        final(out)@ == old(out)@ + all_of(counted_kind(which), n as nat),
{
    let ghost start = out@;
    let ghost kind = counted_kind(which);
    let mut i: usize = 0;
    while i < n
        invariant
            0 <= i <= n,
            which < 4,
            kind == counted_kind(which),
            out@ == start + all_of(kind, i as nat),
        decreases n - i,
    {
        let m = if which == 0 {
            MethodRef::Consumer(i)
        } else if which == 1 {
            MethodRef::Scheduled(i)
        } else if which == 2 {
            MethodRef::AsyncExec(i)
        } else {
            MethodRef::Other(i)
        };
        assert(m == kind(i));
        out.push(m);
        assert(out@ =~= start + all_of(kind, (i + 1) as nat));
        i = i + 1;
    }
}

/// Splits the methods of a `#[routes]` impl block by execution scope, from
/// the `#[anonymous]` flag of each route, SSE and WebSocket method and the
/// number of consumer, scheduled, `#[async_exec]` and other methods.
/// Request-scoped methods go on the façade, where identity and request
/// fields resolve; off-request ones, and anonymous routes, stay on the core.
pub fn impl_layout(
    routes: &Vec<bool>,
    sse: &Vec<bool>,
    ws: &Vec<bool>,
    consumers: usize,
    scheduled: usize,
    async_exec: usize,
    other: usize,
) -> (r: ImplLayout)
    ensures
        r.facade@ == facade_of(routes@, sse@, ws@),
        r.core@ == core_of(
            routes@,
            sse@,
            ws@,
            consumers as nat,
            scheduled as nat,
            async_exec as nat,
            other as nat,
        ),
{
    let mut facade: Vec<MethodRef> = Vec::new();
    push_picks(&mut facade, routes, false, 0);
    push_picks(&mut facade, sse, false, 1);
    push_picks(&mut facade, ws, false, 2);
    let mut core: Vec<MethodRef> = Vec::new();
    push_picks(&mut core, routes, true, 0);
    push_picks(&mut core, sse, true, 1);
    push_picks(&mut core, ws, true, 2);
    push_all(&mut core, consumers, 0);
    push_all(&mut core, scheduled, 1);
    push_all(&mut core, async_exec, 2);
    push_all(&mut core, other, 3);
    assert(facade@ =~= facade_of(routes@, sse@, ws@));
    assert(core@ =~= core_of(
        routes@,
        sse@,
        ws@,
        consumers as nat,
        scheduled as nat,
        async_exec as nat,
        other as nat,
    ));
    ImplLayout { facade, core }
}


/// Whether `m` names a method of the impl block, given the number of methods
/// of each kind.
pub open spec fn method_exists(
    m: MethodRef,
    routes: Seq<bool>,
    sse: Seq<bool>,
    ws: Seq<bool>,
    consumers: nat,
    scheduled: nat,
    async_exec: nat,
    other: nat,
) -> bool {
    match m {
        MethodRef::Route(i) => i < routes.len(),
        MethodRef::Sse(i) => i < sse.len(),
        MethodRef::Ws(i) => i < ws.len(),
        MethodRef::Consumer(i) => i < consumers,
        MethodRef::Scheduled(i) => i < scheduled,
        MethodRef::AsyncExec(i) => i < async_exec,
        MethodRef::Other(i) => i < other,
    }
}

/// Whether `m` runs in request scope: a route, SSE or WebSocket method that
/// is not `#[anonymous]`.
pub open spec fn request_scoped(m: MethodRef, routes: Seq<bool>, sse: Seq<bool>, ws: Seq<bool>) -> bool {
    match m {
        MethodRef::Route(i) => !routes[i as int],
        MethodRef::Sse(i) => !sse[i as int],
        MethodRef::Ws(i) => !ws[i as int],
        _ => false,
    }
}

pub open spec fn injective(kind: spec_fn(usize) -> MethodRef) -> bool {
    forall|a: usize, b: usize| #[trigger] kind(a) == #[trigger] kind(b) ==> a == b
}

proof fn lemma_concat_contains(a: Seq<MethodRef>, b: Seq<MethodRef>, m: MethodRef)
    ensures
        (a + b).contains(m) <==> a.contains(m) || b.contains(m),
{
    if (a + b).contains(m) {
        let k = choose|k: int| 0 <= k < (a + b).len() && (a + b)[k] == m;
        if k < a.len() {
            assert(a[k] == m);
        } else {
            assert(b[k - a.len()] == m);
        }
    }
    if a.contains(m) {
        let k = choose|k: int| 0 <= k < a.len() && a[k] == m;
        assert((a + b)[k] == m);
    }
    if b.contains(m) {
        let k = choose|k: int| 0 <= k < b.len() && b[k] == m;
        assert((a + b)[a.len() + k] == m);
    }
}

proof fn lemma_concat_no_duplicates(a: Seq<MethodRef>, b: Seq<MethodRef>)
    requires
        a.no_duplicates(),
        b.no_duplicates(),
        forall|m: MethodRef| a.contains(m) ==> !b.contains(m),
    ensures
        (a + b).no_duplicates(),
{
    let c = a + b;
    assert forall|i: int, j: int| 0 <= i < c.len() && 0 <= j < c.len() && i != j implies c[i]
        != c[j] by {
        if i < a.len() && j >= a.len() {
            assert(a.contains(c[i]));
            assert(b[j - a.len()] == c[j]);
        } else if j < a.len() && i >= a.len() {
            assert(a.contains(c[j]));
            assert(b[i - a.len()] == c[i]);
        } else if i >= a.len() {
            assert(b[i - a.len()] == c[i] && b[j - a.len()] == c[j]);
        }
    }
}

proof fn lemma_picks(kind: spec_fn(usize) -> MethodRef, flags: Seq<bool>, want: bool)
    requires
        injective(kind),
        flags.len() <= usize::MAX + 1,
    ensures
        picks(kind, flags, want).no_duplicates(),
        forall|m: MethodRef|
            picks(kind, flags, want).contains(m) <==> exists|i: int|
                0 <= i < flags.len() && flags[i] == want && m == #[trigger] kind(i as usize),
    decreases flags.len(),
{
    if flags.len() > 0 {
        let f = flags.drop_last();
        let p = picks(kind, f, want);
        let n = flags.len() - 1;
        lemma_picks(kind, f, want);
        assert forall|m: MethodRef|
            picks(kind, flags, want).contains(m) <==> exists|i: int|
                0 <= i < flags.len() && flags[i] == want && m == #[trigger] kind(i as usize) by {
            if flags.last() == want {
                lemma_concat_contains(p, seq![kind(n as usize)], m);
                if m == kind(n as usize) {
                    assert(seq![kind(n as usize)][0] == m);
                }
                if exists|i: int| 0 <= i < flags.len() && flags[i] == want && m == #[trigger] kind(
                    i as usize,
                ) {
                    let i = choose|i: int|
                        0 <= i < flags.len() && flags[i] == want && m == #[trigger] kind(i as usize);
                    if i < n {
                        assert(f[i] == flags[i]);
                    }
                }
            } else {
                assert(picks(kind, flags, want) =~= p);
                if exists|i: int| 0 <= i < flags.len() && flags[i] == want && m == #[trigger] kind(
                    i as usize,
                ) {
                    let i = choose|i: int|
                        0 <= i < flags.len() && flags[i] == want && m == #[trigger] kind(i as usize);
                    assert(i != n);
                    assert(f[i] == flags[i]);
                }
            }
        }
        if flags.last() == want {
            let q = seq![kind(n as usize)];
            assert forall|m: MethodRef| p.contains(m) implies !q.contains(m) by {
                let i = choose|i: int|
                    0 <= i < f.len() && f[i] == want && m == #[trigger] kind(i as usize);
                if q.contains(m) {
                    assert(q[0] == m);
                    assert(kind(i as usize) == kind(n as usize));
                }
            }
            lemma_concat_no_duplicates(p, q);
        } else {
            assert(picks(kind, flags, want) =~= p);
        }
    }
}

proof fn lemma_all_of(kind: spec_fn(usize) -> MethodRef, n: nat)
    requires
        injective(kind),
        n <= usize::MAX + 1,
    ensures
        all_of(kind, n).no_duplicates(),
        forall|m: MethodRef|
            all_of(kind, n).contains(m) <==> exists|i: int| 0 <= i < n && m == #[trigger] kind(i as usize),
{
    let s = all_of(kind, n);
    assert forall|m: MethodRef|
        s.contains(m) <==> exists|i: int| 0 <= i < n && m == #[trigger] kind(i as usize) by {
        if exists|i: int| 0 <= i < n && m == #[trigger] kind(i as usize) {
            let i = choose|i: int| 0 <= i < n && m == #[trigger] kind(i as usize);
            assert(s[i] == m);
        }
    }
    assert forall|i: int, j: int| 0 <= i < s.len() && 0 <= j < s.len() && i != j implies s[i]
        != s[j] by {
        assert(s[i] == kind(i as usize) && s[j] == kind(j as usize));
    }
}

/// Every method of a `#[routes]` impl block is emitted exactly once: the
/// façade holds exactly the request-scoped methods (the routes, SSE and
/// WebSocket methods not marked `#[anonymous]`), the core holds every other
/// method, nothing else appears, and neither block repeats a method.
pub proof fn lemma_each_method_once(
    routes: Seq<bool>,
    sse: Seq<bool>,
    ws: Seq<bool>,
    consumers: nat,
    scheduled: nat,
    async_exec: nat,
    other: nat,
)
    requires
        routes.len() <= usize::MAX,
        sse.len() <= usize::MAX,
        ws.len() <= usize::MAX,
        consumers <= usize::MAX,
        scheduled <= usize::MAX,
        async_exec <= usize::MAX,
        other <= usize::MAX,
    ensures
        facade_of(routes, sse, ws).no_duplicates(),
        core_of(routes, sse, ws, consumers, scheduled, async_exec, other).no_duplicates(),
        forall|m: MethodRef|
            #![trigger facade_of(routes, sse, ws).contains(m)]
            #![trigger core_of(routes, sse, ws, consumers, scheduled, async_exec, other).contains(m)]
            method_exists(m, routes, sse, ws, consumers, scheduled, async_exec, other) ==> {
                &&& facade_of(routes, sse, ws).contains(m) <==> request_scoped(m, routes, sse, ws)
                &&& core_of(routes, sse, ws, consumers, scheduled, async_exec, other).contains(m)
                    <==> !request_scoped(m, routes, sse, ws)
            },
        forall|m: MethodRef|
            facade_of(routes, sse, ws).contains(m) || core_of(
                routes,
                sse,
                ws,
                consumers,
                scheduled,
                async_exec,
                other,
            ).contains(m) ==> method_exists(m, routes, sse, ws, consumers, scheduled, async_exec, other),
{
    let (rk, sk, wk) = (route_ref(), sse_ref(), ws_ref());
    let (ck, dk, ak, ok) = (consumer_ref(), scheduled_ref(), async_exec_ref(), other_ref());
    assert(injective(rk) && injective(sk) && injective(wk));
    assert(injective(ck) && injective(dk) && injective(ak) && injective(ok));
    lemma_picks(rk, routes, false);
    lemma_picks(sk, sse, false);
    lemma_picks(wk, ws, false);
    lemma_picks(rk, routes, true);
    lemma_picks(sk, sse, true);
    lemma_picks(wk, ws, true);
    lemma_all_of(ck, consumers);
    lemma_all_of(dk, scheduled);
    lemma_all_of(ak, async_exec);
    lemma_all_of(ok, other);
    let f1 = picks(rk, routes, false);
    let f2 = picks(sk, sse, false);
    let f3 = picks(wk, ws, false);
    let c1 = picks(rk, routes, true);
    let c2 = picks(sk, sse, true);
    let c3 = picks(wk, ws, true);
    let c4 = all_of(ck, consumers);
    let c5 = all_of(dk, scheduled);
    let c6 = all_of(ak, async_exec);
    let c7 = all_of(ok, other);
    // each part holds methods of one kind only
    assert forall|m: MethodRef| f1.contains(m) || c1.contains(m) implies m is Route by {}
    assert forall|m: MethodRef| f2.contains(m) || c2.contains(m) implies m is Sse by {}
    assert forall|m: MethodRef| f3.contains(m) || c3.contains(m) implies m is Ws by {}
    assert forall|m: MethodRef| c4.contains(m) implies m is Consumer by {}
    assert forall|m: MethodRef| c5.contains(m) implies m is Scheduled by {}
    assert forall|m: MethodRef| c6.contains(m) implies m is AsyncExec by {}
    assert forall|m: MethodRef| c7.contains(m) implies m is Other by {}
    lemma_concat_no_duplicates(f1, f2);
    assert forall|m: MethodRef| (f1 + f2).contains(m) implies !f3.contains(m) by {
        lemma_concat_contains(f1, f2, m);
    }
    lemma_concat_no_duplicates(f1 + f2, f3);
    lemma_concat_no_duplicates(c1, c2);
    assert forall|m: MethodRef| (c1 + c2).contains(m) implies !c3.contains(m) by {
        lemma_concat_contains(c1, c2, m);
    }
    lemma_concat_no_duplicates(c1 + c2, c3);
    let g3 = c1 + c2 + c3;
    assert forall|m: MethodRef| g3.contains(m) implies m is Route || m is Sse || m is Ws by {
        lemma_concat_contains(c1 + c2, c3, m);
        lemma_concat_contains(c1, c2, m);
    }
    lemma_concat_no_duplicates(g3, c4);
    let g4 = g3 + c4;
    assert forall|m: MethodRef| g4.contains(m) implies m is Route || m is Sse || m is Ws
        || m is Consumer by {
        lemma_concat_contains(g3, c4, m);
    }
    lemma_concat_no_duplicates(g4, c5);
    let g5 = g4 + c5;
    assert forall|m: MethodRef| g5.contains(m) implies m is Route || m is Sse || m is Ws
        || m is Consumer || m is Scheduled by {
        lemma_concat_contains(g4, c5, m);
    }
    lemma_concat_no_duplicates(g5, c6);
    let g6 = g5 + c6;
    assert forall|m: MethodRef| g6.contains(m) implies m is Route || m is Sse || m is Ws
        || m is Consumer || m is Scheduled || m is AsyncExec by {
        lemma_concat_contains(g5, c6, m);
    }
    lemma_concat_no_duplicates(g6, c7);
    let fa = facade_of(routes, sse, ws);
    let co = core_of(routes, sse, ws, consumers, scheduled, async_exec, other);
    assert(fa == f1 + f2 + f3);
    assert(co == g6 + c7);
    assert forall|m: MethodRef|
        (fa.contains(m) <==> (f1.contains(m) || f2.contains(m) || f3.contains(m))) && (co.contains(
            m,
        ) <==> (c1.contains(m) || c2.contains(m) || c3.contains(m) || c4.contains(m) || c5.contains(
            m,
        ) || c6.contains(m) || c7.contains(m))) by {
        lemma_concat_contains(f1 + f2, f3, m);
        lemma_concat_contains(f1, f2, m);
        lemma_concat_contains(g6, c7, m);
        lemma_concat_contains(g5, c6, m);
        lemma_concat_contains(g4, c5, m);
        lemma_concat_contains(g3, c4, m);
        lemma_concat_contains(c1 + c2, c3, m);
        lemma_concat_contains(c1, c2, m);
    }
    assert forall|m: MethodRef|
        method_exists(m, routes, sse, ws, consumers, scheduled, async_exec, other) implies {
        &&& fa.contains(m) <==> request_scoped(m, routes, sse, ws)
        &&& co.contains(m) <==> !request_scoped(m, routes, sse, ws)
    } by {
        match m {
            MethodRef::Route(i) => {
                let j: int = i as int;
                assert(rk(j as usize) == m);
                if routes[j] {
                    assert(c1.contains(m));
                } else {
                    assert(f1.contains(m));
                }
            },
            MethodRef::Sse(i) => {
                let j: int = i as int;
                assert(sk(j as usize) == m);
                if sse[j] {
                    assert(c2.contains(m));
                } else {
                    assert(f2.contains(m));
                }
            },
            MethodRef::Ws(i) => {
                let j: int = i as int;
                assert(wk(j as usize) == m);
                if ws[j] {
                    assert(c3.contains(m));
                } else {
                    assert(f3.contains(m));
                }
            },
            MethodRef::Consumer(i) => {
                let j: int = i as int;
                assert(ck(j as usize) == m);
                assert(c4.contains(m));
            },
            MethodRef::Scheduled(i) => {
                let j: int = i as int;
                assert(dk(j as usize) == m);
                assert(c5.contains(m));
            },
            MethodRef::AsyncExec(i) => {
                let j: int = i as int;
                assert(ak(j as usize) == m);
                assert(c6.contains(m));
            },
            MethodRef::Other(i) => {
                let j: int = i as int;
                assert(ok(j as usize) == m);
                assert(c7.contains(m));
            },
        }
    }
}

} // verus!
