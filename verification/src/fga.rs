//! OpenFGA guards that read an object id from a path parameter: finding
//! their literal `from_path("...")` references, the check that the route
//! declares the parameter, and the message when it does not.

use vstd::prelude::*;

use crate::text::{chars_of, push_str, string_of};

verus! {

/// The shape of a guard expression, as far as the check reads it.
pub enum GuardExpr {
    /// `receiver.method(args)`.
    MethodCall { method: String, receiver: Box<GuardExpr>, args: Vec<GuardExpr> },
    /// `func(...)`.
    Call { func: Box<GuardExpr> },
    /// `base.field`.
    Field { base: Box<GuardExpr> },
    /// `(e)`, an invisible group, or `&e`.
    Wrapped(Box<GuardExpr>),
    /// A path, by its segments' identifiers.
    Path(Vec<String>),
    /// A string literal, by its value.
    Str(String),
    Other,
}

/// Whether a builder chain's base is a path through `FgaCheck`.
pub open spec fn roots_in_fga(e: GuardExpr) -> bool
    decreases e,
{
    match e {
        GuardExpr::MethodCall { receiver, .. } => roots_in_fga(*receiver),
        GuardExpr::Call { func } => roots_in_fga(*func),
        GuardExpr::Field { base } => roots_in_fga(*base),
        GuardExpr::Wrapped(inner) => roots_in_fga(*inner),
        GuardExpr::Path(segs) => exists|k: int| 0 <= k < segs@.len() && (#[trigger] segs@[k])@ == "FgaCheck"@,
        _ => false,
    }
}

/// The value of an argument list that is exactly one string literal.
pub open spec fn single_str(args: Seq<GuardExpr>) -> Option<Seq<char>> {
    if args.len() == 1 && args[0] is Str {
        Some(args[0]->Str_0@)
    } else {
        None
    }
}

/// The literal `from_path("...")` references of a guard expression, outer
/// call first: each on a chain that roots in `FgaCheck`.
pub open spec fn path_refs(e: GuardExpr) -> Seq<Seq<char>>
    decreases e,
{
    match e {
        GuardExpr::MethodCall { method, receiver, args } => {
            let here = if method@ == "from_path"@ && roots_in_fga(*receiver) {
                match single_str(args@) {
                    Some(s) => seq![s],
                    None => Seq::empty(),
                }
            } else {
                Seq::empty()
            };
            here + path_refs(*receiver)
        },
        GuardExpr::Wrapped(inner) => path_refs(*inner),
        _ => Seq::empty(),
    }
}

fn is_fga_path(segs: &Vec<String>) -> (r: bool)
    ensures
        r == exists|k: int| 0 <= k < segs@.len() && (#[trigger] segs@[k])@ == "FgaCheck"@,
{
    let mut i: usize = 0;
    while i < segs.len()
        invariant
            0 <= i <= segs@.len(),
            forall|k: int| 0 <= k < i ==> (#[trigger] segs@[k])@ != "FgaCheck"@,
        decreases segs@.len() - i,
    {
        if crate::text::str_is(segs[i].as_str(), "FgaCheck") {
            return true;
        }
        i = i + 1;
    }
    false
}

/// Whether a builder chain's base is a path through `FgaCheck`.
pub fn chain_roots_in_fga(e: &GuardExpr) -> (r: bool)
    ensures
        r == roots_in_fga(*e),
    decreases *e,
{
    match e {
        GuardExpr::MethodCall { receiver, .. } => chain_roots_in_fga(receiver),
        GuardExpr::Call { func } => chain_roots_in_fga(func),
        GuardExpr::Field { base } => chain_roots_in_fga(base),
        GuardExpr::Wrapped(inner) => chain_roots_in_fga(inner),
        GuardExpr::Path(segs) => is_fga_path(segs),
        _ => false,
    }
}

/// The literal `from_path("...")` references of a guard expression.
pub fn collect_fga_path_refs(e: &GuardExpr) -> (r: Vec<String>)
    ensures
        r@.map_values(|s: String| s@) == path_refs(*e),
    decreases *e,
{
    proof {
        reveal_strlit("from_path");
    }
    match e {
        GuardExpr::MethodCall { method, receiver, args } => {
            let mut out: Vec<String> = Vec::new();
            if crate::text::str_is(method.as_str(), "from_path") && chain_roots_in_fga(receiver) {
                if args.len() == 1 {
                    if let GuardExpr::Str(s) = &args[0] {
                        out.push(s.clone());
                    }
                }
            }
            let ghost here = out@.map_values(|s: String| s@);
            let mut rest = collect_fga_path_refs(receiver);
            let ghost rv = rest@.map_values(|s: String| s@);
            out.append(&mut rest);
            proof {
                assert(out@.map_values(|s: String| s@) =~= here + rv);
            }
            out
        },
        GuardExpr::Wrapped(inner) => collect_fga_path_refs(inner),
        _ => {
            let out: Vec<String> = Vec::new();
            proof {
                assert(out@.map_values(|s: String| s@) =~= Seq::<Seq<char>>::empty());
            }
            out
        },
    }
}

// ── the route check ─────────────────────────────────────────────────────

/// The name written in the placeholder that opens at position `i` of
/// `p` (`p[i] == '{'`): after an optional `*`, up to `}` or `:`.
pub open spec fn placeholder_end(p: Seq<char>, j: int) -> int
    decreases p.len() - j,
{
    if j >= p.len() || p[j] == '}' || p[j] == ':' {
        j
    } else {
        placeholder_end(p, j + 1)
    }
}

pub open spec fn name_start(p: Seq<char>, i: int) -> int {
    if i + 1 < p.len() && p[i + 1] == '*' {
        i + 2
    } else {
        i + 1
    }
}

/// Whether a placeholder named `n` appears in `p` from position `i` on.
pub open spec fn has_param_from(p: Seq<char>, n: Seq<char>, i: int) -> bool
    decreases p.len() - i,
{
    if i < 0 || i >= p.len() {
        false
    } else if p[i] == '{' {
        let s = name_start(p, i);
        let e = placeholder_end(p, s);
        proof {
            lemma_placeholder_end(p, s);
        }
        if p.subrange(s, e) == n {
            true
        } else {
            has_param_from(p, n, e)
        }
    } else {
        has_param_from(p, n, i + 1)
    }
}

pub proof fn lemma_placeholder_end(p: Seq<char>, j: int)
    requires
        0 <= j,
    ensures
        j <= placeholder_end(p, j),
        j <= p.len() ==> placeholder_end(p, j) <= p.len(),
        placeholder_end(p, j) < p.len() ==> p[placeholder_end(p, j)] == '}' || p[placeholder_end(p, j)] == ':',
        forall|k: int| j <= k < placeholder_end(p, j) ==> p[k] != '}' && p[k] != ':',
    decreases p.len() - j,
{
    if !(j >= p.len() || p[j] == '}' || p[j] == ':') {
        lemma_placeholder_end(p, j + 1);
    }
}

/// Whether the route path (or the controller's prefix) declares a `{name}`
/// placeholder; `{name:regex}` and `{*name}` count too. This is the check
/// the generated compile-time assertion performs.
pub fn route_has_param(prefix: Option<&str>, path: &str, name: &str) -> (r: bool)
    ensures
        r == (has_param_from(path@, name@, 0) || (prefix matches Some(p) && has_param_from(p@, name@, 0))),
{
    if seg_has_param(path, name) {
        return true;
    }
    match prefix {
        Some(p) => seg_has_param(p, name),
        None => false,
    }
}

/// Whether `p` holds `n` from position `start`.
fn slice_equals(p: &Vec<char>, start: usize, n: &Vec<char>) -> (r: bool)
    requires
        start + n@.len() <= p@.len(),
    ensures
        r == (p@.subrange(start as int, start + n@.len()) == n@),
{
    let plen = p.len();
    let mut k: usize = 0;
    while k < n.len()
        invariant
            0 <= k <= n@.len(),
            plen == p@.len(),
            start + n@.len() <= p@.len(),
            forall|m: int| 0 <= m < k ==> p@[start + m] == n@[m],
        decreases n@.len() - k,
    {
        if p[start + k] != n[k] {
            proof {
                assert(p@.subrange(start as int, start + n@.len())[k as int] != n@[k as int]);
            }
            return false;
        }
        k = k + 1;
    }
    proof {
        assert(p@.subrange(start as int, start + n@.len()) =~= n@);
    }
    true
}

/// Whether `path` has a placeholder named `name`.
fn seg_has_param(path: &str, name: &str) -> (r: bool)
    ensures
        r == has_param_from(path@, name@, 0),
{
    let p = chars_of(path);
    let n = chars_of(name);
    let mut i: usize = 0;
    while i < p.len()
        invariant
            0 <= i <= p@.len(),
            p@ == path@,
            n@ == name@,
            has_param_from(p@, n@, 0) == has_param_from(p@, n@, i as int),
        decreases p@.len() - i,
    {
        if p[i] == '{' {
            let mut j = i + 1;
            if j < p.len() && p[j] == '*' {
                j = j + 1;
            }
            let start = j;
            proof {
                lemma_placeholder_end(p@, start as int);
            }
            while j < p.len() && p[j] != '}' && p[j] != ':'
                invariant
                    start <= j <= p@.len(),
                    placeholder_end(p@, start as int) == placeholder_end(p@, j as int),
                decreases p@.len() - j,
            {
                j = j + 1;
            }
            proof {
                assert(start == name_start(p@, i as int));
                assert(j == placeholder_end(p@, start as int));
            }
            if j - start == n.len() {
                if slice_equals(&p, start, &n) {
                    return true;
                }
            } else {
                proof {
                    assert(p@.subrange(start as int, j as int).len() != n@.len());
                }
            }
            proof {
                assert(j > i);
            }
            i = j;
        } else {
            i = i + 1;
        }
    }
    false
}

/// The characters of `s` with every `{` and `}` doubled.
pub open spec fn braces_doubled(s: Seq<char>) -> Seq<char>
    decreases s.len(),
{
    if s.len() == 0 {
        Seq::empty()
    } else {
        braces_doubled(s.drop_last()) + if s.last() == '{' {
            seq!['{', '{']
        } else if s.last() == '}' {
            seq!['}', '}']
        } else {
            seq![s.last()]
        }
    }
}

/// `s` with every brace doubled, as a format string reads it literally.
pub fn double_braces(s: &Vec<char>) -> (r: Vec<char>)
    ensures
        r@ == braces_doubled(s@),
{
    let mut out: Vec<char> = Vec::new();
    let mut i: usize = 0;
    proof {
        assert(s@.take(0) =~= Seq::<char>::empty());
    }
    while i < s.len()
        invariant
            0 <= i <= s@.len(),
            out@ == braces_doubled(s@.take(i as int)),
        decreases s@.len() - i,
    {
        proof {
            assert(s@.take(i + 1).drop_last() =~= s@.take(i as int));
            assert(s@.take(i + 1).last() == s@[i as int]);
        }
        let c = s[i];
        let ghost before = out@;
        out.push(c);
        if c == '{' || c == '}' {
            out.push(c);
        }
        proof {
            if c == '{' || c == '}' {
                assert(out@ =~= before + seq![c, c]);
            } else {
                assert(out@ =~= before + seq![c]);
            }
        }
        i = i + 1;
    }
    proof {
        assert(s@.take(i as int) =~= s@);
    }
    out
}

/// The list of a route's declared parameters in the message: `none`, or
/// each as `` `{p}` ``, comma-separated.
pub open spec fn params_list(ps: Seq<Seq<char>>) -> Seq<char>
    decreases ps.len(),
{
    if ps.len() == 0 {
        "none"@
    } else if ps.len() == 1 {
        "`{"@ + ps[0] + "}`"@
    } else {
        params_list(ps.drop_last()) + ", `{"@ + ps.last() + "}`"@
    }
}

/// The raw message of an unknown `from_path` parameter.
pub open spec fn unknown_param_text(param: Seq<char>, path: Seq<char>, declared: Seq<Seq<char>>) -> Seq<char> {
    "FGA guard references path parameter `"@ + param + "`, but no `{"@ + param
        + "}` placeholder appears in the route path `"@ + path + "` (this method's params: "@ + params_list(
        declared,
    ) + ") or the controller's `path = \"...\"` prefix.\nhelp: check the spelling of `from_path(\""@ + param
        + "\")` against the route's `{...}` placeholders"@
}

/// The assertion message for a `from_path` parameter that the route does
/// not declare, with braces doubled for the format string it becomes.
pub fn unknown_param_message(param: &str, path: &str, declared: &Vec<String>) -> (r: String)
    ensures
        r@ == braces_doubled(unknown_param_text(param@, path@, declared@.map_values(|s: String| s@))),
{
    let ghost dv = declared@.map_values(|s: String| s@);
    let mut list: Vec<char> = Vec::new();
    if declared.len() == 0 {
        push_str(&mut list, "none");
        proof {
            reveal_strlit("none");
            assert(dv =~= Seq::<Seq<char>>::empty());
        }
    } else {
        let mut i: usize = 0;
        while i < declared.len()
            invariant
                0 <= i <= declared@.len(),
                declared@.len() > 0,
                dv == declared@.map_values(|s: String| s@),
                i > 0 ==> list@ == params_list(dv.take(i as int)),
                i == 0 ==> list@ == Seq::<char>::empty(),
            decreases declared@.len() - i,
        {
            let ghost l0 = list@;
            if i > 0 {
                push_str(&mut list, ", ");
            }
            push_str(&mut list, "`{");
            push_str(&mut list, declared[i].as_str());
            push_str(&mut list, "}`");
            proof {
                reveal_strlit(", ");
                reveal_strlit("`{");
                reveal_strlit("}`");
                reveal_strlit(", `{");
                assert(dv.take(i + 1).drop_last() =~= dv.take(i as int));
                assert(dv.take(i + 1).last() == dv[i as int]);
                assert(dv[i as int] == declared@[i as int]@);
                if i == 0 {
                    assert(dv.take(1).len() == 1);
                    assert(dv.take(1)[0] == dv[0]);
                    assert(list@ =~= "`{"@ + dv[0] + "}`"@);
                } else {
                    assert(list@ =~= l0 + ", `{"@ + dv[i as int] + "}`"@);
                }
            }
            i = i + 1;
        }
        proof {
            assert(dv.take(i as int) =~= dv);
        }
    }
    let mut m = chars_of("FGA guard references path parameter `");
    push_str(&mut m, param);
    push_str(&mut m, "`, but no `{");
    push_str(&mut m, param);
    push_str(&mut m, "}` placeholder appears in the route path `");
    push_str(&mut m, path);
    push_str(&mut m, "` (this method's params: ");
    let ghost before = m@;
    m.append(&mut list.clone());
    proof {
        assert(m@ == before + params_list(dv));
    }
    push_str(&mut m, ") or the controller's `path = \"...\"` prefix.\nhelp: check the spelling of `from_path(\"");
    push_str(&mut m, param);
    push_str(&mut m, "\")` against the route's `{...}` placeholders");
    proof {
        assert(m@ =~= unknown_param_text(param@, path@, dv));
    }
    string_of(&double_braces(&m))
}

/// The references of a list of guard expressions, in order.
pub open spec fn refs_of(es: Seq<GuardExpr>) -> Seq<Seq<char>>
    decreases es.len(),
{
    if es.len() == 0 {
        Seq::empty()
    } else {
        refs_of(es.drop_last()) + path_refs(es.last())
    }
}

/// The references of a method's guards, then of its pre-authentication guards.
pub fn method_fga_refs(guards: &Vec<GuardExpr>, pre_guards: &Vec<GuardExpr>) -> (r: Vec<String>)
    ensures
        r@.map_values(|s: String| s@) == refs_of(guards@) + refs_of(pre_guards@),
{
    let mut out: Vec<String> = Vec::new();
    append_refs(&mut out, guards);
    proof {
        assert(Seq::<Seq<char>>::empty() + refs_of(guards@) =~= refs_of(guards@));
    }
    append_refs(&mut out, pre_guards);
    out
}

fn append_refs(out: &mut Vec<String>, es: &Vec<GuardExpr>)
    ensures
        final(out)@.map_values(|s: String| s@) == old(out)@.map_values(|s: String| s@) + refs_of(es@),
{
    let ghost o0 = out@.map_values(|s: String| s@);
    let mut i: usize = 0;
    proof {
        assert(es@.take(0) =~= Seq::<GuardExpr>::empty());
        assert(o0 + refs_of(es@.take(0)) =~= o0);
    }
    while i < es.len()
        invariant
            0 <= i <= es@.len(),
            out@.map_values(|s: String| s@) == o0 + refs_of(es@.take(i as int)),
        decreases es@.len() - i,
    {
        proof {
            assert(es@.take(i + 1).drop_last() =~= es@.take(i as int));
            assert(es@.take(i + 1).last() == es@[i as int]);
        }
        let mut found = collect_fga_path_refs(&es[i]);
        let ghost before = out@.map_values(|s: String| s@);
        let ghost fv = found@.map_values(|s: String| s@);
        out.append(&mut found);
        proof {
            assert(out@.map_values(|s: String| s@) =~= before + fv);
            assert(o0 + refs_of(es@.take(i + 1)) =~= o0 + refs_of(es@.take(i as int)) + fv);
        }
        i = i + 1;
    }
    proof {
        assert(es@.take(i as int) =~= es@);
    }
}

/// The position of the first `#[anonymous]` method among the route, SSE
/// and WebSocket methods (in that order), which the one assertion that the
/// controller has a required identity points at.
pub fn first_anonymous(flags: &Vec<bool>) -> (r: Option<usize>)
    ensures
        match r {
            Some(i) => i < flags@.len() && flags@[i as int] && forall|k: int| 0 <= k < i ==> !flags@[k],
            None => forall|k: int| 0 <= k < flags@.len() ==> !flags@[k],
        },
{
    let mut i: usize = 0;
    while i < flags.len()
        invariant
            0 <= i <= flags@.len(),
            forall|k: int| 0 <= k < i ==> !flags@[k],
        decreases flags@.len() - i,
    {
        if flags[i] {
            return Some(i);
        }
        i = i + 1;
    }
    None
}


/// The name of the placeholder that opens at `i`.
pub open spec fn placeholder_name(p: Seq<char>, i: int) -> Seq<char> {
    p.subrange(name_start(p, i), placeholder_end(p, name_start(p, i)))
}

/// No placeholder's name holds a `{` (no nested braces).
pub open spec fn unnested(p: Seq<char>) -> bool {
    forall|i: int, k: int|
        #![trigger p[i], p[k]]
        0 <= i < p.len() && p[i] == '{' && name_start(p, i) <= k < placeholder_end(p, name_start(p, i))
            ==> p[k] != '{'
}

/// The check finds any placeholder, not only the first: a placeholder named
/// `n` is reported only if some `{` of the path opens it, and, where no
/// placeholder's name holds a `{`, every placeholder named `n` is reported,
/// wherever it stands (the second placeholder of
/// `/orgs/{org_id}/docs/{doc_id}` is found).
#[verifier::spinoff_prover]
pub proof fn lemma_has_param_finds_any_placeholder(p: Seq<char>, n: Seq<char>, j: int)
    requires
        0 <= j,
    ensures
        has_param_from(p, n, j) ==> exists|i: int|
            j <= i < p.len() && p[i] == '{' && #[trigger] placeholder_name(p, i) == n,
        unnested(p) ==> ((exists|i: int| j <= i < p.len() && p[i] == '{' && #[trigger] placeholder_name(p, i) == n)
            ==> has_param_from(p, n, j)),
    decreases p.len() - j,
{
    if j < p.len() {
        if p[j] == '{' {
            let s = name_start(p, j);
            let e = placeholder_end(p, s);
            lemma_placeholder_end(p, s);
            assert(e > j);
            if placeholder_name(p, j) != n {
                lemma_has_param_finds_any_placeholder(p, n, e);
                if unnested(p) {
                    assert forall|i: int| j < i < e implies p[i] != '{' by {
                        if i >= s {
                            assert(p[j] == '{');
                            assert(p[i] != '{');
                        } else {
                            assert(i == j + 1 && p[j + 1] == '*');
                        }
                    }
                }
            }
        } else {
            lemma_has_param_finds_any_placeholder(p, n, j + 1);
        }
    }
}

} // verus!
