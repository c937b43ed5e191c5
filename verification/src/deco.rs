//! Decorator sets: the spec type each `#[guard(...)]` / `#[intercept(...)]`
//! expression is built through, and the names of the hidden set that holds
//! one method's built decorators.

use vstd::prelude::*;

use crate::naming::{is_upper, is_upper_ch, lower_str, lower_text};
use crate::text::{chars_of, decimal, decimal_chars, push_str, string_of};
use crate::types::Seg;

verus! {

/// A path as written in a decorator expression.
pub struct DecoPath {
    pub leading_colon: bool,
    pub segments: Vec<Seg>,
}

/// The shape of a decorator expression, as far as the spec type depends on it.
pub enum DecoExpr {
    /// `left = right`; `left` is the path on the left where it is one.
    Assign { left: Option<DecoPath> },
    /// `receiver.method(...)`.
    MethodCall { receiver: Box<DecoExpr> },
    /// A path: `MyGuard`.
    Path(DecoPath),
    /// A struct literal `RolesGuard { .. }`, by its path.
    Struct(DecoPath),
    /// A call `f(...)`; `func` is the callee's path where it is one.
    Call { func: Option<DecoPath> },
    /// Any other expression.
    Other,
}

/// The spec type of a decorator site: `path`, without its last segment
/// where `drop_last`; the value it is built from is the right of `=` where
/// `value_is_right`, else the whole expression.
pub struct SpecType<'a> {
    pub path: &'a DecoPath,
    pub drop_last: bool,
    pub value_is_right: bool,
}

/// Where a refusal points.
#[derive(PartialEq, Eq, Structural, Clone, Copy, Debug)]
pub enum SpecSite {
    /// The left of `=`.
    AssignLeft,
    /// The whole expression.
    Expr,
}

pub open spec fn assign_left_msg() -> Seq<char> {
    "expected a type path left of `=` (e.g. `#[guard(MyGuard = make_guard())]`)"@
}

pub open spec fn spec_not_inferable_msg() -> Seq<char> {
    "cannot infer the decorator spec type from this expression; name it explicitly: `#[guard(MyGuard = <expr>)]` / `#[intercept(MyInterceptor = <expr>)]`"@
}

/// The base of a builder chain: the receiver of the innermost method call.
pub open spec fn chain_base(e: DecoExpr) -> DecoExpr
    decreases e,
{
    match e {
        DecoExpr::MethodCall { receiver } => chain_base(*receiver),
        _ => e,
    }
}

/// The spec path of a chain's base, as (path, drop the last segment).
pub open spec fn base_path(b: DecoExpr) -> Option<(DecoPath, bool)> {
    match b {
        DecoExpr::Path(p) => Some((p, false)),
        DecoExpr::Struct(p) => Some((p, false)),
        DecoExpr::Call { func: Some(p) } => Some((p, p.segments@.len() >= 2)),
        _ => None,
    }
}

/// The identifier of the path's last segment, once the last is dropped
/// where `drop_last`.
pub open spec fn last_ident_of(p: DecoPath, drop_last: bool) -> Option<Seq<char>> {
    let n = if drop_last {
        p.segments@.len() - 1
    } else {
        p.segments@.len() as int
    };
    if n <= 0 {
        None
    } else {
        Some(p.segments@[n - 1].ident@)
    }
}

/// Whether the spec path names a type: its last segment starts with an
/// uppercase letter.
pub open spec fn names_type(p: DecoPath, drop_last: bool) -> bool {
    last_ident_of(p, drop_last) matches Some(id) && id.len() > 0 && is_upper_ch(id[0])
}

/// The spec type of a decorator expression, as (path, drop last segment,
/// value is the right of `=`), or where and why it is refused.
pub open spec fn spec_type(e: DecoExpr) -> Result<(DecoPath, bool, bool), (SpecSite, Seq<char>)> {
    match e {
        DecoExpr::Assign { left } => match left {
            Some(p) => Ok((p, false, true)),
            None => Err((SpecSite::AssignLeft, assign_left_msg())),
        },
        _ => match base_path(chain_base(e)) {
            Some((p, d)) => if names_type(p, d) {
                Ok((p, d, false))
            } else {
                Err((SpecSite::Expr, spec_not_inferable_msg()))
            },
            None => Err((SpecSite::Expr, spec_not_inferable_msg())),
        },
    }
}

fn msg(s: &str) -> (r: String)
    ensures
        r@ == s@,
{
    string_of(&chars_of(s))
}

fn chain_base_of(e: &DecoExpr) -> (r: &DecoExpr)
    ensures
        *r == chain_base(*e),
    decreases *e,
{
    match e {
        DecoExpr::MethodCall { receiver } => chain_base_of(receiver),
        _ => e,
    }
}

/// Whether the spec path names a type.
fn starts_uppercase(p: &DecoPath, drop_last: bool) -> (r: bool)
    ensures
        r == names_type(*p, drop_last),
{
    let n = if drop_last {
        if p.segments.len() == 0 {
            return false;
        }
        p.segments.len() - 1
    } else {
        p.segments.len()
    };
    if n == 0 {
        return false;
    }
    let id = chars_of(p.segments[n - 1].ident.as_str());
    id.len() > 0 && is_upper(id[0])
}

/// The spec type of a decorator expression.
pub fn spec_type_of(e: &DecoExpr) -> (r: Result<SpecType<'_>, (SpecSite, String)>)
    ensures
        match r {
            Ok(s) => spec_type(*e) == Ok::<(DecoPath, bool, bool), (SpecSite, Seq<char>)>(
                (*s.path, s.drop_last, s.value_is_right),
            ),
            Err((site, m)) => spec_type(*e) == Err::<(DecoPath, bool, bool), (SpecSite, Seq<char>)>((site, m@)),
        },
{
    if let DecoExpr::Assign { left } = e {
        return match left {
            Some(p) => Ok(SpecType { path: p, drop_last: false, value_is_right: true }),
            None => Err(
                (
                    SpecSite::AssignLeft,
                    msg("expected a type path left of `=` (e.g. `#[guard(MyGuard = make_guard())]`)"),
                ),
            ),
        };
    }
    let base = chain_base_of(e);
    let found: Option<(&DecoPath, bool)> = match base {
        DecoExpr::Path(p) => Some((p, false)),
        DecoExpr::Struct(p) => Some((p, false)),
        DecoExpr::Call { func: Some(p) } => Some((p, p.segments.len() >= 2)),
        _ => None,
    };
    match found {
        Some((p, d)) => {
            if starts_uppercase(p, d) {
                return Ok(SpecType { path: p, drop_last: d, value_is_right: false });
            }
        },
        None => {},
    }
    Err(
        (
            SpecSite::Expr,
            msg(
                "cannot infer the decorator spec type from this expression; name it explicitly: `#[guard(MyGuard = <expr>)]` / `#[intercept(MyInterceptor = <expr>)]`",
            ),
        ),
    )
}

/// Whether every expression's spec type can be inferred.
pub fn all_specs_inferable(exprs: &Vec<DecoExpr>) -> (r: bool)
    ensures
        r == forall|k: int| 0 <= k < exprs@.len() ==> (#[trigger] spec_type(exprs@[k])) is Ok,
{
    let mut i: usize = 0;
    while i < exprs.len()
        invariant
            0 <= i <= exprs@.len(),
            forall|k: int| 0 <= k < i ==> (#[trigger] spec_type(exprs@[k])) is Ok,
        decreases exprs@.len() - i,
    {
        if spec_type_of(&exprs[i]).is_err() {
            return false;
        }
        i = i + 1;
    }
    true
}

// ── decorator sets ──────────────────────────────────────────────────────

/// The names of one method's decorator set: the hidden struct, its
/// constructor, and a field per guard site (`__g<i>`) and per interceptor
/// site (`__i<i>`), each in site order.
pub struct DecoSetNames {
    pub struct_ident: String,
    pub ctor_ident: String,
    pub guard_fields: Vec<String>,
    pub intercept_fields: Vec<String>,
}

/// `prefix` followed by the decimal digits of `i`.
pub open spec fn numbered(prefix: Seq<char>, i: nat) -> Seq<char> {
    prefix + decimal(i)
}

/// The names of the decorator set of method `f` of `owner`, for the set
/// kind `kind`: `__R2e<kind>_<owner>_<f>` and `__r2e_<lowercase kind>_<owner>_<f>`.
pub open spec fn set_names_ok(n: DecoSetNames, owner: Seq<char>, kind: Seq<char>, f: Seq<char>, guards: nat, intercepts: nat) -> bool {
    &&& n.struct_ident@ == "__R2e"@ + kind + "_"@ + owner + "_"@ + f
    &&& n.ctor_ident@ == "__r2e_"@ + lower_text(kind) + "_"@ + owner + "_"@ + f
    &&& n.guard_fields@.len() == guards
    &&& forall|i: int| 0 <= i < guards ==> (#[trigger] n.guard_fields@[i])@ == numbered("__g"@, i as nat)
    &&& n.intercept_fields@.len() == intercepts
    &&& forall|i: int| 0 <= i < intercepts ==> (#[trigger] n.intercept_fields@[i])@ == numbered("__i"@, i as nat)
}

/// `prefix<i>` for `i` in `0..n`.
fn numbered_names(prefix: &str, n: usize) -> (r: Vec<String>)
    ensures
        r@.len() == n,
        forall|i: int| 0 <= i < n ==> (#[trigger] r@[i])@ == numbered(prefix@, i as nat),
{
    let mut out: Vec<String> = Vec::new();
    let mut i: usize = 0;
    while i < n
        invariant
            0 <= i <= n,
            out@.len() == i,
            forall|k: int| 0 <= k < i ==> (#[trigger] out@[k])@ == numbered(prefix@, k as nat),
        decreases n - i,
    {
        let mut v = chars_of(prefix);
        let d = decimal_chars(i);
        let ghost v0 = v@;
        let mut j: usize = 0;
        while j < d.len()
            invariant
                0 <= j <= d@.len(),
                v@ == v0 + d@.take(j as int),
            decreases d@.len() - j,
        {
            v.push(d[j]);
            proof {
                assert(d@.take(j + 1) =~= d@.take(j as int).push(d@[j as int]));
            }
            j = j + 1;
        }
        proof {
            assert(d@.take(j as int) =~= d@);
        }
        out.push(string_of(&v));
        i = i + 1;
    }
    out
}

/// The decorator set of method `f` of `owner`, of kind `kind`, with its
/// guard and interceptor sites: `None` where it has none; else the set's
/// names, once every site's spec type is inferred; otherwise the refusal
/// of the first site that cannot be (guards first).
pub fn deco_set(owner: &str, kind: &str, f: &str, guards: &Vec<DecoExpr>, intercepts: &Vec<DecoExpr>) -> (r: Result<
    Option<DecoSetNames>,
    (SpecSite, String),
>)
    ensures
        (guards@.len() == 0 && intercepts@.len() == 0) ==> r matches Ok(None),
        r matches Ok(Some(n)) ==> set_names_ok(n, owner@, kind@, f@, guards@.len(), intercepts@.len()) && (
        forall|k: int| 0 <= k < guards@.len() ==> (#[trigger] spec_type(guards@[k])) is Ok) && (forall|k: int|
            0 <= k < intercepts@.len() ==> (#[trigger] spec_type(intercepts@[k])) is Ok),
        r matches Err((site, m)) ==> {
            ||| exists|k: int|
                0 <= k < guards@.len() && (forall|j: int| 0 <= j < k ==> (#[trigger] spec_type(guards@[j])) is Ok)
                    && spec_type(guards@[k]) == Err::<(DecoPath, bool, bool), (SpecSite, Seq<char>)>((site, m@))
            ||| (forall|j: int| 0 <= j < guards@.len() ==> (#[trigger] spec_type(guards@[j])) is Ok) && exists|
                k: int,
            |
                0 <= k < intercepts@.len() && (forall|j: int|
                    0 <= j < k ==> (#[trigger] spec_type(intercepts@[j])) is Ok) && spec_type(intercepts@[k])
                    == Err::<(DecoPath, bool, bool), (SpecSite, Seq<char>)>((site, m@))
        },
        (guards@.len() > 0 || intercepts@.len() > 0) ==> (r is Ok <==> (forall|k: int|
            0 <= k < guards@.len() ==> (#[trigger] spec_type(guards@[k])) is Ok) && (forall|k: int|
            0 <= k < intercepts@.len() ==> (#[trigger] spec_type(intercepts@[k])) is Ok)),
{
    if guards.len() == 0 && intercepts.len() == 0 {
        return Ok(None);
    }
    let mut i: usize = 0;
    while i < guards.len()
        invariant
            0 <= i <= guards@.len(),
            forall|k: int| 0 <= k < i ==> (#[trigger] spec_type(guards@[k])) is Ok,
        decreases guards@.len() - i,
    {
        match spec_type_of(&guards[i]) {
            Err(e) => return Err(e),
            Ok(_) => {},
        }
        i = i + 1;
    }
    let mut j: usize = 0;
    while j < intercepts.len()
        invariant
            0 <= j <= intercepts@.len(),
            forall|k: int| 0 <= k < guards@.len() ==> (#[trigger] spec_type(guards@[k])) is Ok,
            forall|k: int| 0 <= k < j ==> (#[trigger] spec_type(intercepts@[k])) is Ok,
        decreases intercepts@.len() - j,
    {
        match spec_type_of(&intercepts[j]) {
            Err(e) => return Err(e),
            Ok(_) => {},
        }
        j = j + 1;
    }
    let mut s = chars_of("__R2e");
    push_str(&mut s, kind);
    push_str(&mut s, "_");
    push_str(&mut s, owner);
    push_str(&mut s, "_");
    push_str(&mut s, f);
    let lk = lower_str(kind);
    let mut c = chars_of("__r2e_");
    push_str(&mut c, lk.as_str());
    push_str(&mut c, "_");
    push_str(&mut c, owner);
    push_str(&mut c, "_");
    push_str(&mut c, f);
    Ok(
        Some(
            DecoSetNames {
                struct_ident: string_of(&s),
                ctor_ident: string_of(&c),
                guard_fields: numbered_names("__g", guards.len()),
                intercept_fields: numbered_names("__i", intercepts.len()),
            },
        ),
    )
}

} // verus!
