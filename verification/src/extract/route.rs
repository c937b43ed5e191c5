//! Route-related attribute extraction: verbs and paths, roles, status
//! overrides, `#[transactional]`, `#[sse]`, `#[ws]` and doc comments.

use vstd::prelude::*;

use crate::attrs::{
    find_named, first_named, has_key, key_is, lemma_first_named, named, read_str_arg, read_uint,
    route_verb, str_arg, uint_of, Attr, AttrForm, Lit, MetaArg,
};
use crate::text::{chars_of, copy_chars, is_ws, push_str, string_of, trim, trim_chars};

verus! {

/// An HTTP route verb.
#[derive(Clone, Copy, PartialEq, Eq)]
pub enum HttpMethod {
    Get,
    Post,
    Put,
    Delete,
    Patch,
    Any,
}

/// Determine the default HTTP status code based on the HTTP method:
/// 201 for POST, 204 for DELETE, 200 otherwise.
pub fn default_status_for_method(method: &HttpMethod) -> (r: u16)
    ensures
        r == match *method {
            HttpMethod::Post => 201u16,
            HttpMethod::Delete => 204u16,
            _ => 200u16,
        },
{
    match method {
        HttpMethod::Get => 200,
        HttpMethod::Post => 201,
        HttpMethod::Put => 200,
        HttpMethod::Delete => 204,
        HttpMethod::Patch => 200,
        HttpMethod::Any => 200,
    }
}

/// Whether `s` occurs in `t` starting at `i`.
pub open spec fn occurs_at(t: Seq<char>, s: Seq<char>, i: int) -> bool {
    0 <= i && i + s.len() <= t.len() && t.subrange(i, i + s.len()) == s
}

/// Whether `s` occurs in `t`.
pub open spec fn contains_seq(t: Seq<char>, s: Seq<char>) -> bool {
    exists|i: int| occurs_at(t, s, i)
}

/// Whether a route path contains an axum `{*wildcard}` segment. Such paths
/// are not valid OpenAPI path templates.
pub fn is_wildcard_path(path: &str) -> (r: bool)
    ensures
        r == contains_seq(path@, seq!['{', '*']),
{
    let p = chars_of(path);
    let mut i: usize = 0;
    while p.len() > 1 && i < p.len() - 1
        invariant
            p@ == path@,
            0 <= i,
            p@.len() > 1 ==> i <= p@.len() - 1,
            forall|k: int| 0 <= k < i ==> !occurs_at(p@, seq!['{', '*'], k),
        decreases p@.len() - i,
    {
        if p[i] == '{' && p[i + 1] == '*' {
            assert(p@.subrange(i as int, i + 2) =~= seq!['{', '*']);
            assert(occurs_at(p@, seq!['{', '*'], i as int));
            return true;
        }
        assert(p@.subrange(i as int, i + 2) != seq!['{', '*']) by {
            if p@.subrange(i as int, i + 2) == seq!['{', '*'] {
                assert(p@.subrange(i as int, i + 2)[0] == p@[i as int]);
                assert(p@.subrange(i as int, i + 2)[1] == p@[i + 1]);
            }
        }
        i = i + 1;
    }
    assert forall|k: int| !occurs_at(p@, seq!['{', '*'], k) by {
        if k >= i {
            assert(k + 2 > p@.len());
        }
    }
    false
}

/// The verb a route attribute names.
pub open spec fn verb_of<R>(a: Attr<R>) -> Option<HttpMethod> {
    if named(a, "get"@) {
        Some(HttpMethod::Get)
    } else if named(a, "post"@) {
        Some(HttpMethod::Post)
    } else if named(a, "put"@) {
        Some(HttpMethod::Put)
    } else if named(a, "delete"@) {
        Some(HttpMethod::Delete)
    } else if named(a, "patch"@) {
        Some(HttpMethod::Patch)
    } else {
        None
    }
}

/// The path of a `#[verb("/path")]` / `#[ws("/path")]` argument list: a
/// single string literal.
pub open spec fn route_path_of<R>(a: Attr<R>) -> Result<Seq<char>, Seq<char>> {
    match a.values {
        Err(m) => Err(m@),
        Ok(vs) => if vs@.len() == 1 && vs@[0] is Str {
            Ok(vs@[0]->Str_0@)
        } else {
            Err("expected string literal"@)
        },
    }
}

/// Index of the first route verb attribute.
pub open spec fn first_verb<R>(attrs: Seq<Attr<R>>) -> Option<int>
    decreases attrs.len(),
{
    if attrs.len() == 0 {
        None
    } else if route_verb(attrs[0]) {
        Some(0)
    } else {
        match first_verb(attrs.drop_first()) {
            Some(i) => Some(i + 1),
            None => None,
        }
    }
}

proof fn lemma_first_verb<R>(attrs: Seq<Attr<R>>)
    ensures
        first_verb(attrs) matches Some(i) ==> 0 <= i < attrs.len() && route_verb(attrs[i])
            && forall|k: int| 0 <= k < i ==> !route_verb(#[trigger] attrs[k]),
        first_verb(attrs) is None ==> forall|k: int|
            0 <= k < attrs.len() ==> !route_verb(#[trigger] attrs[k]),
    decreases attrs.len(),
{
    if attrs.len() > 0 {
        lemma_first_verb(attrs.drop_first());
        assert forall|k: int| 1 <= k < attrs.len() implies attrs[k] == attrs.drop_first()[k
            - 1] by {}
    }
}

/// What `extract_route_attr` makes of a method's attributes.
pub open spec fn route_attr_outcome<R>(attrs: Seq<Attr<R>>) -> Result<
    Option<(HttpMethod, Seq<char>)>,
    Seq<char>,
> {
    match first_verb(attrs) {
        None => Ok(None),
        Some(i) => match route_path_of(attrs[i]) {
            Ok(p) => Ok(Some((verb_of(attrs[i])->0, p))),
            Err(e) => Err(e),
        },
    }
}

fn msg(s: &str) -> (r: String)
    ensures
        r@ == s@,
{
    string_of(&chars_of(s))
}

fn read_route_path<R>(a: &Attr<R>) -> (r: Result<String, String>)
    ensures
        match r {
            Ok(p) => route_path_of(*a) == Ok::<Seq<char>, Seq<char>>(p@),
            Err(e) => route_path_of(*a) == Err::<Seq<char>, Seq<char>>(e@),
        },
{
    match &a.values {
        Err(m) => Err(m.clone()),
        Ok(vs) => {
            if vs.len() == 1 {
                if let Lit::Str(p) = &vs[0] {
                    return Ok(p.clone());
                }
            }
            Err(msg("expected string literal"))
        },
    }
}

/// The verb and path of the first route verb attribute.
pub fn extract_route_attr<R>(attrs: &Vec<Attr<R>>) -> (r: Result<Option<(HttpMethod, String)>, String>)
    ensures
        match r {
            Ok(None) => route_attr_outcome(attrs@) == Ok::<
                Option<(HttpMethod, Seq<char>)>,
                Seq<char>,
            >(None),
            Ok(Some((m, p))) => route_attr_outcome(attrs@) == Ok::<
                Option<(HttpMethod, Seq<char>)>,
                Seq<char>,
            >(Some((m, p@))),
            Err(e) => route_attr_outcome(attrs@) == Err::<
                Option<(HttpMethod, Seq<char>)>,
                Seq<char>,
            >(e@),
        },
{
    proof {
        lemma_first_verb(attrs@);
    }
    let mut i: usize = 0;
    while i < attrs.len()
        invariant
            0 <= i <= attrs@.len(),
            forall|k: int| 0 <= k < i ==> !route_verb(#[trigger] attrs@[k]),
            first_verb(attrs@) matches Some(j) ==> 0 <= j < attrs@.len() && route_verb(attrs@[j])
                && forall|k: int| 0 <= k < j ==> !route_verb(#[trigger] attrs@[k]),
            first_verb(attrs@) is None ==> forall|k: int|
                0 <= k < attrs@.len() ==> !route_verb(#[trigger] attrs@[k]),
        decreases attrs@.len() - i,
    {
        let a = &attrs[i];
        let method = if crate::attrs::is_named(a, "get") {
            Some(HttpMethod::Get)
        } else if crate::attrs::is_named(a, "post") {
            Some(HttpMethod::Post)
        } else if crate::attrs::is_named(a, "put") {
            Some(HttpMethod::Put)
        } else if crate::attrs::is_named(a, "delete") {
            Some(HttpMethod::Delete)
        } else if crate::attrs::is_named(a, "patch") {
            Some(HttpMethod::Patch)
        } else {
            None
        };
        if let Some(m) = method {
            assert(first_verb(attrs@) == Some(i as int));
            let p = read_route_path(a)?;
            return Ok(Some((m, p)));
        }
        i = i + 1;
    }
    Ok(None)
}

/// The path of the first `#[ws("/path")]`.
pub open spec fn ws_outcome<R>(attrs: Seq<Attr<R>>) -> Result<Option<Seq<char>>, Seq<char>> {
    match first_named(attrs, "ws"@) {
        None => Ok(None),
        Some(i) => match route_path_of(attrs[i]) {
            Ok(p) => Ok(Some(p)),
            Err(e) => Err(e),
        },
    }
}

/// Extract `#[ws("/path")]`. Returns the path if found.
pub fn extract_ws_attr<R>(attrs: &Vec<Attr<R>>) -> (r: Result<Option<String>, String>)
    ensures
        match r {
            Ok(None) => ws_outcome(attrs@) == Ok::<Option<Seq<char>>, Seq<char>>(None),
            Ok(Some(p)) => ws_outcome(attrs@) == Ok::<Option<Seq<char>>, Seq<char>>(Some(p@)),
            Err(e) => ws_outcome(attrs@) == Err::<Option<Seq<char>>, Seq<char>>(e@),
        },
{
    proof {
        lemma_first_named(attrs@, "ws"@);
    }
    match find_named(attrs, "ws") {
        None => Ok(None),
        Some(i) => {
            let p = read_route_path(&attrs[i])?;
            Ok(Some(p))
        },
    }
}

/// The roles listed by a `#[roles("a", "b")]` argument list.
pub open spec fn roles_of<R>(a: Attr<R>) -> Result<Seq<Seq<char>>, Seq<char>> {
    match a.values {
        Err(m) => Err(m@),
        Ok(vs) => if forall|k: int| 0 <= k < vs@.len() ==> #[trigger] vs@[k] is Str {
            Ok(vs@.map_values(|l: Lit| l->Str_0@))
        } else {
            Err("expected string literal"@)
        },
    }
}

/// The roles of the first `#[roles(...)]`, empty when there is none.
pub open spec fn roles_outcome<R>(attrs: Seq<Attr<R>>) -> Result<Seq<Seq<char>>, Seq<char>> {
    match first_named(attrs, "roles"@) {
        None => Ok(Seq::empty()),
        Some(i) => roles_of(attrs[i]),
    }
}

/// The string views of a list of strings.
pub open spec fn string_views(v: Seq<String>) -> Seq<Seq<char>> {
    v.map_values(|s: String| s@)
}

/// Extract the role names of `#[roles("a", "b", ...)]`.
pub fn extract_roles<R>(attrs: &Vec<Attr<R>>) -> (r: Result<Vec<String>, String>)
    ensures
        match r {
            Ok(v) => roles_outcome(attrs@) == Ok::<Seq<Seq<char>>, Seq<char>>(string_views(v@)),
            Err(e) => roles_outcome(attrs@) == Err::<Seq<Seq<char>>, Seq<char>>(e@),
        },
{
    proof {
        lemma_first_named(attrs@, "roles"@);
    }
    let i = match find_named(attrs, "roles") {
        None => {
            let v: Vec<String> = Vec::new();
            assert(string_views(v@) =~= Seq::<Seq<char>>::empty());
            return Ok(v);
        },
        Some(i) => i,
    };
    let vs = match &attrs[i].values {
        Err(m) => return Err(m.clone()),
        Ok(vs) => vs,
    };
    let mut out: Vec<String> = Vec::new();
    let mut k: usize = 0;
    while k < vs.len()
        invariant
            0 <= k <= vs@.len(),
            i < attrs@.len(),
            first_named(attrs@, "roles"@) == Some(i as int),
            attrs@[i as int].values matches Ok(v) && v@ == vs@,
            out@.len() == k,
            forall|j: int| 0 <= j < k ==> #[trigger] vs@[j] is Str,
            forall|j: int| 0 <= j < k ==> (#[trigger] out@[j])@ == vs@[j]->Str_0@,
        decreases vs@.len() - k,
    {
        match &vs[k] {
            Lit::Str(s) => out.push(s.clone()),
            _ => {
                assert(!(vs@[k as int] is Str));
                return Err(msg("expected string literal"));
            },
        }
        k = k + 1;
    }
    assert(string_views(out@) =~= vs@.map_values(|l: Lit| l->Str_0@));
    Ok(out)
}

/// The code of a `#[status(N)]` argument list.
pub open spec fn status_of<R>(a: Attr<R>) -> Result<int, Seq<char>> {
    match a.values {
        Err(m) => Err(m@),
        Ok(vs) => if vs@.len() == 0 {
            Err("expected integer literal"@)
        } else if vs@.len() > 1 {
            Err("unexpected token"@)
        } else {
            match vs@[0] {
                Lit::Int(d) => uint_of(d@, u16::MAX as int),
                _ => Err("expected integer literal"@),
            }
        },
    }
}

/// The status override of the first `#[status(N)]`.
pub open spec fn status_outcome<R>(attrs: Seq<Attr<R>>) -> Result<Option<int>, Seq<char>> {
    match first_named(attrs, "status"@) {
        None => Ok(None),
        Some(i) => match status_of(attrs[i]) {
            Ok(v) => Ok(Some(v)),
            Err(e) => Err(e),
        },
    }
}

/// Extract `#[status(N)]` — override the default HTTP status code.
pub fn extract_status<R>(attrs: &Vec<Attr<R>>) -> (r: Result<Option<u16>, String>)
    ensures
        match r {
            Ok(None) => status_outcome(attrs@) == Ok::<Option<int>, Seq<char>>(None),
            Ok(Some(c)) => status_outcome(attrs@) == Ok::<Option<int>, Seq<char>>(Some(c as int)),
            Err(e) => status_outcome(attrs@) == Err::<Option<int>, Seq<char>>(e@),
        },
{
    proof {
        lemma_first_named(attrs@, "status"@);
    }
    let i = match find_named(attrs, "status") {
        None => return Ok(None),
        Some(i) => i,
    };
    let vs = match &attrs[i].values {
        Err(m) => return Err(m.clone()),
        Ok(vs) => vs,
    };
    if vs.len() == 0 {
        return Err(msg("expected integer literal"));
    }
    if vs.len() > 1 {
        return Err(msg("unexpected token"));
    }
    match &vs[0] {
        Lit::Int(d) => {
            let v = read_uint(d, 0xffff)?;
            Ok(Some(v as u16))
        },
        _ => Err(msg("expected integer literal")),
    }
}

/// The pool field of `#[transactional]` / `#[transactional(pool = "...")]`.
pub open spec fn pool_args(args: Seq<MetaArg>, cur: Seq<char>) -> Result<Seq<char>, Seq<char>>
    decreases args.len(),
{
    if args.len() == 0 {
        Ok(cur)
    } else if key_is(args[0], "pool"@) {
        match str_arg(args[0]) {
            Ok(v) => pool_args(args.drop_first(), v),
            Err(e) => Err(e),
        }
    } else {
        Err("expected `pool`"@)
    }
}

/// The pool field of the first `#[transactional]`; `pool` by default.
pub open spec fn transactional_outcome<R>(attrs: Seq<Attr<R>>) -> Result<Option<Seq<char>>, Seq<char>> {
    match first_named(attrs, "transactional"@) {
        None => Ok(None),
        Some(i) => if attrs[i].form is List {
            match attrs[i].meta {
                Err(m) => Err(m@),
                Ok(args) => match pool_args(args@, "pool"@) {
                    Ok(p) => Ok(Some(p)),
                    Err(e) => Err(e),
                },
            }
        } else {
            Ok(Some("pool"@))
        },
    }
}

/// Configuration of `#[transactional]`: the field holding the pool.
pub struct TransactionalConfig {
    pub pool_field: String,
}

/// Extract `#[transactional]` / `#[transactional(pool = "...")]`.
pub fn extract_transactional<R>(attrs: &Vec<Attr<R>>) -> (r: Result<Option<TransactionalConfig>, String>)
    ensures
        match r {
            Ok(None) => transactional_outcome(attrs@) == Ok::<Option<Seq<char>>, Seq<char>>(None),
            Ok(Some(c)) => transactional_outcome(attrs@) == Ok::<Option<Seq<char>>, Seq<char>>(
                Some(c.pool_field@),
            ),
            Err(e) => transactional_outcome(attrs@) == Err::<Option<Seq<char>>, Seq<char>>(e@),
        },
{
    proof {
        lemma_first_named(attrs@, "transactional"@);
    }
    let i = match find_named(attrs, "transactional") {
        None => return Ok(None),
        Some(i) => i,
    };
    let mut pool = msg("pool");
    if let AttrForm::List = &attrs[i].form {
        let args = match &attrs[i].meta {
            Err(m) => return Err(m.clone()),
            Ok(args) => args,
        };
        let mut k: usize = 0;
        assert(args@.skip(0) =~= args@);
        while k < args.len()
            invariant
                0 <= k <= args@.len(),
                i < attrs@.len(),
                first_named(attrs@, "transactional"@) == Some(i as int),
                attrs@[i as int].form is List,
                attrs@[i as int].meta matches Ok(v) && v@ == args@,
                pool_args(args@, "pool"@) == pool_args(args@.skip(k as int), pool@),
            decreases args@.len() - k,
        {
            let a = &args[k];
            assert(args@.skip(k as int)[0] == *a);
            assert(args@.skip(k as int).drop_first() =~= args@.skip(k + 1));
            if has_key(a, "pool") {
                pool = read_str_arg(a)?;
            } else {
                return Err(msg("expected `pool`"));
            }
            k = k + 1;
        }
    }
    Ok(Some(TransactionalConfig { pool_field: pool }))
}

/// The keep-alive setting of an SSE route.
#[derive(Clone, Copy, PartialEq, Eq)]
pub enum SseKeepAlive {
    Default,
    Disabled,
    Interval(u64),
}

/// Applies the `keep_alive = ...` arguments after the path.
pub open spec fn sse_options(vs: Seq<Lit>, ka: SseKeepAlive) -> Result<SseKeepAlive, Seq<char>>
    decreases vs.len(),
{
    if vs.len() == 0 {
        Ok(ka)
    } else {
        match vs[0] {
            Lit::Assign(left, right) => if left@ == "keep_alive"@ {
                match *right {
                    Lit::Bool(b) => sse_options(
                        vs.drop_first(),
                        if !b {
                            SseKeepAlive::Disabled
                        } else {
                            ka
                        },
                    ),
                    Lit::Int(d) => match uint_of(d@, u64::MAX as int) {
                        Ok(n) => sse_options(vs.drop_first(), SseKeepAlive::Interval(n as u64)),
                        Err(e) => Err(e),
                    },
                    _ => Err("keep_alive must be a bool or integer"@),
                }
            } else {
                Err("unexpected argument in #[sse]"@)
            },
            _ => Err("unexpected argument in #[sse]"@),
        }
    }
}

/// The path and keep-alive of the first `#[sse("/path", keep_alive = ...)]`.
pub open spec fn sse_outcome<R>(attrs: Seq<Attr<R>>) -> Result<Option<(Seq<char>, SseKeepAlive)>, Seq<char>> {
    match first_named(attrs, "sse"@) {
        None => Ok(None),
        Some(i) => match attrs[i].values {
            Err(m) => Err(m@),
            Ok(vs) => if vs@.len() > 0 && vs@[0] is Str {
                match sse_options(vs@.drop_first(), SseKeepAlive::Default) {
                    Ok(ka) => Ok(Some((vs@[0]->Str_0@, ka))),
                    Err(e) => Err(e),
                }
            } else {
                Err("#[sse] requires a path string as first argument"@)
            },
        },
    }
}

/// Extract `#[sse("/path")]` or `#[sse("/path", keep_alive = ...)]`.
pub fn extract_sse_attr<R>(attrs: &Vec<Attr<R>>) -> (r: Result<Option<(String, SseKeepAlive)>, String>)
    ensures
        match r {
            Ok(None) => sse_outcome(attrs@) == Ok::<Option<(Seq<char>, SseKeepAlive)>, Seq<char>>(None),
            Ok(Some((p, ka))) => sse_outcome(attrs@) == Ok::<
                Option<(Seq<char>, SseKeepAlive)>,
                Seq<char>,
            >(Some((p@, ka))),
            Err(e) => sse_outcome(attrs@) == Err::<Option<(Seq<char>, SseKeepAlive)>, Seq<char>>(e@),
        },
{
    proof {
        lemma_first_named(attrs@, "sse"@);
    }
    let i = match find_named(attrs, "sse") {
        None => return Ok(None),
        Some(i) => i,
    };
    let vs = match &attrs[i].values {
        Err(m) => return Err(m.clone()),
        Ok(vs) => vs,
    };
    let path = if vs.len() > 0 {
        match &vs[0] {
            Lit::Str(p) => p.clone(),
            _ => return Err(msg("#[sse] requires a path string as first argument")),
        }
    } else {
        return Err(msg("#[sse] requires a path string as first argument"));
    };
    let mut ka = SseKeepAlive::Default;
    let mut k: usize = 1;
    assert(vs@.drop_first().skip(0) =~= vs@.skip(1));
    while k < vs.len()
        invariant
            1 <= k <= vs@.len(),
            vs@[0] is Str,
            path@ == vs@[0]->Str_0@,
            i < attrs@.len(),
            first_named(attrs@, "sse"@) == Some(i as int),
            attrs@[i as int].values matches Ok(v) && v@ == vs@,
            sse_options(vs@.drop_first(), SseKeepAlive::Default) == sse_options(vs@.skip(k as int), ka),
        decreases vs@.len() - k,
    {
        assert(vs@.skip(k as int)[0] == vs@[k as int]);
        assert(vs@.skip(k as int).drop_first() =~= vs@.skip(k + 1));
        match &vs[k] {
            Lit::Assign(left, right) => {
                if crate::text::str_is(left.as_str(), "keep_alive") {
                    match &**right {
                        Lit::Bool(b) => {
                            if !*b {
                                ka = SseKeepAlive::Disabled;
                            }
                        },
                        Lit::Int(d) => {
                            let n = read_uint(d, u64::MAX)?;
                            ka = SseKeepAlive::Interval(n);
                        },
                        _ => return Err(msg("keep_alive must be a bool or integer")),
                    }
                } else {
                    return Err(msg("unexpected argument in #[sse]"));
                }
            },
            _ => return Err(msg("unexpected argument in #[sse]")),
        }
        k = k + 1;
    }
    Ok(Some((path, ka)))
}

} // verus!
