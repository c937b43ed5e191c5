//! Path parameters of route handlers: the `{name}` placeholders of a route
//! path, the names a `Path<...>` extractor binds, and the typed symbols the
//! generated `path` module declares for them.

use vstd::prelude::*;

use crate::sig::{FnInput, Pat, Sig};
use crate::text::{chars_of, copy_chars, is_ws, slice_chars, string_of, trim, trim_chars};
use crate::types::{
    flatten_path_inner_types, is_wrapper_type, last_is, path_inner_types, path_wrapper_inner,
    path_wrapper_inner_type, pointees, Ty,
};

verus! {

/// Index of the first `c` in `s`.
pub open spec fn index_of(s: Seq<char>, c: char) -> Option<int>
    decreases s.len(),
{
    if s.len() == 0 {
        None
    } else if s[0] == c {
        Some(0)
    } else {
        match index_of(s.drop_first(), c) {
            Some(i) => Some(i + 1),
            None => None,
        }
    }
}

pub proof fn lemma_index_of(s: Seq<char>, c: char)
    ensures
        index_of(s, c) matches Some(i) ==> 0 <= i < s.len() && s[i] == c && forall|k: int|
            0 <= k < i ==> s[k] != c,
        index_of(s, c) is None ==> forall|k: int| 0 <= k < s.len() ==> s[k] != c,
    decreases s.len(),
{
    if s.len() > 0 {
        lemma_index_of(s.drop_first(), c);
        assert forall|k: int| 1 <= k < s.len() implies s[k] == s.drop_first()[k - 1] by {}
    }
}

fn find_char(s: &Vec<char>, from: usize, c: char) -> (r: Option<usize>)
    requires
        from <= s@.len(),
    ensures
        match r {
            Some(j) => from <= j < s@.len() && index_of(s@.skip(from as int), c) == Some(
                j - from,
            ),
            None => index_of(s@.skip(from as int), c) is None,
        },
{
    proof {
        lemma_index_of(s@.skip(from as int), c);
    }
    let mut j = from;
    while j < s.len()
        invariant
            from <= j <= s@.len(),
            forall|k: int| from <= k < j ==> s@[k] != c,
        decreases s@.len() - j,
    {
        if s[j] == c {
            proof {
                let t = s@.skip(from as int);
                lemma_index_of(t, c);
                match index_of(t, c) {
                    Some(i) => {
                        if i < j - from {
                            assert(t[i] == s@[from + i]);
                        }
                        if i > j - from {
                            assert(t[j - from] == c);
                        }
                    },
                    None => {
                        assert(t[j - from] == s@[j as int]);
                    },
                }
            }
            return Some(j);
        }
        j = j + 1;
    }
    proof {
        let t = s@.skip(from as int);
        lemma_index_of(t, c);
        if let Some(i) = index_of(t, c) {
            assert(t[i] == s@[from + i]);
        }
    }
    None
}

/// `s` up to its first `:` (all of `s` when there is none).
pub open spec fn before_colon(s: Seq<char>) -> Seq<char> {
    match index_of(s, ':') {
        Some(i) => s.take(i),
        None => s,
    }
}

/// `s` without its leading `*` characters.
pub open spec fn strip_stars(s: Seq<char>) -> Seq<char>
    decreases s.len(),
{
    if s.len() > 0 && s[0] == '*' {
        strip_stars(s.drop_first())
    } else {
        s
    }
}

/// The parameter names of the `{name}` / `{name:regex}` / `{*rest}`
/// placeholders of `s`, in order; reading stops at an unclosed `{`.
pub open spec fn param_names(s: Seq<char>) -> Seq<Seq<char>>
    decreases s.len(),
{
    match index_of(s, '{') {
        None => Seq::empty(),
        Some(o) => {
            let after = s.skip(o + 1);
            match index_of(after, '}') {
                None => Seq::empty(),
                Some(c) => {
                    proof {
                        lemma_index_of(s, '{');
                        lemma_index_of(after, '}');
                    }
                    let name = strip_stars(trim(before_colon(after.take(c))));
                    let tail = param_names(after.skip(c + 1));
                    if name.len() > 0 {
                        seq![name] + tail
                    } else {
                        tail
                    }
                },
            }
        },
    }
}

fn strip_leading_stars(s: &Vec<char>) -> (r: Vec<char>)
    ensures
        r@ == strip_stars(s@),
{
    let mut i: usize = 0;
    assert(s@.skip(0) =~= s@);
    while i < s.len() && s[i] == '*'
        invariant
            0 <= i <= s@.len(),
            strip_stars(s@) == strip_stars(s@.skip(i as int)),
        decreases s@.len() - i,
    {
        assert(s@.skip(i as int)[0] == s@[i as int]);
        assert(s@.skip(i as int).drop_first() =~= s@.skip(i + 1));
        i = i + 1;
    }
    let r = slice_chars(s, i, s.len());
    assert(r@ =~= s@.skip(i as int));
    r
}

/// Extract `{name}` parameters from an Axum-style route path.
pub fn extract_route_path_param_names(path: &str) -> (r: Vec<String>)
    ensures
        r@.map_values(|n: String| n@) == param_names(path@),
{
    let p = chars_of(path);
    let mut names: Vec<String> = Vec::new();
    let mut pos: usize = 0;
    let plen = p.len();
    assert(p@.skip(0) =~= p@);
    loop
        invariant
            plen == p@.len(),
            0 <= pos <= p@.len(),
            p@ == path@,
            param_names(path@) == names@.map_values(|n: String| n@) + param_names(
                p@.skip(pos as int),
            ),
        decreases p@.len() - pos,
    {
        let ghost rest = p@.skip(pos as int);
        proof {
            lemma_index_of(rest, '{');
        }
        let open = match find_char(&p, pos, '{') {
            None => {
                assert(param_names(rest) =~= Seq::<Seq<char>>::empty());
                assert(names@.map_values(|n: String| n@) + Seq::<Seq<char>>::empty() =~= names@.map_values(
                    |n: String| n@,
                ));
                return names;
            },
            Some(o) => o,
        };
        assert(open < plen);
        let ghost after = rest.skip(open + 1 - pos);
        assert(after =~= p@.skip(open + 1));
        let close = match find_char(&p, open + 1, '}') {
            None => {
                assert(param_names(rest) =~= Seq::<Seq<char>>::empty());
                assert(names@.map_values(|n: String| n@) + Seq::<Seq<char>>::empty() =~= names@.map_values(
                    |n: String| n@,
                ));
                return names;
            },
            Some(c) => c,
        };
        let raw = slice_chars(&p, open + 1, close);
        assert(raw@ =~= after.take(close - (open + 1)));
        let colon = find_char(&raw, 0, ':');
        assert(raw@.skip(0) =~= raw@);
        let head = match colon {
            Some(c) => slice_chars(&raw, 0, c),
            None => copy_chars(&raw),
        };
        assert(head@ =~= before_colon(raw@));
        let trimmed = trim_chars(&head);
        let name = strip_leading_stars(&trimmed);
        let ghost tail_from = close + 1;
        assert(after.skip(close - open) =~= p@.skip(close + 1));
        let ghost before = names@;
        if name.len() > 0 {
            names.push(string_of(&name));
            assert(names@.map_values(|n: String| n@) =~= before.map_values(|n: String| n@).push(
                name@,
            ));
        }
        assert(param_names(rest) == (if name@.len() > 0 {
            seq![name@] + param_names(p@.skip(close + 1))
        } else {
            param_names(p@.skip(close + 1))
        }));
        pos = close + 1;
        assert(param_names(path@) =~= names@.map_values(|n: String| n@) + param_names(
            p@.skip(pos as int),
        ));
    }
}

/// The names a parameter pattern binds: identifiers in order, `_` skipped,
/// one leading underscore removed from `_name`.
pub open spec fn pat_names(p: Pat) -> Seq<Seq<char>>
    decreases p, 1int,
{
    match p {
        Pat::Ident(n) => if n@ == seq!['_'] {
            Seq::empty()
        } else if n@.len() > 1 && n@[0] == '_' {
            seq![n@.drop_first()]
        } else {
            seq![n@]
        },
        Pat::Tuple(ps) => pats_names(ps@),
        Pat::TupleStruct(ps) => pats_names(ps@),
        Pat::Other => Seq::empty(),
    }
}

/// The names bound by the patterns `ps`, in order.
pub open spec fn pats_names(ps: Seq<Pat>) -> Seq<Seq<char>>
    decreases ps, 0int,
{
    if ps.len() == 0 {
        Seq::empty()
    } else {
        pats_names(ps.drop_last()) + pat_names(ps[ps.len() - 1])
    }
}

/// The character views of a list of strings.
pub open spec fn name_list(v: Seq<String>) -> Seq<Seq<char>> {
    v.map_values(|n: String| n@)
}

proof fn lemma_name_list_push(v: Seq<String>, x: String)
    ensures
        name_list(v.push(x)) == name_list(v).push(x@),
{
    assert(name_list(v.push(x)) =~= name_list(v).push(x@));
}

/// Appends the names bound by `pat` to `out`.
pub fn collect_pat_idents(pat: &Pat, out: &mut Vec<String>)
    ensures
        name_list(final(out)@) == name_list(old(out)@) + pat_names(*pat),
    decreases *pat,
{
    match pat {
        Pat::Ident(n) => {
            let c = chars_of(n.as_str());
            let ghost before = out@;
            if c.len() == 1 && c[0] == '_' {
                assert(n@ =~= seq!['_']);
                assert(name_list(out@) + pat_names(*pat) =~= name_list(out@));
                return;
            }
            if c.len() > 1 && c[0] == '_' {
                let stripped = slice_chars(&c, 1, c.len());
                assert(stripped@ =~= n@.drop_first());
                assert(n@ != seq!['_']);
                out.push(string_of(&stripped));
            } else {
                assert(n@ != seq!['_']) by {
                    if n@ == seq!['_'] {
                        assert(c@.len() == 1);
                    }
                }
                out.push(n.clone());
            }
            proof {
                lemma_name_list_push(before, out@.last());
                assert(name_list(out@) =~= name_list(before) + pat_names(*pat));
            }
        },
        Pat::Tuple(ps) | Pat::TupleStruct(ps) => {
            let ghost start = name_list(out@);
            let mut i: usize = 0;
            while i < ps.len()
                invariant
                    0 <= i <= ps@.len(),
                    *pat == Pat::Tuple(*ps) || *pat == Pat::TupleStruct(*ps),
                    name_list(out@) == start + pats_names(ps@.take(i as int)),
                decreases ps@.len() - i,
            {
                proof {
                    if *pat == Pat::Tuple(*ps) {
                        assert(decreases_to!(*pat => pat->Tuple_0));
                    } else {
                        assert(decreases_to!(*pat => pat->TupleStruct_0));
                    }
                    assert(decreases_to!(*ps => ps@));
                    assert(decreases_to!(ps@ => ps@[i as int]));
                }
                collect_pat_idents(&ps[i], out);
                assert(ps@.take(i + 1).drop_last() =~= ps@.take(i as int));
                assert(ps@.take(i + 1)[i as int] == ps@[i as int]);
                i = i + 1;
            }
            assert(ps@.take(ps@.len() as int) =~= ps@);
        },
        Pat::Other => {
            assert(name_list(out@) + pat_names(*pat) =~= name_list(out@));
        },
    }
}

/// The first typed parameter whose type is `Path<...>`: the names its
/// pattern binds and the element types of the extracted type.
pub open spec fn path_extractor(inputs: Seq<FnInput>) -> Option<(Seq<Seq<char>>, Seq<Ty>)>
    decreases inputs.len(),
{
    if inputs.len() == 0 {
        None
    } else {
        match inputs[0] {
            FnInput::Typed { pat, ty, .. } => match path_wrapper_inner(ty) {
                Some(inner) => Some((pat_names(pat), path_inner_types(inner))),
                None => path_extractor(inputs.drop_first()),
            },
            _ => path_extractor(inputs.drop_first()),
        }
    }
}

/// The bound names and element types of a signature's `Path<...>` extractor.
pub fn path_extractor_info(sig: &Sig) -> (r: Option<(Vec<String>, Vec<&Ty>)>)
    ensures
        match r {
            Some((ns, ts)) => path_extractor(sig.inputs@) == Some(
                (name_list(ns@), pointees(ts@)),
            ),
            None => path_extractor(sig.inputs@) is None,
        },
{
    let inputs = &sig.inputs;
    let mut i: usize = 0;
    assert(inputs@.skip(0) =~= inputs@);
    while i < inputs.len()
        invariant
            0 <= i <= inputs@.len(),
            inputs@ == sig.inputs@,
            path_extractor(inputs@) == path_extractor(inputs@.skip(i as int)),
        decreases inputs@.len() - i,
    {
        assert(inputs@.skip(i as int)[0] == inputs@[i as int]);
        assert(inputs@.skip(i as int).drop_first() =~= inputs@.skip(i + 1));
        if let FnInput::Typed { pat, ty, .. } = &inputs[i] {
            if let Some(inner) = path_wrapper_inner_type(ty) {
                let mut names: Vec<String> = Vec::new();
                collect_pat_idents(pat, &mut names);
                assert(name_list(names@) =~= pat_names(*pat)) by {
                    assert(name_list(Seq::<String>::empty()) =~= Seq::<Seq<char>>::empty());
                }
                let types = flatten_path_inner_types(inner);
                assert(path_extractor(inputs@.skip(i as int)) == Some(
                    (pat_names(*pat), path_inner_types(*inner)),
                ));
                return Some((names, types));
            }
        }
        i = i + 1;
    }
    None
}

/// Whether `syn` reads `s` as an identifier.
pub uninterp spec fn ident_parses(s: Seq<char>) -> bool;

/// `syn::parse_str::<syn::Ident>`: whether the text is one identifier
/// (keywords refused). The answer depends on the text alone; nothing more
/// is stated of it.
#[verifier::external_body]
fn parses_as_ident(s: &str) -> (r: bool)
    ensures
        r == ident_parses(s@),
{
    syn::parse_str::<syn::Ident>(s).is_ok()
}

/// `ordered` extended with the names of `route` it does not already hold, in
/// `route`'s order.
pub open spec fn with_missing(ordered: Seq<Seq<char>>, route: Seq<Seq<char>>) -> Seq<Seq<char>>
    decreases route.len(),
{
    if route.len() == 0 {
        ordered
    } else {
        let next = if ordered.contains(route[0]) {
            ordered
        } else {
            ordered.push(route[0])
        };
        with_missing(next, route.drop_first())
    }
}

/// The path symbols for names `ordered` from index `i` on: the first
/// occurrence of each name that reads as an identifier, with the extractor's
/// element type at the same index (`None` for the `()` fallback).
pub open spec fn symbols_from(ordered: Seq<Seq<char>>, types: Seq<Ty>, i: int) -> Seq<
    (Seq<char>, Option<Ty>),
>
    decreases ordered.len() - i,
{
    if i >= ordered.len() || i < 0 {
        Seq::empty()
    } else {
        let n = ordered[i];
        let rest = symbols_from(ordered, types, i + 1);
        if ordered.take(i).contains(n) || !ident_parses(n) {
            rest
        } else {
            seq![(n, if i < types.len() { Some(types[i]) } else { None })] + rest
        }
    }
}

/// The symbols the generated `path` module declares for a route.
pub open spec fn path_symbols(path: Seq<char>, inputs: Seq<FnInput>) -> Seq<(Seq<char>, Option<Ty>)> {
    let route = param_names(path);
    let (pn, pt) = match path_extractor(inputs) {
        Some(x) => x,
        None => (Seq::empty(), Seq::empty()),
    };
    let ordered = with_missing(if pn.len() == 0 { route } else { pn }, route);
    symbols_from(ordered, pt, 0)
}

/// A typed path-parameter symbol: the name and the element type (`None`
/// where the generated code falls back to `()`).
pub struct PathParamSymbol<'a> {
    pub name: String,
    pub ty: Option<&'a Ty>,
}

/// The view of a symbol.
pub open spec fn symbol_view(s: PathParamSymbol) -> (Seq<char>, Option<Ty>) {
    (
        s.name@,
        match s.ty {
            Some(t) => Some(*t),
            None => None,
        },
    )
}

fn contains_name(v: &Vec<String>, upto: usize, n: &String) -> (r: bool)
    requires
        upto <= v@.len(),
    ensures
        r == name_list(v@).take(upto as int).contains(n@),
{
    let mut i: usize = 0;
    while i < upto
        invariant
            0 <= i <= upto <= v@.len(),
            forall|k: int| 0 <= k < i ==> v@[k]@ != n@,
        decreases upto - i,
    {
        if v[i] == *n {
            assert(name_list(v@).take(upto as int)[i as int] == n@);
            return true;
        }
        i = i + 1;
    }
    assert forall|k: int| 0 <= k < upto implies name_list(v@).take(upto as int)[k] != n@ by {
        assert(name_list(v@).take(upto as int)[k] == v@[k]@);
    }
    false
}

/// Infer the typed path symbols of a route from its path and signature.
pub fn infer_path_param_symbols<'a>(path: &str, sig: &'a Sig) -> (r: Vec<PathParamSymbol<'a>>)
    ensures
        r@.map_values(|s: PathParamSymbol<'a>| symbol_view(s)) == path_symbols(path@, sig.inputs@),
{
    let route_names = extract_route_path_param_names(path);
    let (pat_names_v, path_types) = match path_extractor_info(sig) {
        Some(x) => x,
        None => (Vec::new(), Vec::new()),
    };
    let ghost pn = name_list(pat_names_v@);
    let ghost pt = pointees(path_types@);
    assert(path_extractor(sig.inputs@) is None ==> pn =~= Seq::<Seq<char>>::empty() && pt
        =~= Seq::<Ty>::empty());
    let mut ordered = if pat_names_v.len() == 0 {
        let mut c: Vec<String> = Vec::new();
        let mut k: usize = 0;
        while k < route_names.len()
            invariant
                0 <= k <= route_names@.len(),
                name_list(c@) == name_list(route_names@).take(k as int),
            decreases route_names@.len() - k,
        {
            let ghost before = c@;
            c.push(route_names[k].clone());
            proof {
                lemma_name_list_push(before, route_names@[k as int]);
                assert(name_list(route_names@).take(k + 1) =~= name_list(route_names@).take(
                    k as int,
                ).push(route_names@[k as int]@));
            }
            k = k + 1;
        }
        assert(name_list(route_names@).take(route_names@.len() as int) =~= name_list(route_names@));
        c
    } else {
        pat_names_v
    };
    let ghost route = name_list(route_names@);
    assert(route =~= param_names(path@));
    let ghost first = name_list(ordered@);
    let mut j: usize = 0;
    assert(route.skip(0) =~= route);
    while j < route_names.len()
        invariant
            0 <= j <= route_names@.len(),
            route == name_list(route_names@),
            with_missing(first, route) == with_missing(name_list(ordered@), route.skip(j as int)),
        decreases route_names@.len() - j,
    {
        assert(route.skip(j as int)[0] == route_names@[j as int]@);
        assert(route.skip(j as int).drop_first() =~= route.skip(j + 1));
        let n = &route_names[j];
        let ghost cur = name_list(ordered@);
        let ghost rest = route.skip(j as int);
        assert(name_list(ordered@).take(ordered@.len() as int) =~= name_list(ordered@));
        let present = contains_name(&ordered, ordered.len(), n);
        assert(with_missing(cur, rest) == with_missing(
            if cur.contains(rest[0]) { cur } else { cur.push(rest[0]) },
            rest.drop_first(),
        ));
        if !present {
            let ghost before = ordered@;
            ordered.push(n.clone());
            proof {
                lemma_name_list_push(before, *n);
            }
        }
        j = j + 1;
    }
    assert(route.skip(j as int) =~= Seq::<Seq<char>>::empty());
    let ghost ord = name_list(ordered@);
    let mut out: Vec<PathParamSymbol<'a>> = Vec::new();
    let mut i: usize = 0;
    while i < ordered.len()
        invariant
            0 <= i <= ordered@.len(),
            ord == name_list(ordered@),
            pt == pointees(path_types@),
            symbols_from(ord, pt, 0) == out@.map_values(|s: PathParamSymbol<'a>| symbol_view(s))
                + symbols_from(ord, pt, i as int),
        decreases ordered@.len() - i,
    {
        let n = &ordered[i];
        assert(ord[i as int] == n@);
        let seen = contains_name(&ordered, i, n);
        if !seen && parses_as_ident(n.as_str()) {
            let ty = if i < path_types.len() {
                Some(path_types[i])
            } else {
                None
            };
            let ghost before = out@;
            out.push(PathParamSymbol { name: n.clone(), ty });
            assert(out@.map_values(|s: PathParamSymbol<'a>| symbol_view(s)) =~= before.map_values(
                |s: PathParamSymbol<'a>| symbol_view(s),
            ).push(symbol_view(out@.last())));
            assert(symbol_view(out@.last()) == (n@, if i < pt.len() { Some(pt[i as int]) } else { None }));
        }
        i = i + 1;
        assert(symbols_from(ord, pt, 0) =~= out@.map_values(|s: PathParamSymbol<'a>| symbol_view(s))
            + symbols_from(ord, pt, i as int));
    }
    assert(symbols_from(ord, pt, i as int) =~= Seq::<(Seq<char>, Option<Ty>)>::empty());
    assert(out@.map_values(|s: PathParamSymbol<'a>| symbol_view(s)) + Seq::<(Seq<char>, Option<Ty>)>::empty()
        =~= out@.map_values(|s: PathParamSymbol<'a>| symbol_view(s)));
    out
}

// ── handler shape ───────────────────────────────────────────────────────

/// Whether a route method runs behind interceptors: its own `#[intercept]`
/// list or its controller's.
pub fn has_interceptors<E>(method_intercepts: &Vec<E>, controller_intercepts: &Vec<E>) -> (r: bool)
    ensures
        r == (method_intercepts@.len() > 0 || controller_intercepts@.len() > 0),
{
    method_intercepts.len() > 0 || controller_intercepts.len() > 0
}

/// The types of the typed (non-receiver) parameters, in order.
pub open spec fn typed_params(inputs: Seq<FnInput>) -> Seq<Ty>
    decreases inputs.len(),
{
    if inputs.len() == 0 {
        Seq::empty()
    } else {
        typed_params(inputs.drop_last()) + match inputs.last() {
            FnInput::Typed { ty, .. } => seq![ty],
            _ => Seq::empty(),
        }
    }
}

/// What the generated handler validates of a parameter.
#[derive(Clone, Copy, PartialEq, Eq, Debug)]
pub enum ValidationTarget {
    /// Not validated (managed resources and the identity).
    Skip,
    /// The extractor's inner value `.0` (`Json`, `Query`, `Path`, `Form`).
    Inner,
    /// The value itself.
    Whole,
}

/// How the generated handler treats one typed parameter.
#[derive(Clone, Copy, PartialEq, Eq, Debug)]
pub struct ParamPlan {
    /// Position among the typed parameters.
    pub index: usize,
    /// A managed resource: not an extractor argument, passed as `&mut`.
    pub managed: bool,
    pub validation: ValidationTarget,
}

/// The plan of the typed parameter at position `i` of type `ty`.
pub open spec fn plan_of(ty: Ty, i: int, managed: Seq<usize>, identity: Option<usize>) -> ParamPlan {
    let m = managed.contains(i as usize);
    ParamPlan {
        index: i as usize,
        managed: m,
        validation: if m || identity == Some(i as usize) {
            ValidationTarget::Skip
        } else if last_is(ty, "Json"@) || last_is(ty, "Query"@) || last_is(ty, "Path"@) || last_is(
            ty,
            "Form"@,
        ) {
            ValidationTarget::Inner
        } else {
            ValidationTarget::Whole
        },
    }
}

fn contains_index(v: &Vec<usize>, x: usize) -> (r: bool)
    ensures
        r == v@.contains(x),
{
    let mut i: usize = 0;
    while i < v.len()
        invariant
            0 <= i <= v@.len(),
            forall|k: int| 0 <= k < i ==> v@[k] != x,
        decreases v@.len() - i,
    {
        if v[i] == x {
            assert(v@[i as int] == x);
            return true;
        }
        i = i + 1;
    }
    false
}

/// The plan of every typed parameter of a route method, in order: which are
/// managed resources (declared by the handler as nothing, passed by `&mut`)
/// and how each of the others is validated.
pub fn plan_params(sig: &Sig, managed: &Vec<usize>, identity: Option<usize>) -> (r: Vec<ParamPlan>)
    ensures
        r@.len() == typed_params(sig.inputs@).len(),
        forall|k: int|
            0 <= k < r@.len() ==> #[trigger] r@[k] == plan_of(
                typed_params(sig.inputs@)[k],
                k,
                managed@,
                identity,
            ),
{
    let inputs = &sig.inputs;
    let mut out: Vec<ParamPlan> = Vec::new();
    let mut i: usize = 0;
    while i < inputs.len()
        invariant
            0 <= i <= inputs@.len(),
            inputs@ == sig.inputs@,
            out@.len() == typed_params(inputs@.take(i as int)).len(),
            out@.len() <= i,
            forall|k: int|
                0 <= k < out@.len() ==> #[trigger] out@[k] == plan_of(
                    typed_params(inputs@.take(i as int))[k],
                    k,
                    managed@,
                    identity,
                ),
        decreases inputs@.len() - i,
    {
        let ghost prev = typed_params(inputs@.take(i as int));
        assert(inputs@.take(i + 1).drop_last() =~= inputs@.take(i as int));
        assert(inputs@.take(i + 1).last() == inputs@[i as int]);
        if let FnInput::Typed { ty, .. } = &inputs[i] {
            let k = out.len();
            let m = contains_index(managed, k);
            let validation = if m || identity == Some(k) {
                ValidationTarget::Skip
            } else if is_wrapper_type(ty) {
                ValidationTarget::Inner
            } else {
                ValidationTarget::Whole
            };
            out.push(ParamPlan { index: k, managed: m, validation });
            assert(typed_params(inputs@.take(i + 1)) =~= prev.push(*ty));
        } else {
            assert(typed_params(inputs@.take(i + 1)) =~= prev);
        }
        i = i + 1;
    }
    assert(inputs@.take(inputs@.len() as int) =~= inputs@);
    out
}

/// The form of the generated invocation function of a route handler.
#[derive(Clone, Copy, PartialEq, Eq, Debug)]
pub enum HandlerShape {
    /// The call itself, with the method's own return type.
    Direct,
    /// Validation, then the call turned into a response.
    Validated,
    /// The call inside the interceptor chain, with the method's own return type.
    Intercepted,
    /// Validation, then the intercepted call turned into a response.
    InterceptedValidated,
    /// Guards and/or managed resources around the call; returns a response.
    Guarded,
}

/// What the generated invocation of a route handler needs.
#[derive(Clone, Copy, PartialEq, Eq, Debug)]
pub struct HandlerPlan {
    /// Takes the application state (`__state`) and is generic over it.
    pub needs_state: bool,
    /// Takes the request headers, URI and raw path parameters for guards.
    pub guard_inputs: bool,
    pub shape: HandlerShape,
}

/// The shape a handler takes from what surrounds its call.
pub open spec fn shape_of(guards: bool, managed: bool, intercepts: bool, validation: bool) -> HandlerShape {
    let needs_response = guards || managed;
    let needs_state = needs_response || intercepts;
    if !needs_state && !validation {
        HandlerShape::Direct
    } else if !needs_state {
        HandlerShape::Validated
    } else if intercepts && !needs_response && !validation {
        HandlerShape::Intercepted
    } else if intercepts && !needs_response {
        HandlerShape::InterceptedValidated
    } else {
        HandlerShape::Guarded
    }
}

/// Plan the invocation of a route handler from whether it has guards,
/// managed parameters, interceptors and validated parameters.
pub fn handler_plan(has_guards: bool, has_managed: bool, has_intercepts: bool, has_validation: bool) -> (r:
    HandlerPlan)
    ensures
        r.needs_state == (has_guards || has_managed || has_intercepts),
        r.guard_inputs == has_guards,
        r.shape == shape_of(has_guards, has_managed, has_intercepts, has_validation),
{
    let needs_response = has_guards || has_managed;
    let needs_state = needs_response || has_intercepts;
    let shape = if !needs_state && !has_validation {
        HandlerShape::Direct
    } else if !needs_state {
        HandlerShape::Validated
    } else if has_intercepts && !needs_response && !has_validation {
        HandlerShape::Intercepted
    } else if has_intercepts && !needs_response {
        HandlerShape::InterceptedValidated
    } else {
        HandlerShape::Guarded
    };
    HandlerPlan { needs_state, guard_inputs: has_guards, shape }
}

/// A handler keeps the method's own return type exactly when it validates
/// nothing and has no guard and no managed resource; every other shape
/// answers with a response.
pub proof fn lemma_own_return_type(guards: bool, managed: bool, intercepts: bool, validation: bool)
    ensures
        (shape_of(guards, managed, intercepts, validation) is Direct || shape_of(
            guards,
            managed,
            intercepts,
            validation,
        ) is Intercepted) <==> (!guards && !managed && !validation),
        shape_of(guards, managed, intercepts, validation) is Direct <==> (!guards && !managed
            && !intercepts && !validation),
{
}

/// Each symbol comes from a first occurrence of its name at or after `i`.
proof fn lemma_symbols_origin(ordered: Seq<Seq<char>>, types: Seq<Ty>, i: int)
    requires
        0 <= i,
    ensures
        forall|e: int|
            0 <= e < symbols_from(ordered, types, i).len() ==> exists|k: int|
                i <= k < ordered.len() && ordered[k] == (#[trigger] symbols_from(ordered, types, i)[e]).0
                    && !ordered.take(k).contains(ordered[k]),
    decreases ordered.len() - i,
{
    if i < ordered.len() {
        lemma_symbols_origin(ordered, types, i + 1);
        let n = ordered[i];
        let rest = symbols_from(ordered, types, i + 1);
        let r = symbols_from(ordered, types, i);
        assert forall|e: int| 0 <= e < r.len() implies exists|k: int|
            i <= k < ordered.len() && ordered[k] == (#[trigger] r[e]).0 && !ordered.take(k).contains(
                ordered[k],
            ) by {
            if ordered.take(i).contains(n) || !ident_parses(n) {
                assert(r[e] == rest[e]);
            } else if e == 0 {
                assert(r[0].0 == n);
            } else {
                assert(r[e] == rest[e - 1]);
            }
        }
    }
}

/// The symbols of a route declare each name once.
pub proof fn lemma_symbols_distinct(ordered: Seq<Seq<char>>, types: Seq<Ty>, i: int)
    requires
        0 <= i,
    ensures
        forall|a: int, b: int|
            0 <= a < b < symbols_from(ordered, types, i).len() ==> (#[trigger] symbols_from(
                ordered,
                types,
                i,
            )[a]).0 != (#[trigger] symbols_from(ordered, types, i)[b]).0,
    decreases ordered.len() - i,
{
    if i < ordered.len() {
        lemma_symbols_distinct(ordered, types, i + 1);
        lemma_symbols_origin(ordered, types, i + 1);
        let n = ordered[i];
        let rest = symbols_from(ordered, types, i + 1);
        let r = symbols_from(ordered, types, i);
        if !(ordered.take(i).contains(n) || !ident_parses(n)) {
            assert forall|a: int, b: int| 0 <= a < b < r.len() implies (#[trigger] r[a]).0 != (
            #[trigger] r[b]).0 by {
                if a == 0 {
                    assert(r[b] == rest[b - 1]);
                    let k = choose|k: int|
                        i + 1 <= k < ordered.len() && ordered[k] == (#[trigger] rest[b - 1]).0
                            && !ordered.take(k).contains(ordered[k]);
                    assert(ordered.take(k)[i] == n);
                } else {
                    assert(r[a] == rest[a - 1]);
                    assert(r[b] == rest[b - 1]);
                }
            }
        }
    }
}

} // verus!
