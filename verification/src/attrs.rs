//! Attributes as the macro logic reads them: the attribute's name, its
//! arguments as plain values, and the original attribute carried through.

use vstd::prelude::*;

use crate::text::{chars_of, push_str, str_is, string_of};

verus! {

/// A literal argument value.
pub enum Lit {
    /// A string literal, by its value.
    Str(String),
    /// An integer literal, by its base-10 digits (suffix removed, a leading
    /// `-` kept).
    Int(String),
    /// A boolean literal.
    Bool(bool),
    /// An assignment `path = value`, by the path's rendering and the value.
    Assign(String, Box<Lit>),
    /// Any other expression, by its token rendering.
    Other(String),
}

/// What follows the key of a nested-meta argument.
pub enum MetaValue {
    /// Nothing: `key`.
    Bare,
    /// `key = value`.
    Eq(Lit),
    /// `key(...)`, with the arguments inside.
    List(Vec<MetaArg>),
}

/// One `key`, `key = value` or `key(...)` argument inside an attribute's
/// parentheses. `key` is the argument's path as written; `rendered` is the
/// token rendering of the value of `key = value` (empty otherwise).
pub struct MetaArg {
    pub key: String,
    pub value: MetaValue,
    pub rendered: String,
}

/// The outer form of an attribute.
pub enum AttrForm {
    /// `#[name]`.
    Bare,
    /// `#[name(...)]`.
    List,
    /// `#[name = value]`.
    NameValue(Lit),
}

/// An attribute: its name when the path is a single identifier, its form,
/// the two readings of a parenthesized argument list (as nested `key = value`
/// metas, and as a comma-separated list of values; each is the parser's
/// diagnostic where the content does not read that way), and the original
/// attribute value `raw`.
pub struct Attr<R> {
    pub ident: Option<String>,
    pub form: AttrForm,
    pub meta: Result<Vec<MetaArg>, String>,
    pub values: Result<Vec<Lit>, String>,
    pub raw: R,
}

/// The string values of a list of names.
pub open spec fn name_views(ns: Seq<&str>) -> Seq<Seq<char>> {
    ns.map_values(|s: &str| s@)
}

/// Whether `a` is written `#[n ...]`.
pub open spec fn named<R>(a: Attr<R>, n: Seq<char>) -> bool {
    a.ident matches Some(s) && s@ == n
}

/// Whether `a` carries one of the names in `ns`.
pub open spec fn named_any<R>(a: Attr<R>, ns: Seq<Seq<char>>) -> bool {
    exists|i: int| 0 <= i < ns.len() && named(a, #[trigger] ns[i])
}

/// Whether any attribute of `attrs` is written `#[n ...]`.
pub open spec fn has_named<R>(attrs: Seq<Attr<R>>, n: Seq<char>) -> bool {
    exists|i: int| 0 <= i < attrs.len() && named(#[trigger] attrs[i], n)
}

/// Index of the first attribute named `n`, if any.
pub open spec fn first_named<R>(attrs: Seq<Attr<R>>, n: Seq<char>) -> Option<int>
    decreases attrs.len(),
{
    if attrs.len() == 0 {
        None
    } else if named(attrs[0], n) {
        Some(0)
    } else {
        match first_named(attrs.drop_first(), n) {
            Some(i) => Some(i + 1),
            None => None,
        }
    }
}

pub proof fn lemma_first_named<R>(attrs: Seq<Attr<R>>, n: Seq<char>)
    ensures
        first_named(attrs, n) matches Some(i) ==> 0 <= i < attrs.len() && named(attrs[i], n)
            && forall|k: int| 0 <= k < i ==> !named(#[trigger] attrs[k], n),
        first_named(attrs, n) is None ==> forall|k: int|
            0 <= k < attrs.len() ==> !named(#[trigger] attrs[k], n),
        first_named(attrs, n) is None <==> !has_named(attrs, n),
    decreases attrs.len(),
{
    if attrs.len() > 0 {
        lemma_first_named(attrs.drop_first(), n);
        assert forall|k: int| 1 <= k < attrs.len() implies attrs[k] == attrs.drop_first()[k - 1] by {}
        if first_named(attrs, n) is None {
            assert forall|k: int| 0 <= k < attrs.len() implies !named(#[trigger] attrs[k], n) by {
                if k > 0 {
                    assert(attrs[k] == attrs.drop_first()[k - 1]);
                }
            }
        }
        if has_named(attrs, n) && !named(attrs[0], n) {
            let k = choose|k: int| 0 <= k < attrs.len() && named(#[trigger] attrs[k], n);
            assert(attrs.drop_first()[k - 1] == attrs[k]);
        }
    }
}

/// Whether `a` is written `#[n ...]`.
pub fn is_named<R>(a: &Attr<R>, n: &str) -> (r: bool)
    ensures
        r == named(*a, n@),
{
    match &a.ident {
        Some(s) => str_is(s.as_str(), n),
        None => false,
    }
}

/// Whether `a` carries one of `names`.
pub fn is_named_any<R>(a: &Attr<R>, names: &Vec<&str>) -> (r: bool)
    ensures
        r == named_any(*a, name_views(names@)),
{
    let ghost ns = name_views(names@);
    let mut i: usize = 0;
    while i < names.len()
        invariant
            ns == name_views(names@),
            0 <= i <= names@.len(),
            forall|k: int| 0 <= k < i ==> !named(*a, #[trigger] ns[k]),
        decreases names@.len() - i,
    {
        if is_named(a, names[i]) {
            assert(named(*a, ns[i as int]));
            return true;
        }
        i = i + 1;
    }
    false
}

/// Index of the first attribute of `attrs` named `n`.
pub fn find_named<R>(attrs: &Vec<Attr<R>>, n: &str) -> (r: Option<usize>)
    ensures
        match r {
            Some(j) => first_named(attrs@, n@) == Some(j as int),
            None => first_named(attrs@, n@) is None,
        },
{
    proof {
        lemma_first_named(attrs@, n@);
    }
    let mut i: usize = 0;
    while i < attrs.len()
        invariant
            0 <= i <= attrs@.len(),
            forall|k: int| 0 <= k < i ==> !named(#[trigger] attrs@[k], n@),
            first_named(attrs@, n@) matches Some(j) ==> 0 <= j < attrs@.len() && named(attrs@[j], n@)
                && forall|k: int| 0 <= k < j ==> !named(#[trigger] attrs@[k], n@),
            first_named(attrs@, n@) is None ==> forall|k: int|
                0 <= k < attrs@.len() ==> !named(#[trigger] attrs@[k], n@),
        decreases attrs@.len() - i,
    {
        if is_named(&attrs[i], n) {
            return Some(i);
        }
        i = i + 1;
    }
    None
}

/// Index of the first attribute of `attrs` carrying one of `ns`.
pub open spec fn first_named_any<R>(attrs: Seq<Attr<R>>, ns: Seq<Seq<char>>) -> Option<int>
    decreases attrs.len(),
{
    if attrs.len() == 0 {
        None
    } else if named_any(attrs[0], ns) {
        Some(0)
    } else {
        match first_named_any(attrs.drop_first(), ns) {
            Some(i) => Some(i + 1),
            None => None,
        }
    }
}

/// No attribute named `n` survives a filter that keeps only attributes not
/// named `n`.
pub proof fn lemma_filtered_unnamed<R>(attrs: Seq<Attr<R>>, p: spec_fn(Attr<R>) -> bool, n: Seq<char>)
    requires
        forall|a: Attr<R>| #[trigger] p(a) ==> !named(a, n),
    ensures
        first_named(attrs.filter(p), n) is None,
{
    let f = attrs.filter(p);
    lemma_first_named(f, n);
    assert forall|k: int| 0 <= k < f.len() implies !named(#[trigger] f[k], n) by {
        attrs.lemma_filter_pred(p, k);
    }
}

pub proof fn lemma_first_named_any<R>(attrs: Seq<Attr<R>>, ns: Seq<Seq<char>>)
    ensures
        first_named_any(attrs, ns) matches Some(i) ==> 0 <= i < attrs.len() && named_any(
            attrs[i],
            ns,
        ) && forall|k: int| 0 <= k < i ==> !named_any(#[trigger] attrs[k], ns),
        first_named_any(attrs, ns) is None ==> forall|k: int|
            0 <= k < attrs.len() ==> !named_any(#[trigger] attrs[k], ns),
    decreases attrs.len(),
{
    if attrs.len() > 0 {
        lemma_first_named_any(attrs.drop_first(), ns);
        assert forall|k: int| 1 <= k < attrs.len() implies attrs[k] == attrs.drop_first()[k
            - 1] by {}
    }
}

/// Index of the first attribute of `attrs` carrying one of `names`.
pub fn find_named_any<R>(attrs: &Vec<Attr<R>>, names: &Vec<&str>) -> (r: Option<usize>)
    ensures
        match r {
            Some(j) => first_named_any(attrs@, name_views(names@)) == Some(j as int),
            None => first_named_any(attrs@, name_views(names@)) is None,
        },
{
    let ghost ns = name_views(names@);
    proof {
        lemma_first_named_any(attrs@, ns);
    }
    let mut i: usize = 0;
    while i < attrs.len()
        invariant
            ns == name_views(names@),
            0 <= i <= attrs@.len(),
            forall|k: int| 0 <= k < i ==> !named_any(#[trigger] attrs@[k], ns),
            first_named_any(attrs@, ns) matches Some(j) ==> 0 <= j < attrs@.len() && named_any(
                attrs@[j],
                ns,
            ) && forall|k: int| 0 <= k < j ==> !named_any(#[trigger] attrs@[k], ns),
            first_named_any(attrs@, ns) is None ==> forall|k: int|
                0 <= k < attrs@.len() ==> !named_any(#[trigger] attrs@[k], ns),
        decreases attrs@.len() - i,
    {
        if is_named_any(&attrs[i], names) {
            return Some(i);
        }
        i = i + 1;
    }
    None
}

/// Whether some attribute of `attrs` is named `n`.
pub fn any_named<R>(attrs: &Vec<Attr<R>>, n: &str) -> (r: bool)
    ensures
        r == has_named(attrs@, n@),
{
    proof {
        lemma_first_named(attrs@, n@);
    }
    find_named(attrs, n).is_some()
}

/// The attributes of `attrs` not named by any of `names`, in their order.
pub fn retain_unnamed<R>(attrs: Vec<Attr<R>>, names: &Vec<&str>) -> (r: Vec<Attr<R>>)
    ensures
        r@ == attrs@.filter(|a: Attr<R>| !named_any(a, name_views(names@))),
{
    let ghost ns = name_views(names@);
    let ghost p = |a: Attr<R>| !named_any(a, ns);
    let ghost orig = attrs@;
    let mut rest = attrs;
    let mut out: Vec<Attr<R>> = Vec::new();
    while rest.len() > 0
        invariant
            ns == name_views(names@),
            p == (|a: Attr<R>| !named_any(a, ns)),
            out@ + rest@.filter(p) == orig.filter(p),
        decreases rest@.len(),
    {
        let ghost before = rest@;
        let a = rest.remove(0);
        proof {
            assert(before =~= seq![a] + rest@);
            rest@.lemma_filter_prepend(a, p);
        }
        if is_named_any(&a, names) {
            assert(!p(a));
        } else {
            assert(p(a));
            out.push(a);
        }
        assert(out@ + rest@.filter(p) =~= orig.filter(p));
    }
    assert(rest@.filter(p) =~= Seq::<Attr<R>>::empty()) by {
        reveal(Seq::filter);
    }
    assert(out@ =~= orig.filter(p));
    out
}

/// `#[get]`, `#[post]`, `#[put]`, `#[delete]` or `#[patch]`.
pub open spec fn route_verb<R>(a: Attr<R>) -> bool {
    named(a, "get"@) || named(a, "post"@) || named(a, "put"@) || named(a, "delete"@) || named(
        a,
        "patch"@,
    )
}

/// Whether `attr` is an HTTP route verb attribute.
pub fn is_route_attr<R>(attr: &Attr<R>) -> (r: bool)
    ensures
        r == route_verb(*attr),
{
    is_named(attr, "get") || is_named(attr, "post") || is_named(attr, "put") || is_named(
        attr,
        "delete",
    ) || is_named(attr, "patch")
}

/// Whether `attr` is `#[sse(...)]`.
pub fn is_sse_attr<R>(attr: &Attr<R>) -> (r: bool)
    ensures
        r == named(*attr, "sse"@),
{
    is_named(attr, "sse")
}

/// Whether `attr` is `#[ws(...)]`.
pub fn is_ws_attr<R>(attr: &Attr<R>) -> (r: bool)
    ensures
        r == named(*attr, "ws"@),
{
    is_named(attr, "ws")
}

/// Detect the standard `#[deprecated]` attribute.
pub fn is_deprecated<R>(attrs: &Vec<Attr<R>>) -> (r: bool)
    ensures
        r == has_named(attrs@, "deprecated"@),
{
    any_named(attrs, "deprecated")
}

/// A message `prefix + name + suffix`.
pub fn framed(prefix: &str, name: &str, suffix: &str) -> (r: String)
    ensures
        r@ == prefix@ + name@ + suffix@,
{
    let mut v = chars_of(prefix);
    push_str(&mut v, name);
    push_str(&mut v, suffix);
    string_of(&v)
}

} // verus!

verus! {

/// The character views of a `Result<String, String>`.
pub open spec fn res_view(r: Result<String, String>) -> Result<Seq<char>, Seq<char>> {
    match r {
        Ok(s) => Ok(s@),
        Err(e) => Err(e@),
    }
}

/// The character view of an optional string.
pub open spec fn opt_view(o: Option<String>) -> Option<Seq<char>> {
    match o {
        Some(s) => Some(s@),
        None => None,
    }
}

/// Whether argument `a` has key `k`.
pub open spec fn key_is(a: MetaArg, k: Seq<char>) -> bool {
    a.key@ == k
}

/// The string value of a `key = "..."` argument, or the parser's diagnostic.
pub open spec fn str_arg(a: MetaArg) -> Result<Seq<char>, Seq<char>> {
    match a.value {
        MetaValue::Eq(Lit::Str(s)) => Ok(s@),
        MetaValue::Eq(_) => Err("expected string literal"@),
        _ => Err("expected `=`"@),
    }
}

/// Reading the base-10 digits `d` as an unsigned integer of at most `max`,
/// with the diagnostics of `str::parse`.
pub open spec fn uint_of(d: Seq<char>, max: int) -> Result<int, Seq<char>> {
    if d.len() == 0 {
        Err("cannot parse integer from empty string"@)
    } else if exists|k: int| 0 <= k < d.len() && !crate::text::is_digit(#[trigger] d[k]) {
        Err("invalid digit found in string"@)
    } else if crate::extract::duration::digits_value(d) > max {
        Err("number too large to fit in target type"@)
    } else {
        Ok(crate::extract::duration::digits_value(d))
    }
}

/// The unsigned value of an integer literal argument `key = N`.
pub open spec fn uint_arg(a: MetaArg, max: int) -> Result<int, Seq<char>> {
    match a.value {
        MetaValue::Eq(Lit::Int(d)) => uint_of(d@, max),
        MetaValue::Eq(_) => Err("expected integer literal"@),
        _ => Err("expected `=`"@),
    }
}

/// Whether argument `a` has key `k`.
pub fn has_key(a: &MetaArg, k: &str) -> (r: bool)
    ensures
        r == key_is(*a, k@),
{
    str_is(a.key.as_str(), k)
}

/// The string value of a `key = "..."` argument.
pub fn read_str_arg(a: &MetaArg) -> (r: Result<String, String>)
    ensures
        res_view(r) == str_arg(*a),
{
    match &a.value {
        MetaValue::Eq(Lit::Str(s)) => Ok(s.clone()),
        MetaValue::Eq(_) => Err(string_of(&chars_of("expected string literal"))),
        _ => Err(string_of(&chars_of("expected `=`"))),
    }
}

/// Reads decimal digits as an unsigned integer no larger than `max`.
pub fn read_uint(d: &String, max: u64) -> (r: Result<u64, String>)
    ensures
        match r {
            Ok(x) => uint_of(d@, max as int) == Ok::<int, Seq<char>>(x as int),
            Err(e) => uint_of(d@, max as int) == Err::<int, Seq<char>>(e@),
        },
{
    let s = chars_of(d.as_str());
    if s.len() == 0 {
        return Err(string_of(&chars_of("cannot parse integer from empty string")));
    }
    let mut i: usize = 0;
    while i < s.len()
        invariant
            0 <= i <= s@.len(),
            s@ == d@,
            forall|k: int| 0 <= k < i ==> crate::text::is_digit(#[trigger] s@[k]),
        decreases s@.len() - i,
    {
        if !crate::text::is_ascii_digit(s[i]) {
            return Err(string_of(&chars_of("invalid digit found in string")));
        }
        i = i + 1;
    }
    let mut v: u64 = 0;
    let mut j: usize = 0;
    while j < s.len()
        invariant
            0 <= j <= s@.len(),
            s@ == d@,
            forall|k: int| 0 <= k < s@.len() ==> crate::text::is_digit(#[trigger] s@[k]),
            v == crate::extract::duration::digits_value(s@.take(j as int)),
            v <= max,
        decreases s@.len() - j,
    {
        let dg = (s[j] as u32 - '0' as u32) as u64;
        assert(s@.take(j + 1).drop_last() =~= s@.take(j as int));
        if dg > max || v > (max - dg) / 10 {
            proof {
                if dg <= max {
                    assert(v * 10 + dg > max) by (nonlinear_arith)
                        requires
                            v > (max - dg) / 10,
                            dg <= 9,
                            dg <= max,
                    ;
                }
                crate::extract::duration::lemma_digits_value_grows(s@, j + 1);
            }
            return Err(string_of(&chars_of("number too large to fit in target type")));
        }
        v = v * 10 + dg;
        j = j + 1;
    }
    assert(s@.take(s@.len() as int) =~= s@);
    Ok(v)
}

/// The unsigned value of a `key = N` argument, at most `max`.
pub fn read_uint_arg(a: &MetaArg, max: u64) -> (r: Result<u64, String>)
    ensures
        match r {
            Ok(x) => uint_arg(*a, max as int) == Ok::<int, Seq<char>>(x as int),
            Err(e) => uint_arg(*a, max as int) == Err::<int, Seq<char>>(e@),
        },
{
    match &a.value {
        MetaValue::Eq(Lit::Int(d)) => read_uint(d, max),
        MetaValue::Eq(_) => Err(string_of(&chars_of("expected integer literal"))),
        _ => Err(string_of(&chars_of("expected `=`"))),
    }
}

} // verus!
