//! The `Params` derive: where each field of a request-parameter struct is
//! read from (path, query, header, a nested group), under which name, with
//! which default, and the combinations it refuses. Field-level `#[serde(...)]`
//! attributes are honoured so that a struct written for `Query<T>` derives
//! unchanged.

use vstd::prelude::*;

use crate::attrs::{framed, key_is, named, Attr, AttrForm, Lit, MetaArg, MetaValue};
use crate::config_props::{flag_value, string_value};
use crate::naming::{renamed, RenameAll};
use crate::text::{chars_of, push_str, str_is, string_of};
use crate::types::{param_openapi_of, wrapped_in, Ty};

verus! {

/// Where a parameter is read from, and under which name.
pub enum ParamSource {
    Path { name: String },
    Query { name: String },
    Header { name: String },
}

/// What an absent parameter becomes.
pub enum DefaultValue {
    /// `Default::default()`.
    Trait,
    /// The expression of `default = <expr>`: argument `arg` of attribute `attr`.
    Expr { attr: usize, arg: usize },
    /// The function named by `#[serde(default = "path")]`, called.
    Fn(String),
}

/// A nested parameter group.
pub enum NestedMode {
    /// `#[params]` / `#[serde(flatten)]`: the parent's prefix, unchanged.
    Flatten,
    /// `#[params(prefix)]` / `#[params(prefix = "...")]`.
    Prefix(String),
}

/// The arguments of `#[param(...)]`.
pub struct ParamOptions {
    pub source: Option<ParamSource>,
    pub default_value: Option<DefaultValue>,
}

// ── #[query(name = "...")] ──────────────────────────────────────────────

pub open spec fn name_key_msg() -> Seq<char> {
    "expected `name = \"...\"`"@
}

/// The name the arguments of `#[query(...)]` give.
pub open spec fn name_args(ms: Seq<MetaArg>) -> Result<Option<String>, Seq<char>>
    decreases ms.len(),
{
    if ms.len() == 0 {
        Ok(None)
    } else {
        match name_args(ms.drop_last()) {
            Err(e) => Err(e),
            Ok(n) => {
                let a = ms.last();
                if key_is(a, "name"@) {
                    match string_value(a) {
                        Ok(s) => Ok(Some(s)),
                        Err(e) => Err(e),
                    }
                } else {
                    Err(name_key_msg())
                }
            },
        }
    }
}

/// The custom name of `#[query(name = "...")]`; none for a bare `#[query]`.
pub open spec fn name_attr_of<R>(a: Attr<R>) -> Result<Option<String>, Seq<char>> {
    match a.form {
        AttrForm::List => match a.meta {
            Err(e) => Err(e@),
            Ok(ms) => name_args(ms@),
        },
        _ => Ok(None),
    }
}

proof fn lemma_name_args_stop(ms: Seq<MetaArg>, k: int)
    requires
        0 <= k < ms.len(),
        name_args(ms.take(k + 1)) is Err,
    ensures
        name_args(ms) == name_args(ms.take(k + 1)),
    decreases ms.len() - k,
{
    if k + 1 == ms.len() {
        assert(ms.take(k + 1) =~= ms);
    } else {
        assert(ms.drop_last().take(k + 1) =~= ms.take(k + 1));
        lemma_name_args_stop(ms.drop_last(), k);
    }
}

fn string_arg(a: &MetaArg) -> (r: Result<String, String>)
    ensures
        match r {
            Ok(s) => string_value(*a) == Ok::<String, Seq<char>>(s),
            Err(e) => string_value(*a) == Err::<String, Seq<char>>(e@),
        },
{
    proof {
        reveal_strlit("expected string literal");
        reveal_strlit("expected `=`");
    }
    match &a.value {
        MetaValue::Eq(Lit::Str(s)) => Ok(s.clone()),
        MetaValue::Eq(_) => Err(string_of(&chars_of("expected string literal"))),
        _ => Err(string_of(&chars_of("expected `=`"))),
    }
}

fn flag_arg(a: &MetaArg) -> (r: Result<(), String>)
    ensures
        match r {
            Ok(()) => flag_value(*a) == Ok::<(), Seq<char>>(()),
            Err(e) => flag_value(*a) == Err::<(), Seq<char>>(e@),
        },
{
    proof {
        reveal_strlit("expected `,`");
    }
    match &a.value {
        MetaValue::Bare => Ok(()),
        _ => Err(string_of(&chars_of("expected `,`"))),
    }
}

/// Read `#[query]` / `#[query(name = "...")]`.
pub fn parse_name_attr<R>(attr: &Attr<R>) -> (r: Result<Option<String>, String>)
    ensures
        match r {
            Ok(n) => name_attr_of(*attr) == Ok::<Option<String>, Seq<char>>(n),
            Err(e) => name_attr_of(*attr) == Err::<Option<String>, Seq<char>>(e@),
        },
{
    proof {
        reveal_strlit("name");
        reveal_strlit("expected `name = \"...\"`");
    }
    match &attr.form {
        AttrForm::List => match &attr.meta {
            Err(e) => Err(e.clone()),
            Ok(ms) => {
                let mut name: Option<String> = None;
                let mut k: usize = 0;
                while k < ms.len()
                    invariant
                        0 <= k <= ms@.len(),
                        attr.form is List,
                        attr.meta == Ok::<Vec<MetaArg>, String>(*ms),
                        name_args(ms@.take(k as int)) == Ok::<Option<String>, Seq<char>>(name),
                    decreases ms@.len() - k,
                {
                    assert(ms@.take(k + 1).drop_last() =~= ms@.take(k as int));
                    assert(ms@.take(k + 1).last() == ms@[k as int]);
                    let m = &ms[k];
                    if str_is(m.key.as_str(), "name") {
                        match string_arg(m) {
                            Ok(s) => {
                                name = Some(s);
                            },
                            Err(e) => {
                                proof {
                                    lemma_name_args_stop(ms@, k as int);
                                }
                                return Err(e);
                            },
                        }
                    } else {
                        proof {
                            lemma_name_args_stop(ms@, k as int);
                        }
                        return Err(string_of(&chars_of("expected `name = \"...\"`")));
                    }
                    k = k + 1;
                }
                assert(ms@.take(ms@.len() as int) =~= ms@);
                Ok(name)
            },
        },
        _ => Ok(None),
    }
}

// ── #[params] / #[params(prefix ...)] ───────────────────────────────────

pub open spec fn prefix_key_msg() -> Seq<char> {
    "expected `prefix` or `prefix = \"...\"`"@
}

pub open spec fn nested_form_msg() -> Seq<char> {
    "expected #[params], #[params(prefix)], or #[params(prefix = \"...\")]"@
}

/// The prefix the arguments of `#[params(...)]` give (`field` is the field's
/// name, the prefix of a bare `prefix`).
pub open spec fn prefix_args(ms: Seq<MetaArg>, field: String) -> Result<Option<NestedMode>, Seq<char>>
    decreases ms.len(),
{
    if ms.len() == 0 {
        Ok(None)
    } else {
        match prefix_args(ms.drop_last(), field) {
            Err(e) => Err(e),
            Ok(m) => {
                let a = ms.last();
                if key_is(a, "prefix"@) {
                    match a.value {
                        MetaValue::Eq(Lit::Str(s)) => Ok(Some(NestedMode::Prefix(s))),
                        MetaValue::Eq(_) => Err("expected string literal"@),
                        MetaValue::Bare => Ok(Some(NestedMode::Prefix(field))),
                        MetaValue::List(_) => Err("expected `,`"@),
                    }
                } else {
                    Err(prefix_key_msg())
                }
            },
        }
    }
}

/// The mode of `#[params]`, `#[params(prefix)]` or `#[params(prefix = "...")]`.
pub open spec fn nested_mode_of<R>(a: Attr<R>, field: String) -> Result<NestedMode, Seq<char>> {
    match a.form {
        AttrForm::Bare => Ok(NestedMode::Flatten),
        AttrForm::List => match a.meta {
            Err(e) => Err(e@),
            Ok(ms) => match prefix_args(ms@, field) {
                Err(e) => Err(e),
                Ok(None) => Err(nested_form_msg()),
                Ok(Some(m)) => Ok(m),
            },
        },
        _ => Err(nested_form_msg()),
    }
}

proof fn lemma_prefix_args_stop(ms: Seq<MetaArg>, field: String, k: int)
    requires
        0 <= k < ms.len(),
        prefix_args(ms.take(k + 1), field) is Err,
    ensures
        prefix_args(ms, field) == prefix_args(ms.take(k + 1), field),
    decreases ms.len() - k,
{
    if k + 1 == ms.len() {
        assert(ms.take(k + 1) =~= ms);
    } else {
        assert(ms.drop_last().take(k + 1) =~= ms.take(k + 1));
        lemma_prefix_args_stop(ms.drop_last(), field, k);
    }
}

/// Read a `#[params ...]` attribute of field `field`.
pub fn parse_nested_mode<R>(attr: &Attr<R>, field: &String) -> (r: Result<NestedMode, String>)
    ensures
        match r {
            Ok(m) => nested_mode_of(*attr, *field) == Ok::<NestedMode, Seq<char>>(m),
            Err(e) => nested_mode_of(*attr, *field) == Err::<NestedMode, Seq<char>>(e@),
        },
{
    proof {
        reveal_strlit("prefix");
        reveal_strlit("expected `prefix` or `prefix = \"...\"`");
        reveal_strlit("expected #[params], #[params(prefix)], or #[params(prefix = \"...\")]");
        reveal_strlit("expected string literal");
        reveal_strlit("expected `,`");
    }
    match &attr.form {
        AttrForm::Bare => Ok(NestedMode::Flatten),
        AttrForm::List => match &attr.meta {
            Err(e) => Err(e.clone()),
            Ok(ms) => {
                let mut mode: Option<NestedMode> = None;
                let mut k: usize = 0;
                while k < ms.len()
                    invariant
                        0 <= k <= ms@.len(),
                        attr.form is List,
                        attr.meta == Ok::<Vec<MetaArg>, String>(*ms),
                        prefix_args(ms@.take(k as int), *field) == Ok::<Option<NestedMode>, Seq<char>>(mode),
                    decreases ms@.len() - k,
                {
                    assert(ms@.take(k + 1).drop_last() =~= ms@.take(k as int));
                    assert(ms@.take(k + 1).last() == ms@[k as int]);
                    let m = &ms[k];
                    let step: Result<(), String> = if str_is(m.key.as_str(), "prefix") {
                        match &m.value {
                            MetaValue::Eq(Lit::Str(s)) => {
                                mode = Some(NestedMode::Prefix(s.clone()));
                                Ok(())
                            },
                            MetaValue::Eq(_) => Err(string_of(&chars_of("expected string literal"))),
                            MetaValue::Bare => {
                                mode = Some(NestedMode::Prefix(field.clone()));
                                Ok(())
                            },
                            MetaValue::List(_) => Err(string_of(&chars_of("expected `,`"))),
                        }
                    } else {
                        Err(string_of(&chars_of("expected `prefix` or `prefix = \"...\"`")))
                    };
                    match step {
                        Ok(()) => {},
                        Err(e) => {
                            proof {
                                lemma_prefix_args_stop(ms@, *field, k as int);
                            }
                            return Err(e);
                        },
                    }
                    k = k + 1;
                }
                assert(ms@.take(ms@.len() as int) =~= ms@);
                match mode {
                    Some(m) => Ok(m),
                    None => Err(
                        string_of(
                            &chars_of(
                                "expected #[params], #[params(prefix)], or #[params(prefix = \"...\")]",
                            ),
                        ),
                    ),
                }
            },
        },
        _ => Err(
            string_of(
                &chars_of("expected #[params], #[params(prefix)], or #[params(prefix = \"...\")]"),
            ),
        ),
    }
}

// ── #[param(path, name = "...", default ...)] ───────────────────────────

/// The arguments of `#[param(...)]` read so far.
pub struct ParamArgs {
    pub is_path: bool,
    pub path_name: Option<String>,
    pub default_value: Option<DefaultValue>,
}

pub open spec fn param_key_msg() -> Seq<char> {
    "expected `path`, `name = \"...\"`, `default`, or `default = <expr>`"@
}

pub open spec fn name_without_path_msg() -> Seq<char> {
    "`name` requires `path`: use #[param(path, name = \"...\")]"@
}

pub open spec fn param_empty_msg() -> Seq<char> {
    "expected #[param(path)], #[param(default)], or a combination of both"@
}

/// Applies the arguments of `#[param(...)]` (attribute `i`) in order.
pub open spec fn param_args(ms: Seq<MetaArg>, i: int) -> Result<ParamArgs, Seq<char>>
    decreases ms.len(),
{
    if ms.len() == 0 {
        Ok(ParamArgs { is_path: false, path_name: None, default_value: None })
    } else {
        match param_args(ms.drop_last(), i) {
            Err(e) => Err(e),
            Ok(st) => {
                let a = ms.last();
                let k = ms.len() - 1;
                if key_is(a, "path"@) {
                    match flag_value(a) {
                        Ok(()) => Ok(ParamArgs { is_path: true, ..st }),
                        Err(e) => Err(e),
                    }
                } else if key_is(a, "name"@) {
                    match string_value(a) {
                        Ok(s) => Ok(ParamArgs { path_name: Some(s), ..st }),
                        Err(e) => Err(e),
                    }
                } else if key_is(a, "default"@) {
                    match a.value {
                        MetaValue::Eq(_) => Ok(
                            ParamArgs {
                                default_value: Some(DefaultValue::Expr { attr: i as usize, arg: k as usize }),
                                ..st
                            },
                        ),
                        MetaValue::Bare => Ok(ParamArgs { default_value: Some(DefaultValue::Trait), ..st }),
                        MetaValue::List(_) => Err("expected `,`"@),
                    }
                } else {
                    Err(param_key_msg())
                }
            },
        }
    }
}

/// The options of `#[param(...)]` (attribute `i`, field key `default_name`).
pub open spec fn param_options_of<R>(a: Attr<R>, i: int, default_name: String) -> Result<ParamOptions, Seq<char>> {
    match a.meta {
        Err(e) => Err(e@),
        Ok(ms) => match param_args(ms@, i) {
            Err(e) => Err(e),
            Ok(st) => if st.path_name is Some && !st.is_path {
                Err(name_without_path_msg())
            } else if !st.is_path && st.default_value is None {
                Err(param_empty_msg())
            } else {
                Ok(
                    ParamOptions {
                        source: if st.is_path {
                            Some(
                                ParamSource::Path {
                                    name: match st.path_name {
                                        Some(n) => n,
                                        None => default_name,
                                    },
                                },
                            )
                        } else {
                            None
                        },
                        default_value: st.default_value,
                    },
                )
            },
        },
    }
}

proof fn lemma_param_args_stop(ms: Seq<MetaArg>, i: int, k: int)
    requires
        0 <= k < ms.len(),
        param_args(ms.take(k + 1), i) is Err,
    ensures
        param_args(ms, i) == param_args(ms.take(k + 1), i),
    decreases ms.len() - k,
{
    if k + 1 == ms.len() {
        assert(ms.take(k + 1) =~= ms);
    } else {
        assert(ms.drop_last().take(k + 1) =~= ms.take(k + 1));
        lemma_param_args_stop(ms.drop_last(), i, k);
    }
}

/// Read `#[param(...)]` (attribute `index` of the field).
pub fn parse_param_options<R>(attr: &Attr<R>, index: usize, default_name: &String) -> (r: Result<ParamOptions, String>)
    ensures
        match r {
            Ok(o) => param_options_of(*attr, index as int, *default_name) == Ok::<ParamOptions, Seq<char>>(o),
            Err(e) => param_options_of(*attr, index as int, *default_name) == Err::<ParamOptions, Seq<char>>(e@),
        },
{
    proof {
        reveal_strlit("path");
        reveal_strlit("name");
        reveal_strlit("default");
        reveal_strlit("expected `,`");
        reveal_strlit("expected `path`, `name = \"...\"`, `default`, or `default = <expr>`");
        reveal_strlit("`name` requires `path`: use #[param(path, name = \"...\")]");
        reveal_strlit("expected #[param(path)], #[param(default)], or a combination of both");
    }
    let ms = match &attr.meta {
        Err(e) => {
            return Err(e.clone());
        },
        Ok(ms) => ms,
    };
    let mut st = ParamArgs { is_path: false, path_name: None, default_value: None };
    let mut k: usize = 0;
    while k < ms.len()
        invariant
            0 <= k <= ms@.len(),
            attr.meta == Ok::<Vec<MetaArg>, String>(*ms),
            param_args(ms@.take(k as int), index as int) == Ok::<ParamArgs, Seq<char>>(st),
        decreases ms@.len() - k,
    {
        assert(ms@.take(k + 1).drop_last() =~= ms@.take(k as int));
        assert(ms@.take(k + 1).last() == ms@[k as int]);
        let m = &ms[k];
        let step: Result<(), String> = if str_is(m.key.as_str(), "path") {
            match flag_arg(m) {
                Ok(()) => {
                    st.is_path = true;
                    Ok(())
                },
                Err(e) => Err(e),
            }
        } else if str_is(m.key.as_str(), "name") {
            match string_arg(m) {
                Ok(s) => {
                    st.path_name = Some(s);
                    Ok(())
                },
                Err(e) => Err(e),
            }
        } else if str_is(m.key.as_str(), "default") {
            match &m.value {
                MetaValue::Eq(_) => {
                    st.default_value = Some(DefaultValue::Expr { attr: index, arg: k });
                    Ok(())
                },
                MetaValue::Bare => {
                    st.default_value = Some(DefaultValue::Trait);
                    Ok(())
                },
                MetaValue::List(_) => Err(string_of(&chars_of("expected `,`"))),
            }
        } else {
            Err(
                string_of(
                    &chars_of("expected `path`, `name = \"...\"`, `default`, or `default = <expr>`"),
                ),
            )
        };
        match step {
            Ok(()) => {},
            Err(e) => {
                proof {
                    lemma_param_args_stop(ms@, index as int, k as int);
                }
                return Err(e);
            },
        }
        k = k + 1;
    }
    assert(ms@.take(ms@.len() as int) =~= ms@);
    if st.path_name.is_some() && !st.is_path {
        return Err(string_of(&chars_of("`name` requires `path`: use #[param(path, name = \"...\")]")));
    }
    if !st.is_path && st.default_value.is_none() {
        return Err(
            string_of(&chars_of("expected #[param(path)], #[param(default)], or a combination of both")),
        );
    }
    let ParamArgs { is_path, path_name, default_value } = st;
    let source = if is_path {
        Some(
            ParamSource::Path {
                name: match path_name {
                    Some(n) => n,
                    None => default_name.clone(),
                },
            },
        )
    } else {
        None
    };
    Ok(ParamOptions { source, default_value })
}

// ── #[serde(...)] on fields ─────────────────────────────────────────────

/// Whether `syn` reads `s` as a path (`some::function`).
pub uninterp spec fn path_parses(s: Seq<char>) -> bool;

/// `syn::parse_str::<syn::Path>`: whether the text is a path. The answer
/// depends on the text alone; nothing more is stated of it.
#[verifier::external_body]
fn parses_as_path(s: &str) -> (r: bool)
    ensures
        r == path_parses(s@),
{
    syn::parse_str::<syn::Path>(s).is_ok()
}

/// What a field's `#[serde(...)]` says about extraction.
pub struct SerdeFieldAttrs {
    pub rename: Option<String>,
    /// `skip` / `skip_deserializing`.
    pub skip: bool,
    /// `flatten`.
    pub flatten: bool,
    /// `default` / `default = "path::to::fn"`.
    pub default_value: Option<DefaultValue>,
}

/// The `deserialize = "..."` value of a per-direction list such as
/// `rename(serialize = "a", deserialize = "b")`, and whether the list was
/// read to its end (an unreadable argument stops it).
pub open spec fn deserialize_pick(ms: Seq<MetaArg>) -> (Option<String>, bool)
    decreases ms.len(),
{
    if ms.len() == 0 {
        (None, true)
    } else {
        let (v, ok) = deserialize_pick(ms.drop_last());
        if !ok {
            (v, false)
        } else {
            let a = ms.last();
            if key_is(a, "deserialize"@) {
                match a.value {
                    MetaValue::Eq(Lit::Str(s)) => (Some(s), true),
                    _ => (v, false),
                }
            } else {
                match a.value {
                    MetaValue::Eq(Lit::Str(_)) => (v, true),
                    MetaValue::Eq(_) => (v, false),
                    MetaValue::Bare => (v, true),
                    MetaValue::List(_) => (v, false),
                }
            }
        }
    }
}

/// One serde argument applied; the flag says whether reading goes on.
pub open spec fn serde_arg(st: SerdeFieldAttrs, a: MetaArg) -> (SerdeFieldAttrs, bool) {
    if key_is(a, "rename"@) {
        match a.value {
            MetaValue::Eq(Lit::Str(s)) => (SerdeFieldAttrs { rename: Some(s), ..st }, true),
            MetaValue::Eq(_) => (st, false),
            MetaValue::Bare => (st, true),
            MetaValue::List(inner) => {
                let (v, ok) = deserialize_pick(inner@);
                (
                    match v {
                        Some(s) => SerdeFieldAttrs { rename: Some(s), ..st },
                        None => st,
                    },
                    ok,
                )
            },
        }
    } else if key_is(a, "skip"@) || key_is(a, "skip_deserializing"@) {
        (SerdeFieldAttrs { skip: true, ..st }, a.value is Bare)
    } else if key_is(a, "flatten"@) {
        (SerdeFieldAttrs { flatten: true, ..st }, a.value is Bare)
    } else if key_is(a, "default"@) {
        match a.value {
            MetaValue::Eq(Lit::Str(s)) => if path_parses(s@) {
                (SerdeFieldAttrs { default_value: Some(DefaultValue::Fn(s)), ..st }, true)
            } else {
                (st, false)
            },
            MetaValue::Eq(_) => (st, false),
            MetaValue::Bare => (SerdeFieldAttrs { default_value: Some(DefaultValue::Trait), ..st }, true),
            MetaValue::List(_) => (SerdeFieldAttrs { default_value: Some(DefaultValue::Trait), ..st }, false),
        }
    } else {
        (st, true)
    }
}

/// The arguments of one `#[serde(...)]` applied in order, up to the first
/// one that does not read (the rest of that attribute is ignored).
pub open spec fn serde_args(st: SerdeFieldAttrs, ms: Seq<MetaArg>) -> (SerdeFieldAttrs, bool)
    decreases ms.len(),
{
    if ms.len() == 0 {
        (st, true)
    } else {
        let (s2, ok) = serde_args(st, ms.drop_last());
        if !ok {
            (s2, false)
        } else {
            serde_arg(s2, ms.last())
        }
    }
}

pub open spec fn no_serde() -> SerdeFieldAttrs {
    SerdeFieldAttrs { rename: None, skip: false, flatten: false, default_value: None }
}

/// Every `#[serde(...)]` of a field applied in order; an attribute whose
/// arguments do not parse changes nothing.
pub open spec fn serde_field_of<R>(attrs: Seq<Attr<R>>) -> SerdeFieldAttrs
    decreases attrs.len(),
{
    if attrs.len() == 0 {
        no_serde()
    } else {
        let st = serde_field_of(attrs.drop_last());
        let a = attrs.last();
        if named(a, "serde"@) {
            match a.meta {
                Ok(ms) => serde_args(st, ms@).0,
                Err(_) => st,
            }
        } else {
            st
        }
    }
}

fn pick_deserialize(ms: &Vec<MetaArg>) -> (r: (Option<String>, bool))
    ensures
        r == deserialize_pick(ms@),
{
    proof {
        reveal_strlit("deserialize");
    }
    let mut v: Option<String> = None;
    let mut k: usize = 0;
    while k < ms.len()
        invariant
            0 <= k <= ms@.len(),
            deserialize_pick(ms@.take(k as int)) == (v, true),
        decreases ms@.len() - k,
    {
        assert(ms@.take(k + 1).drop_last() =~= ms@.take(k as int));
        assert(ms@.take(k + 1).last() == ms@[k as int]);
        let m = &ms[k];
        let ok = if str_is(m.key.as_str(), "deserialize") {
            match &m.value {
                MetaValue::Eq(Lit::Str(s)) => {
                    v = Some(s.clone());
                    true
                },
                _ => false,
            }
        } else {
            match &m.value {
                MetaValue::Eq(Lit::Str(_)) => true,
                MetaValue::Eq(_) => false,
                MetaValue::Bare => true,
                MetaValue::List(_) => false,
            }
        };
        if !ok {
            proof {
                lemma_pick_stop(ms@, k as int);
            }
            return (v, false);
        }
        k = k + 1;
    }
    assert(ms@.take(ms@.len() as int) =~= ms@);
    (v, true)
}

proof fn lemma_pick_stop(ms: Seq<MetaArg>, k: int)
    requires
        0 <= k < ms.len(),
        !deserialize_pick(ms.take(k + 1)).1,
    ensures
        deserialize_pick(ms) == deserialize_pick(ms.take(k + 1)),
    decreases ms.len() - k,
{
    if k + 1 == ms.len() {
        assert(ms.take(k + 1) =~= ms);
    } else {
        assert(ms.drop_last().take(k + 1) =~= ms.take(k + 1));
        lemma_pick_stop(ms.drop_last(), k);
    }
}

proof fn lemma_serde_args_stop(st: SerdeFieldAttrs, ms: Seq<MetaArg>, k: int)
    requires
        0 <= k < ms.len(),
        !serde_args(st, ms.take(k + 1)).1,
    ensures
        serde_args(st, ms) == serde_args(st, ms.take(k + 1)),
    decreases ms.len() - k,
{
    if k + 1 == ms.len() {
        assert(ms.take(k + 1) =~= ms);
    } else {
        assert(ms.drop_last().take(k + 1) =~= ms.take(k + 1));
        lemma_serde_args_stop(st, ms.drop_last(), k);
    }
}

fn apply_serde_args(init: SerdeFieldAttrs, ms: &Vec<MetaArg>) -> (r: SerdeFieldAttrs)
    ensures
        r == serde_args(init, ms@).0,
{
    proof {
        reveal_strlit("rename");
        reveal_strlit("skip");
        reveal_strlit("skip_deserializing");
        reveal_strlit("flatten");
        reveal_strlit("default");
    }
    let ghost st0 = init;
    let mut st = init;
    let mut k: usize = 0;
    while k < ms.len()
        invariant
            0 <= k <= ms@.len(),
            st0 == init,
            serde_args(st0, ms@.take(k as int)) == (st, true),
        decreases ms@.len() - k,
    {
        assert(ms@.take(k + 1).drop_last() =~= ms@.take(k as int));
        assert(ms@.take(k + 1).last() == ms@[k as int]);
        let m = &ms[k];
        let ghost prev = st;
        let ok: bool = if str_is(m.key.as_str(), "rename") {
            match &m.value {
                MetaValue::Eq(Lit::Str(s)) => {
                    st.rename = Some(s.clone());
                    true
                },
                MetaValue::Eq(_) => false,
                MetaValue::Bare => true,
                MetaValue::List(inner) => {
                    let (v, ok) = pick_deserialize(inner);
                    match v {
                        Some(s) => {
                            st.rename = Some(s);
                        },
                        None => {},
                    }
                    ok
                },
            }
        } else if str_is(m.key.as_str(), "skip") || str_is(m.key.as_str(), "skip_deserializing") {
            st.skip = true;
            match &m.value {
                MetaValue::Bare => true,
                _ => false,
            }
        } else if str_is(m.key.as_str(), "flatten") {
            st.flatten = true;
            match &m.value {
                MetaValue::Bare => true,
                _ => false,
            }
        } else if str_is(m.key.as_str(), "default") {
            match &m.value {
                MetaValue::Eq(Lit::Str(s)) => {
                    if parses_as_path(s.as_str()) {
                        st.default_value = Some(DefaultValue::Fn(s.clone()));
                        true
                    } else {
                        false
                    }
                },
                MetaValue::Eq(_) => false,
                MetaValue::Bare => {
                    st.default_value = Some(DefaultValue::Trait);
                    true
                },
                MetaValue::List(_) => {
                    st.default_value = Some(DefaultValue::Trait);
                    false
                },
            }
        } else {
            true
        };
        assert(serde_arg(prev, ms@[k as int]) == (st, ok));
        if !ok {
            proof {
                assert(serde_args(st0, ms@.take(k + 1)) == (st, false));
                lemma_serde_args_stop(st0, ms@, k as int);
            }
            return st;
        }
        k = k + 1;
    }
    assert(ms@.take(ms@.len() as int) =~= ms@);
    st
}

/// Read the `#[serde(...)]` attributes of a field, as serde would.
pub fn parse_serde_field_attrs<R>(attrs: &Vec<Attr<R>>) -> (r: SerdeFieldAttrs)
    ensures
        r == serde_field_of(attrs@),
{
    let mut st = SerdeFieldAttrs { rename: None, skip: false, flatten: false, default_value: None };
    let mut i: usize = 0;
    while i < attrs.len()
        invariant
            0 <= i <= attrs@.len(),
            serde_field_of(attrs@.take(i as int)) == st,
        decreases attrs@.len() - i,
    {
        assert(attrs@.take(i + 1).drop_last() =~= attrs@.take(i as int));
        assert(attrs@.take(i + 1).last() == attrs@[i as int]);
        let a = &attrs[i];
        if crate::attrs::is_named(a, "serde") {
            match &a.meta {
                Ok(ms) => {
                    st = apply_serde_args(st, ms);
                },
                Err(_) => {},
            }
        }
        i = i + 1;
    }
    assert(attrs@.take(attrs@.len() as int) =~= attrs@);
    st
}

// ── #[serde(rename_all = "...")] on the struct ──────────────────────────

/// The `rename_all` value of one `#[serde(...)]` (or `found` when it has
/// none), and whether reading went on to the end.
pub open spec fn rename_all_args(found: Option<String>, ms: Seq<MetaArg>) -> (Option<String>, bool)
    decreases ms.len(),
{
    if ms.len() == 0 {
        (found, true)
    } else {
        let (f2, ok) = rename_all_args(found, ms.drop_last());
        if !ok {
            (f2, false)
        } else {
            let a = ms.last();
            if key_is(a, "rename_all"@) {
                match a.value {
                    MetaValue::Eq(Lit::Str(s)) => (Some(s), true),
                    MetaValue::Eq(_) => (f2, false),
                    MetaValue::Bare => (f2, true),
                    MetaValue::List(inner) => {
                        let (v, ok2) = deserialize_pick(inner@);
                        (
                            match v {
                                Some(s) => Some(s),
                                None => f2,
                            },
                            ok2,
                        )
                    },
                }
            } else {
                (f2, true)
            }
        }
    }
}

/// The `rename_all` spelling the struct's `#[serde(...)]` attributes give.
pub open spec fn rename_all_spelling<R>(attrs: Seq<Attr<R>>) -> Option<String>
    decreases attrs.len(),
{
    if attrs.len() == 0 {
        None
    } else {
        let found = rename_all_spelling(attrs.drop_last());
        let a = attrs.last();
        if named(a, "serde"@) {
            match a.meta {
                Ok(ms) => rename_all_args(found, ms@).0,
                Err(_) => found,
            }
        } else {
            found
        }
    }
}

proof fn lemma_rename_all_stop(found: Option<String>, ms: Seq<MetaArg>, k: int)
    requires
        0 <= k < ms.len(),
        !rename_all_args(found, ms.take(k + 1)).1,
    ensures
        rename_all_args(found, ms) == rename_all_args(found, ms.take(k + 1)),
    decreases ms.len() - k,
{
    if k + 1 == ms.len() {
        assert(ms.take(k + 1) =~= ms);
    } else {
        assert(ms.drop_last().take(k + 1) =~= ms.take(k + 1));
        lemma_rename_all_stop(found, ms.drop_last(), k);
    }
}

fn rename_all_in(start: Option<String>, ms: &Vec<MetaArg>) -> (r: Option<String>)
    ensures
        r == rename_all_args(start, ms@).0,
{
    proof {
        reveal_strlit("rename_all");
    }
    let ghost f0 = start;
    let mut found = start;
    let mut k: usize = 0;
    while k < ms.len()
        invariant
            0 <= k <= ms@.len(),
            f0 == start,
            rename_all_args(f0, ms@.take(k as int)) == (found, true),
        decreases ms@.len() - k,
    {
        assert(ms@.take(k + 1).drop_last() =~= ms@.take(k as int));
        assert(ms@.take(k + 1).last() == ms@[k as int]);
        let m = &ms[k];
        let ghost prev = found;
        let ok: bool = if str_is(m.key.as_str(), "rename_all") {
            match &m.value {
                MetaValue::Eq(Lit::Str(s)) => {
                    found = Some(s.clone());
                    true
                },
                MetaValue::Eq(_) => false,
                MetaValue::Bare => true,
                MetaValue::List(inner) => {
                    let (v, ok2) = pick_deserialize(inner);
                    match v {
                        Some(s) => {
                            found = Some(s);
                        },
                        None => {},
                    }
                    ok2
                },
            }
        } else {
            true
        };
        if !ok {
            proof {
                assert(rename_all_args(f0, ms@.take(k + 1)) == (found, false));
                lemma_rename_all_stop(f0, ms@, k as int);
            }
            return found;
        }
        k = k + 1;
    }
    assert(ms@.take(ms@.len() as int) =~= ms@);
    found
}

/// The struct's `rename_all` convention, if any: a spelling serde does not
/// know is refused.
pub fn parse_serde_rename_all<R>(attrs: &Vec<Attr<R>>) -> (r: Result<Option<RenameAll>, String>)
    ensures
        match rename_all_spelling(attrs@) {
            None => r == Ok::<Option<RenameAll>, String>(None),
            Some(s) => match r {
                Ok(Some(c)) => crate::naming::rename_all_named(s@) == Some(c),
                Ok(None) => false,
                Err(e) => crate::naming::rename_all_named(s@) is None && e@
                    == crate::naming::rename_all_refusal(s@),
            },
        },
{
    let mut found: Option<String> = None;
    let mut i: usize = 0;
    while i < attrs.len()
        invariant
            0 <= i <= attrs@.len(),
            rename_all_spelling(attrs@.take(i as int)) == found,
        decreases attrs@.len() - i,
    {
        assert(attrs@.take(i + 1).drop_last() =~= attrs@.take(i as int));
        assert(attrs@.take(i + 1).last() == attrs@[i as int]);
        let a = &attrs[i];
        if crate::attrs::is_named(a, "serde") {
            match &a.meta {
                Ok(ms) => {
                    found = rename_all_in(found, ms);
                },
                Err(_) => {},
            }
        }
        i = i + 1;
    }
    assert(attrs@.take(attrs@.len() as int) =~= attrs@);
    match found {
        None => Ok(None),
        Some(s) => match RenameAll::parse(s.as_str()) {
            Ok(c) => Ok(Some(c)),
            Err(e) => Err(e),
        },
    }
}

// ── fields ──────────────────────────────────────────────────────────────

/// One named field of the struct.
pub struct ParamsFieldInput<R> {
    pub name: String,
    pub ty: Ty,
    pub attrs: Vec<Attr<R>>,
}

/// How a field is read.
pub enum ParsedField {
    /// A single parameter.
    Param { source: ParamSource, is_optional: bool, default_value: Option<DefaultValue> },
    /// A nested parameter group.
    Nested(NestedMode),
    /// Never read: `Default::default()`.
    Skipped,
}

/// The r2e attributes of a field read so far.
pub struct FieldWalk {
    pub source: Option<ParamSource>,
    pub default_value: Option<DefaultValue>,
    pub nested: Option<NestedMode>,
    /// Some `#[query]`, `#[header]`, `#[param]` or `#[params]` was seen.
    pub r2e: bool,
}

/// The header name of `#[header("...")]`: one string literal.
pub open spec fn header_name_of<R>(a: Attr<R>) -> Result<String, Seq<char>> {
    match a.values {
        Err(e) => Err(e@),
        Ok(vs) => if vs@.len() == 1 && vs@[0] is Str {
            Ok(vs@[0]->Str_0)
        } else {
            Err("expected string literal"@)
        },
    }
}

/// Applies attribute `a` (position `i`) of field `field`, whose key is `dname`.
pub open spec fn walk_step<R>(st: FieldWalk, a: Attr<R>, i: int, dname: String, field: String) -> Result<
    FieldWalk,
    Seq<char>,
> {
    if named(a, "query"@) {
        match name_attr_of(a) {
            Err(e) => Err(e),
            Ok(c) => Ok(
                FieldWalk {
                    source: Some(
                        ParamSource::Query {
                            name: match c {
                                Some(n) => n,
                                None => dname,
                            },
                        },
                    ),
                    r2e: true,
                    ..st
                },
            ),
        }
    } else if named(a, "header"@) {
        match header_name_of(a) {
            Err(e) => Err(e),
            Ok(n) => Ok(FieldWalk { source: Some(ParamSource::Header { name: n }), r2e: true, ..st }),
        }
    } else if named(a, "param"@) {
        match param_options_of(a, i, dname) {
            Err(e) => Err(e),
            Ok(o) => Ok(
                FieldWalk {
                    source: match o.source {
                        Some(src) => Some(src),
                        None => st.source,
                    },
                    default_value: match o.default_value {
                        Some(d) => Some(d),
                        None => st.default_value,
                    },
                    r2e: true,
                    ..st
                },
            ),
        }
    } else if named(a, "params"@) {
        match nested_mode_of(a, field) {
            Err(e) => Err(e),
            Ok(m) => Ok(FieldWalk { nested: Some(m), r2e: true, ..st }),
        }
    } else {
        Ok(st)
    }
}

/// The attributes of a field applied in order; `(position, message)` of the
/// first that does not read.
pub open spec fn walk_attrs<R>(attrs: Seq<Attr<R>>, init: FieldWalk, dname: String, field: String) -> Result<
    FieldWalk,
    (int, Seq<char>),
>
    decreases attrs.len(),
{
    if attrs.len() == 0 {
        Ok(init)
    } else {
        match walk_attrs(attrs.drop_last(), init, dname, field) {
            Err(e) => Err(e),
            Ok(st) => match walk_step(st, attrs.last(), attrs.len() - 1, dname, field) {
                Err(m) => Err((attrs.len() - 1, m)),
                Ok(s2) => Ok(s2),
            },
        }
    }
}

pub open spec fn nested_with_source_msg() -> Seq<char> {
    "#[params] cannot be combined with #[param(path)], #[query], or #[header]"@
}

pub open spec fn skip_with_r2e_msg() -> Seq<char> {
    "#[serde(skip)] cannot be combined with #[query], #[header], #[param], or #[params] — a skipped field is never read from the request"@
}

pub open spec fn flatten_with_r2e_msg() -> Seq<char> {
    "#[serde(flatten)] cannot be combined with #[query], #[header] or #[param] — a flattened field is a nested parameter group, not a single parameter. Use #[params(prefix = \"...\")] to give it a prefix instead"@
}

/// Where a refusal is reported.
#[derive(Clone, Copy, PartialEq, Eq, Structural, Debug)]
pub enum ParamsSpan {
    /// The struct's name.
    Type,
    /// The struct's `#[serde(rename_all = ...)]`.
    TypeAttrs,
    /// The name of the field at this position.
    Field(usize),
    /// Attribute `attr` of field `field`.
    FieldAttr { field: usize, attr: usize },
}

/// Why the derive refuses the struct.
pub struct ParamsFault {
    pub at: ParamsSpan,
    pub message: String,
}

/// How field `f` (position `i`, key `dname`) is read, or its refusal.
pub open spec fn parsed_field_of<R>(f: ParamsFieldInput<R>, i: int, dname: String) -> Result<
    ParsedField,
    (ParamsSpan, Seq<char>),
> {
    let serde = serde_field_of(f.attrs@);
    let init = FieldWalk { source: None, default_value: serde.default_value, nested: None, r2e: false };
    match walk_attrs(f.attrs@, init, dname, f.name) {
        Err((j, m)) => Err((ParamsSpan::FieldAttr { field: i as usize, attr: j as usize }, m)),
        Ok(st) => if st.nested is Some && st.source is Some {
            Err((ParamsSpan::Field(i as usize), nested_with_source_msg()))
        } else if serde.skip {
            if st.r2e {
                Err((ParamsSpan::Field(i as usize), skip_with_r2e_msg()))
            } else {
                Ok(ParsedField::Skipped)
            }
        } else if serde.flatten && st.nested is None && st.r2e {
            Err((ParamsSpan::Field(i as usize), flatten_with_r2e_msg()))
        } else {
            let nested = if serde.flatten && st.nested is None {
                Some(NestedMode::Flatten)
            } else {
                st.nested
            };
            match nested {
                Some(m) => Ok(ParsedField::Nested(m)),
                None => Ok(
                    ParsedField::Param {
                        source: match st.source {
                            Some(src) => src,
                            None => ParamSource::Query { name: dname },
                        },
                        is_optional: wrapped_in(f.ty, "Option"@) is Some,
                        default_value: st.default_value,
                    },
                ),
            }
        },
    }
}

/// The key a field is read under when nothing names it: `#[serde(rename)]`,
/// else the `rename_all` convention applied to its name, else its name.
pub open spec fn default_name_of<R>(f: ParamsFieldInput<R>, style: Option<RenameAll>) -> Seq<char> {
    match serde_field_of(f.attrs@).rename {
        Some(r) => r@,
        None => match style {
            Some(c) => renamed(c, f.name@),
            None => f.name@,
        },
    }
}

proof fn lemma_walk_stop<R>(attrs: Seq<Attr<R>>, init: FieldWalk, dname: String, field: String, j: int)
    requires
        0 <= j < attrs.len(),
        walk_attrs(attrs.take(j + 1), init, dname, field) is Err,
    ensures
        walk_attrs(attrs, init, dname, field) == walk_attrs(attrs.take(j + 1), init, dname, field),
    decreases attrs.len() - j,
{
    if j + 1 == attrs.len() {
        assert(attrs.take(j + 1) =~= attrs);
    } else {
        assert(attrs.drop_last().take(j + 1) =~= attrs.take(j + 1));
        lemma_walk_stop(attrs.drop_last(), init, dname, field, j);
    }
}

fn header_name<R>(a: &Attr<R>) -> (r: Result<String, String>)
    ensures
        match r {
            Ok(n) => header_name_of(*a) == Ok::<String, Seq<char>>(n),
            Err(e) => header_name_of(*a) == Err::<String, Seq<char>>(e@),
        },
{
    proof {
        reveal_strlit("expected string literal");
    }
    match &a.values {
        Err(e) => Err(e.clone()),
        Ok(vs) => {
            if vs.len() == 1 {
                match &vs[0] {
                    Lit::Str(s) => {
                        return Ok(s.clone());
                    },
                    _ => {},
                }
            }
            Err(string_of(&chars_of("expected string literal")))
        },
    }
}

/// Read field `f` (position `index`), whose key is `dname`.
pub fn parse_field<R>(f: &ParamsFieldInput<R>, index: usize, dname: &String) -> (r: Result<ParsedField, ParamsFault>)
    ensures
        match r {
            Ok(p) => parsed_field_of(*f, index as int, *dname) == Ok::<ParsedField, (ParamsSpan, Seq<char>)>(p),
            Err(e) => parsed_field_of(*f, index as int, *dname) == Err::<ParsedField, (ParamsSpan, Seq<char>)>(
                (e.at, e.message@),
            ),
        },
{
    proof {
        reveal_strlit("query");
        reveal_strlit("header");
        reveal_strlit("param");
        reveal_strlit("params");
        reveal_strlit("#[params] cannot be combined with #[param(path)], #[query], or #[header]");
        reveal_strlit(
            "#[serde(skip)] cannot be combined with #[query], #[header], #[param], or #[params] — a skipped field is never read from the request",
        );
        reveal_strlit(
            "#[serde(flatten)] cannot be combined with #[query], #[header] or #[param] — a flattened field is a nested parameter group, not a single parameter. Use #[params(prefix = \"...\")] to give it a prefix instead",
        );
    }
    let serde = parse_serde_field_attrs(&f.attrs);
    let ghost init = FieldWalk {
        source: None,
        default_value: serde.default_value,
        nested: None,
        r2e: false,
    };
    let SerdeFieldAttrs { rename: _, skip, flatten, default_value } = serde;
    let mut source: Option<ParamSource> = None;
    let mut dflt: Option<DefaultValue> = default_value;
    let mut nested: Option<NestedMode> = None;
    let mut r2e = false;
    let attrs = &f.attrs;
    let mut j: usize = 0;
    while j < attrs.len()
        invariant
            0 <= j <= attrs@.len(),
            attrs@ == f.attrs@,
            init == (FieldWalk {
                source: None,
                default_value: serde_field_of(f.attrs@).default_value,
                nested: None,
                r2e: false,
            }),
            walk_attrs(attrs@.take(j as int), init, *dname, f.name) == Ok::<FieldWalk, (int, Seq<char>)>(
                FieldWalk { source, default_value: dflt, nested, r2e },
            ),
        decreases attrs@.len() - j,
    {
        assert(attrs@.take(j + 1).drop_last() =~= attrs@.take(j as int));
        assert(attrs@.take(j + 1).last() == attrs@[j as int]);
        let a = &attrs[j];
        let step: Result<(), String> = if crate::attrs::is_named(a, "query") {
            match parse_name_attr(a) {
                Err(e) => Err(e),
                Ok(c) => {
                    source = Some(
                        ParamSource::Query {
                            name: match c {
                                Some(n) => n,
                                None => dname.clone(),
                            },
                        },
                    );
                    r2e = true;
                    Ok(())
                },
            }
        } else if crate::attrs::is_named(a, "header") {
            match header_name(a) {
                Err(e) => Err(e),
                Ok(n) => {
                    source = Some(ParamSource::Header { name: n });
                    r2e = true;
                    Ok(())
                },
            }
        } else if crate::attrs::is_named(a, "param") {
            match parse_param_options(a, j, dname) {
                Err(e) => Err(e),
                Ok(o) => {
                    let ParamOptions { source: os, default_value: od } = o;
                    match os {
                        Some(src) => {
                            source = Some(src);
                        },
                        None => {},
                    }
                    match od {
                        Some(d) => {
                            dflt = Some(d);
                        },
                        None => {},
                    }
                    r2e = true;
                    Ok(())
                },
            }
        } else if crate::attrs::is_named(a, "params") {
            match parse_nested_mode(a, &f.name) {
                Err(e) => Err(e),
                Ok(m) => {
                    nested = Some(m);
                    r2e = true;
                    Ok(())
                },
            }
        } else {
            Ok(())
        };
        match step {
            Ok(()) => {},
            Err(e) => {
                proof {
                    lemma_walk_stop(attrs@, init, *dname, f.name, j as int);
                }
                return Err(ParamsFault { at: ParamsSpan::FieldAttr { field: index, attr: j }, message: e });
            },
        }
        j = j + 1;
    }
    assert(attrs@.take(attrs@.len() as int) =~= attrs@);
    if nested.is_some() && source.is_some() {
        return Err(
            ParamsFault {
                at: ParamsSpan::Field(index),
                message: string_of(
                    &chars_of("#[params] cannot be combined with #[param(path)], #[query], or #[header]"),
                ),
            },
        );
    }
    if skip {
        if r2e {
            return Err(
                ParamsFault {
                    at: ParamsSpan::Field(index),
                    message: string_of(
                        &chars_of(
                            "#[serde(skip)] cannot be combined with #[query], #[header], #[param], or #[params] — a skipped field is never read from the request",
                        ),
                    ),
                },
            );
        }
        return Ok(ParsedField::Skipped);
    }
    if flatten && nested.is_none() {
        if r2e {
            return Err(
                ParamsFault {
                    at: ParamsSpan::Field(index),
                    message: string_of(
                        &chars_of(
                            "#[serde(flatten)] cannot be combined with #[query], #[header] or #[param] — a flattened field is a nested parameter group, not a single parameter. Use #[params(prefix = \"...\")] to give it a prefix instead",
                        ),
                    ),
                },
            );
        }
        nested = Some(NestedMode::Flatten);
    }
    match nested {
        Some(m) => Ok(ParsedField::Nested(m)),
        None => {
            let is_optional = crate::types::unwrap_option_type(&f.ty).is_some();
            let source = match source {
                Some(src) => src,
                None => ParamSource::Query { name: dname.clone() },
            };
            Ok(ParsedField::Param { source, is_optional, default_value: dflt })
        },
    }
}

/// The key of a field when nothing names it.
pub fn default_name<R>(f: &ParamsFieldInput<R>, style: Option<RenameAll>) -> (r: String)
    ensures
        r@ == default_name_of(*f, style),
{
    let serde = parse_serde_field_attrs(&f.attrs);
    match serde.rename {
        Some(r) => r,
        None => match style {
            Some(c) => c.apply(f.name.as_str()),
            None => f.name.clone(),
        },
    }
}

// ── the struct ──────────────────────────────────────────────────────────

/// The shape of the deriving type.
#[derive(Clone, Copy, PartialEq, Eq, Structural, Debug)]
pub enum ParamsShape {
    NamedStruct,
    OtherStruct,
    NotStruct,
}

pub open spec fn shape_fault(s: ParamsShape) -> Option<Seq<char>> {
    match s {
        ParamsShape::NamedStruct => None,
        ParamsShape::OtherStruct => Some("Params can only be derived for structs with named fields"@),
        ParamsShape::NotStruct => Some("Params can only be derived for structs"@),
    }
}

/// The `rename_all` convention the struct's attributes give, or the refusal
/// of an unknown spelling.
pub open spec fn style_of<R>(attrs: Seq<Attr<R>>) -> Result<Option<RenameAll>, Seq<char>> {
    match rename_all_spelling(attrs) {
        None => Ok(None),
        Some(s) => match crate::naming::rename_all_named(s@) {
            Some(c) => Ok(Some(c)),
            None => Err(crate::naming::rename_all_refusal(s@)),
        },
    }
}

/// Field `f` (position `i`) reads under the convention.
pub open spec fn field_reads<R>(f: ParamsFieldInput<R>, i: int, style: Option<RenameAll>) -> bool {
    exists|d: String| d@ == default_name_of(f, style) && #[trigger] parsed_field_of(f, i, d) is Ok
}

/// The plan of a `Params` struct.
pub struct ParamsPlan {
    pub rename_all: Option<RenameAll>,
    /// Each field's key when nothing names it.
    pub default_names: Vec<String>,
    /// How each field is read.
    pub fields: Vec<ParsedField>,
    /// Some field is a path parameter: the raw path parameters are extracted.
    pub has_path: bool,
    /// Some field is a query parameter or a nested group: the query is parsed.
    pub needs_query: bool,
}

pub open spec fn is_path_param(p: ParsedField) -> bool {
    p matches ParsedField::Param { source: ParamSource::Path { .. }, .. }
}

pub open spec fn is_query_param(p: ParsedField) -> bool {
    p matches ParsedField::Param { source: ParamSource::Query { .. }, .. }
}

/// Plan a `Params` struct: named fields only; the `rename_all` convention
/// must be known; each field, in order, must read.
pub fn plan_params<R>(attrs: &Vec<Attr<R>>, shape: ParamsShape, fields: &Vec<ParamsFieldInput<R>>) -> (r: Result<
    ParamsPlan,
    ParamsFault,
>)
    ensures
        match r {
            Ok(p) => shape_fault(shape) is None && style_of(attrs@) == Ok::<
                Option<RenameAll>,
                Seq<char>,
            >(p.rename_all) && p.fields@.len() == fields@.len() && p.default_names@.len()
                == fields@.len() && (forall|i: int|
                0 <= i < fields@.len() ==> (#[trigger] p.default_names@[i])@ == default_name_of(
                    fields@[i],
                    p.rename_all,
                )) && (forall|i: int|
                0 <= i < fields@.len() ==> parsed_field_of(fields@[i], i, p.default_names@[i]) == Ok::<
                    ParsedField,
                    (ParamsSpan, Seq<char>),
                >(#[trigger] p.fields@[i])) && p.has_path == (exists|i: int|
                0 <= i < fields@.len() && is_path_param(#[trigger] p.fields@[i])) && p.needs_query == (
            exists|i: int|
                0 <= i < fields@.len() && (is_query_param(#[trigger] p.fields@[i])
                    || p.fields@[i] is Nested)),
            Err(e) => match shape_fault(shape) {
                Some(m) => e.at == ParamsSpan::Type && e.message@ == m,
                None => match style_of(attrs@) {
                    Err(m) => e.at == ParamsSpan::TypeAttrs && e.message@ == m,
                    Ok(style) => exists|i: int, d: String|
                        0 <= i < fields@.len() && (forall|k: int|
                            0 <= k < i ==> #[trigger] field_reads(fields@[k], k, style)) && d@
                            == default_name_of(fields@[i], style) && #[trigger] parsed_field_of(
                            fields@[i],
                            i,
                            d,
                        ) == Err::<ParsedField, (ParamsSpan, Seq<char>)>((e.at, e.message@)),
                },
            },
        },
{
    proof {
        reveal_strlit("Params can only be derived for structs with named fields");
        reveal_strlit("Params can only be derived for structs");
    }
    match shape {
        ParamsShape::NamedStruct => {},
        ParamsShape::OtherStruct => {
            return Err(
                ParamsFault {
                    at: ParamsSpan::Type,
                    message: string_of(&chars_of("Params can only be derived for structs with named fields")),
                },
            );
        },
        ParamsShape::NotStruct => {
            return Err(
                ParamsFault {
                    at: ParamsSpan::Type,
                    message: string_of(&chars_of("Params can only be derived for structs")),
                },
            );
        },
    }
    let style = match parse_serde_rename_all(attrs) {
        Ok(s) => s,
        Err(e) => {
            return Err(ParamsFault { at: ParamsSpan::TypeAttrs, message: e });
        },
    };
    assert(style_of(attrs@) == Ok::<Option<RenameAll>, Seq<char>>(style));
    let mut names: Vec<String> = Vec::new();
    let mut out: Vec<ParsedField> = Vec::new();
    let mut has_path = false;
    let mut needs_query = false;
    let mut i: usize = 0;
    while i < fields.len()
        invariant
            0 <= i <= fields@.len(),
            shape == ParamsShape::NamedStruct,
            style_of(attrs@) == Ok::<Option<RenameAll>, Seq<char>>(style),
            out@.len() == i,
            names@.len() == i,
            forall|k: int| 0 <= k < i ==> (#[trigger] names@[k])@ == default_name_of(fields@[k], style),
            forall|k: int|
                0 <= k < i ==> parsed_field_of(fields@[k], k, names@[k]) == Ok::<
                    ParsedField,
                    (ParamsSpan, Seq<char>),
                >(#[trigger] out@[k]),
            has_path == (exists|k: int| 0 <= k < i && is_path_param(#[trigger] out@[k])),
            needs_query == (exists|k: int|
                0 <= k < i && (is_query_param(#[trigger] out@[k]) || out@[k] is Nested)),
        decreases fields@.len() - i,
    {
        let d = default_name(&fields[i], style);
        match parse_field(&fields[i], i, &d) {
            Ok(p) => {
                let ghost before = out@;
                let ghost names_before = names@;
                let ghost pv = p;
                let ghost dv = d;
                let pp = match &p {
                    ParsedField::Param { source: ParamSource::Path { .. }, .. } => true,
                    _ => false,
                };
                let pq = match &p {
                    ParsedField::Param { source: ParamSource::Query { .. }, .. } => true,
                    ParsedField::Nested(_) => true,
                    _ => false,
                };
                out.push(p);
                names.push(d);
                proof {
                    assert forall|k: int| 0 <= k < i implies out@[k] == before[k] && names@[k]
                        == names_before[k] by {}
                    assert(out@[i as int] == pv && names@[i as int] == dv);
                    assert forall|k: int| 0 <= k < i + 1 implies (#[trigger] names@[k])@ == default_name_of(
                        fields@[k],
                        style,
                    ) by {
                        if k < i {
                            assert(names@[k] == names_before[k]);
                        }
                    }
                    assert forall|k: int| 0 <= k < i + 1 implies parsed_field_of(fields@[k], k, names@[k])
                        == Ok::<ParsedField, (ParamsSpan, Seq<char>)>(#[trigger] out@[k]) by {
                        if k < i {
                            assert(out@[k] == before[k]);
                            assert(names@[k] == names_before[k]);
                        }
                    }
                    if has_path {
                        let w = choose|k: int| 0 <= k < i && is_path_param(#[trigger] before[k]);
                        assert(is_path_param(out@[w]));
                    }
                    if pp {
                        assert(is_path_param(out@[i as int]));
                    }
                    if needs_query {
                        let w = choose|k: int|
                            0 <= k < i && (is_query_param(#[trigger] before[k]) || before[k] is Nested);
                        assert(is_query_param(out@[w]) || out@[w] is Nested);
                    }
                    if pq {
                        assert(is_query_param(out@[i as int]) || out@[i as int] is Nested);
                    }
                }
                has_path = has_path || pp;
                needs_query = needs_query || pq;
            },
            Err(e) => {
                proof {
                    assert forall|k: int| 0 <= k < i implies #[trigger] field_reads(fields@[k], k, style) by {
                        assert(names@[k]@ == default_name_of(fields@[k], style));
                        assert(parsed_field_of(fields@[k], k, names@[k]) == Ok::<
                            ParsedField,
                            (ParamsSpan, Seq<char>),
                        >(out@[k]));
                    }
                }
                return Err(e);
            },
        }
        i = i + 1;
    }
    Ok(ParamsPlan { rename_all: style, default_names: names, fields: out, has_path, needs_query })
}

// ── metadata and messages ───────────────────────────────────────────────

/// Where a documented parameter lives.
#[derive(Clone, Copy, PartialEq, Eq, Structural, Debug)]
pub enum ParamLocation {
    Path,
    Query,
    Header,
}

/// The documented form of a single parameter.
pub struct ParamInfo {
    pub name: String,
    pub location: ParamLocation,
    /// The OpenAPI type of the field's type (inside `Option`).
    pub openapi: &'static str,
    /// Neither optional nor defaulted.
    pub required: bool,
}

/// The documented form of a field read as a single parameter of type `ty`.
pub fn param_info(field: &ParsedField, ty: &Ty) -> (r: Option<ParamInfo>)
    ensures
        match r {
            Some(info) => field matches ParsedField::Param { source, is_optional, default_value } && info.name
                == match source {
                ParamSource::Path { name } => name,
                ParamSource::Query { name } => name,
                ParamSource::Header { name } => name,
            } && info.location == match source {
                ParamSource::Path { .. } => ParamLocation::Path,
                ParamSource::Query { .. } => ParamLocation::Query,
                ParamSource::Header { .. } => ParamLocation::Header,
            } && info.openapi@ == param_openapi_of(*ty) && info.required == (is_optional == false
                && default_value is None),
            None => !(field is Param),
        },
{
    match field {
        ParsedField::Param { source, is_optional, default_value } => {
            let (name, location) = match source {
                ParamSource::Path { name } => (name.clone(), ParamLocation::Path),
                ParamSource::Query { name } => (name.clone(), ParamLocation::Query),
                ParamSource::Header { name } => (name.clone(), ParamLocation::Header),
            };
            Some(
                ParamInfo {
                    name,
                    location,
                    openapi: crate::types::rust_type_to_openapi_str(ty),
                    required: !*is_optional && default_value.is_none(),
                },
            )
        },
        _ => None,
    }
}

/// The error text of a missing required path parameter or header, fixed at
/// expansion time (`None` for a query parameter, whose key is prefixed at run
/// time).
pub open spec fn missing_text(source: ParamSource) -> Option<Seq<char>> {
    match source {
        ParamSource::Path { name } => Some("Missing path parameter '"@ + name@ + "'"@),
        ParamSource::Header { name } => Some("Missing required header '"@ + name@ + "'"@),
        ParamSource::Query { .. } => None,
    }
}

/// The message for a missing path parameter or header.
pub fn missing_message(source: &ParamSource) -> (r: Option<String>)
    ensures
        match r {
            Some(m) => missing_text(*source) == Some(m@),
            None => missing_text(*source) is None,
        },
{
    match source {
        ParamSource::Path { name } => Some(crate::attrs::framed("Missing path parameter '", name.as_str(), "'")),
        ParamSource::Header { name } => Some(
            crate::attrs::framed("Missing required header '", name.as_str(), "'"),
        ),
        ParamSource::Query { .. } => None,
    }
}


/// What the generated extractor does when a single parameter is absent.
pub enum OnMissing<'a> {
    /// The field is an `Option`: `None`.
    Nothing,
    /// `Default::default()`.
    Default,
    /// The `default = <expr>` expression, converted with `.into()`.
    Expr { attr: usize, arg: usize },
    /// The `#[serde(default = "path")]` function, called.
    Fn(&'a String),
    /// The request is refused; the message is fixed here for a path
    /// parameter or a header, and built at run time from the prefixed key for
    /// a query parameter (`None`).
    Refuse(Option<String>),
}

/// How the generated extractor reads one single-parameter field: under which
/// name and where, whether the query prefix applies (query parameters only),
/// what an absent value becomes, and the fixed messages of an unparsable
/// value and of a header that is not UTF-8 (`None` where the message is
/// built at run time, or does not apply).
pub struct FieldConstruction<'a> {
    pub name: &'a String,
    pub location: ParamLocation,
    pub prefixed: bool,
    pub optional: bool,
    pub on_missing: OnMissing<'a>,
    pub parse_error: Option<String>,
    pub utf8_error: Option<String>,
}

pub open spec fn source_name(source: ParamSource) -> String {
    match source {
        ParamSource::Path { name } => name,
        ParamSource::Query { name } => name,
        ParamSource::Header { name } => name,
    }
}

/// The fixed text of an unparsable path parameter or header.
pub open spec fn parse_error_text(source: ParamSource) -> Option<Seq<char>> {
    match source {
        ParamSource::Path { name } => Some("Invalid path parameter '"@ + name@ + "': parse error"@),
        ParamSource::Header { name } => Some("Invalid header '"@ + name@ + "': parse error"@),
        ParamSource::Query { .. } => None,
    }
}

/// The fixed text of a header that is not UTF-8.
pub open spec fn utf8_error_text(source: ParamSource) -> Option<Seq<char>> {
    match source {
        ParamSource::Header { name } => Some("Invalid header '"@ + name@ + "': not valid UTF-8"@),
        _ => None,
    }
}

pub open spec fn opt_text(o: Option<String>) -> Option<Seq<char>> {
    match o {
        Some(s) => Some(s@),
        None => None,
    }
}

/// How a single-parameter field is constructed; `None` for a nested or
/// skipped field.
pub fn plan_field_construction<'a>(field: &'a ParsedField) -> (r: Option<FieldConstruction<'a>>)
    ensures
        match r {
            None => !(field is Param),
            Some(c) => *field matches ParsedField::Param { source, is_optional, default_value } && {
                &&& *c.name == source_name(source)
                &&& c.location == match source {
                    ParamSource::Path { .. } => ParamLocation::Path,
                    ParamSource::Query { .. } => ParamLocation::Query,
                    ParamSource::Header { .. } => ParamLocation::Header,
                }
                &&& c.prefixed == (source is Query)
                &&& c.optional == is_optional
                &&& opt_text(c.parse_error) == parse_error_text(source)
                &&& opt_text(c.utf8_error) == utf8_error_text(source)
                &&& if is_optional {
                    c.on_missing is Nothing
                } else {
                    match default_value {
                        Some(DefaultValue::Trait) => c.on_missing is Default,
                        Some(DefaultValue::Expr { attr, arg }) => c.on_missing == (OnMissing::Expr {
                            attr,
                            arg,
                        }),
                        Some(DefaultValue::Fn(f)) => c.on_missing matches OnMissing::Fn(g) && *g == f,
                        None => c.on_missing matches OnMissing::Refuse(m) && opt_text(m) == missing_text(
                            source,
                        ),
                    }
                }
            },
        },
{
    match field {
        ParsedField::Param { source, is_optional, default_value } => {
            let (name, location) = match source {
                ParamSource::Path { name } => (name, ParamLocation::Path),
                ParamSource::Query { name } => (name, ParamLocation::Query),
                ParamSource::Header { name } => (name, ParamLocation::Header),
            };
            let parse_error = match source {
                ParamSource::Path { name } => Some(framed("Invalid path parameter '", name.as_str(), "': parse error")),
                ParamSource::Header { name } => Some(framed("Invalid header '", name.as_str(), "': parse error")),
                ParamSource::Query { .. } => None,
            };
            let utf8_error = match source {
                ParamSource::Header { name } => Some(framed("Invalid header '", name.as_str(), "': not valid UTF-8")),
                _ => None,
            };
            let on_missing = if *is_optional {
                OnMissing::Nothing
            } else {
                match default_value {
                    Some(DefaultValue::Trait) => OnMissing::Default,
                    Some(DefaultValue::Expr { attr, arg }) => OnMissing::Expr { attr: *attr, arg: *arg },
                    Some(DefaultValue::Fn(f)) => OnMissing::Fn(f),
                    None => OnMissing::Refuse(missing_message(source)),
                }
            };
            let prefixed = match source {
                ParamSource::Query { .. } => true,
                _ => false,
            };
            Some(
                FieldConstruction {
                    name,
                    location,
                    prefixed,
                    optional: *is_optional,
                    on_missing,
                    parse_error,
                    utf8_error,
                },
            )
        },
        _ => None,
    }
}

} // verus!
