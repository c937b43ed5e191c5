//! The `ConfigProperties` derive: reading `#[config(...)]` on structs, fields,
//! enums and variants, the rules that reject a combination, and the plan
//! from which the resolution code and the property metadata are emitted.

use vstd::prelude::*;

use crate::attrs::{any_named, key_is, named, Attr, Lit, MetaArg, MetaValue};
use crate::text::{chars_of, push_str, str_is, string_of};
use crate::types::{string_map_value, string_map_value_type, unwrap_named, wrapped_in, Ty};

verus! {

/// `default = <expr>`: where it is written (attribute and argument
/// positions), the text the metadata shows (a string literal's value, else
/// the expression's rendering).
pub struct DefaultValue {
    pub attr: usize,
    pub arg: usize,
    pub shown: String,
}

/// The field-level `#[config(...)]` arguments.
pub struct FieldConfig {
    pub default: Option<DefaultValue>,
    /// Some `default = "..."` was a string literal (needs `.into()`).
    pub default_is_str_lit: bool,
    /// A bare `default`: `Default::default()` for an absent section.
    pub default_flag: bool,
    pub key: Option<String>,
    pub section: bool,
    pub env: Option<String>,
    pub skip: bool,
}

pub open spec fn no_config() -> FieldConfig {
    FieldConfig {
        default: None,
        default_is_str_lit: false,
        default_flag: false,
        key: None,
        section: false,
        env: None,
        skip: false,
    }
}

pub open spec fn field_key_msg() -> Seq<char> {
    "expected `default`, `key`, `section`, `env`, or `skip` in #[config(...)]"@
}

/// A string argument `key = "..."`, with the parser's diagnostics.
pub open spec fn string_value(a: MetaArg) -> Result<String, Seq<char>> {
    match a.value {
        MetaValue::Eq(Lit::Str(s)) => Ok(s),
        MetaValue::Eq(_) => Err("expected string literal"@),
        _ => Err("expected `=`"@),
    }
}

/// A flag argument: bare, or the parser stops at what follows it.
pub open spec fn flag_value(a: MetaArg) -> Result<(), Seq<char>> {
    match a.value {
        MetaValue::Bare => Ok(()),
        _ => Err("expected `,`"@),
    }
}

/// Applies argument `a` (argument `k` of attribute `i`) of a field's
/// `#[config(...)]`.
pub open spec fn field_arg_step(st: FieldConfig, a: MetaArg, i: int, k: int) -> Result<FieldConfig, Seq<char>> {
    if key_is(a, "default"@) {
        match a.value {
            MetaValue::Bare => Ok(FieldConfig { default_flag: true, ..st }),
            MetaValue::Eq(l) => Ok(
                FieldConfig {
                    default: Some(
                        DefaultValue {
                            attr: i as usize,
                            arg: k as usize,
                            shown: match l {
                                Lit::Str(s) => s,
                                _ => a.rendered,
                            },
                        },
                    ),
                    default_is_str_lit: st.default_is_str_lit || l is Str,
                    ..st
                },
            ),
            MetaValue::List(_) => Err("expected `,`"@),
        }
    } else if key_is(a, "key"@) {
        match string_value(a) {
            Ok(s) => Ok(FieldConfig { key: Some(s), ..st }),
            Err(e) => Err(e),
        }
    } else if key_is(a, "section"@) {
        match flag_value(a) {
            Ok(()) => Ok(FieldConfig { section: true, ..st }),
            Err(e) => Err(e),
        }
    } else if key_is(a, "env"@) {
        match string_value(a) {
            Ok(s) => Ok(FieldConfig { env: Some(s), ..st }),
            Err(e) => Err(e),
        }
    } else if key_is(a, "skip"@) {
        match flag_value(a) {
            Ok(()) => Ok(FieldConfig { skip: true, ..st }),
            Err(e) => Err(e),
        }
    } else {
        Err(field_key_msg())
    }
}

/// Applies the arguments of attribute `i` in order.
pub open spec fn field_args(st: FieldConfig, ms: Seq<MetaArg>, i: int) -> Result<FieldConfig, Seq<char>>
    decreases ms.len(),
{
    if ms.len() == 0 {
        Ok(st)
    } else {
        match field_args(st, ms.drop_last(), i) {
            Err(e) => Err(e),
            Ok(s2) => field_arg_step(s2, ms.last(), i, ms.len() - 1),
        }
    }
}

/// Applies every `#[config(...)]` of a field, in order.
pub open spec fn field_config_of<R>(attrs: Seq<Attr<R>>) -> Result<FieldConfig, Seq<char>>
    decreases attrs.len(),
{
    if attrs.len() == 0 {
        Ok(no_config())
    } else {
        match field_config_of(attrs.drop_last()) {
            Err(e) => Err(e),
            Ok(st) => {
                let a = attrs.last();
                if named(a, "config"@) {
                    match a.meta {
                        Err(e) => Err(e@),
                        Ok(ms) => field_args(st, ms@, attrs.len() - 1),
                    }
                } else {
                    Ok(st)
                }
            },
        }
    }
}

fn string_value_of(a: &MetaArg) -> (r: Result<String, String>)
    ensures
        match r {
            Ok(s) => string_value(*a) == Ok::<String, Seq<char>>(s),
            Err(e) => string_value(*a) == Err::<String, Seq<char>>(e@),
        },
{
    proof {
        reveal_strlit("expected string literal");
        reveal_strlit("expected `=`");
    }
    match &a.value {
        MetaValue::Eq(Lit::Str(s)) => Ok(s.clone()),
        MetaValue::Eq(_) => Err(string_of(&chars_of("expected string literal"))),
        _ => Err(string_of(&chars_of("expected `=`"))),
    }
}

fn flag_value_of(a: &MetaArg) -> (r: Result<(), String>)
    ensures
        match r {
            Ok(()) => flag_value(*a) == Ok::<(), Seq<char>>(()),
            Err(e) => flag_value(*a) == Err::<(), Seq<char>>(e@),
        },
{
    proof {
        reveal_strlit("expected `,`");
    }
    match &a.value {
        MetaValue::Bare => Ok(()),
        _ => Err(string_of(&chars_of("expected `,`"))),
    }
}

proof fn lemma_field_args_stop(st: FieldConfig, ms: Seq<MetaArg>, i: int, k: int)
    requires
        0 <= k < ms.len(),
        field_args(st, ms.take(k + 1), i) is Err,
    ensures
        field_args(st, ms, i) == field_args(st, ms.take(k + 1), i),
    decreases ms.len() - k,
{
    if k + 1 == ms.len() {
        assert(ms.take(k + 1) =~= ms);
    } else {
        assert(ms.drop_last().take(k + 1) =~= ms.take(k + 1));
        lemma_field_args_stop(st, ms.drop_last(), i, k);
    }
}

proof fn lemma_field_config_stop<R>(attrs: Seq<Attr<R>>, i: int)
    requires
        0 <= i < attrs.len(),
        field_config_of(attrs.take(i + 1)) is Err,
    ensures
        field_config_of(attrs) == field_config_of(attrs.take(i + 1)),
    decreases attrs.len() - i,
{
    if i + 1 == attrs.len() {
        assert(attrs.take(i + 1) =~= attrs);
    } else {
        assert(attrs.drop_last().take(i + 1) =~= attrs.take(i + 1));
        lemma_field_config_stop(attrs.drop_last(), i);
    }
}

/// Read the `#[config(...)]` arguments of a field.
pub fn extract_field_config<R>(attrs: &Vec<Attr<R>>) -> (r: Result<FieldConfig, String>)
    ensures
        match r {
            Ok(c) => field_config_of(attrs@) == Ok::<FieldConfig, Seq<char>>(c),
            Err(e) => field_config_of(attrs@) == Err::<FieldConfig, Seq<char>>(e@),
        },
{
    proof {
        reveal_strlit("default");
        reveal_strlit("key");
        reveal_strlit("section");
        reveal_strlit("env");
        reveal_strlit("skip");
        reveal_strlit("config");
        reveal_strlit("expected `,`");
        reveal_strlit("expected `default`, `key`, `section`, `env`, or `skip` in #[config(...)]");
    }
    let mut st = FieldConfig {
        default: None,
        default_is_str_lit: false,
        default_flag: false,
        key: None,
        section: false,
        env: None,
        skip: false,
    };
    let mut i: usize = 0;
    while i < attrs.len()
        invariant
            0 <= i <= attrs@.len(),
            field_config_of(attrs@.take(i as int)) == Ok::<FieldConfig, Seq<char>>(st),
        decreases attrs@.len() - i,
    {
        assert(attrs@.take(i + 1).drop_last() =~= attrs@.take(i as int));
        assert(attrs@.take(i + 1).last() == attrs@[i as int]);
        let a = &attrs[i];
        if crate::attrs::is_named(a, "config") {
            match &a.meta {
                Err(e) => {
                    proof {
                        lemma_field_config_stop(attrs@, i as int);
                    }
                    return Err(e.clone());
                },
                Ok(ms) => {
                    let ghost st0 = st;
                    let mut k: usize = 0;
                    while k < ms.len()
                        invariant
                            0 <= k <= ms@.len(),
                            0 <= i < attrs@.len(),
                            named(attrs@[i as int], "config"@),
                            attrs@[i as int].meta == Ok::<Vec<MetaArg>, String>(*ms),
                            attrs@.take(i + 1).drop_last() == attrs@.take(i as int),
                            attrs@.take(i + 1).last() == attrs@[i as int],
                            field_config_of(attrs@.take(i as int)) == Ok::<FieldConfig, Seq<char>>(st0),
                            field_args(st0, ms@.take(k as int), i as int) == Ok::<FieldConfig, Seq<char>>(st),
                        decreases ms@.len() - k,
                    {
                        assert(ms@.take(k + 1).drop_last() =~= ms@.take(k as int));
                        assert(ms@.take(k + 1).last() == ms@[k as int]);
                        let m = &ms[k];
                        let step: Result<(), String> = if str_is(m.key.as_str(), "default") {
                            match &m.value {
                                MetaValue::Bare => {
                                    st.default_flag = true;
                                    Ok(())
                                },
                                MetaValue::Eq(l) => {
                                    let (shown, is_str) = match l {
                                        Lit::Str(s) => (s.clone(), true),
                                        _ => (m.rendered.clone(), false),
                                    };
                                    st.default = Some(DefaultValue { attr: i, arg: k, shown });
                                    st.default_is_str_lit = st.default_is_str_lit || is_str;
                                    Ok(())
                                },
                                MetaValue::List(_) => Err(string_of(&chars_of("expected `,`"))),
                            }
                        } else if str_is(m.key.as_str(), "key") {
                            match string_value_of(m) {
                                Ok(s) => {
                                    st.key = Some(s);
                                    Ok(())
                                },
                                Err(e) => Err(e),
                            }
                        } else if str_is(m.key.as_str(), "section") {
                            match flag_value_of(m) {
                                Ok(()) => {
                                    st.section = true;
                                    Ok(())
                                },
                                Err(e) => Err(e),
                            }
                        } else if str_is(m.key.as_str(), "env") {
                            match string_value_of(m) {
                                Ok(s) => {
                                    st.env = Some(s);
                                    Ok(())
                                },
                                Err(e) => Err(e),
                            }
                        } else if str_is(m.key.as_str(), "skip") {
                            match flag_value_of(m) {
                                Ok(()) => {
                                    st.skip = true;
                                    Ok(())
                                },
                                Err(e) => Err(e),
                            }
                        } else {
                            Err(
                                string_of(
                                    &chars_of(
                                        "expected `default`, `key`, `section`, `env`, or `skip` in #[config(...)]",
                                    ),
                                ),
                            )
                        };
                        match step {
                            Ok(()) => {},
                            Err(e) => {
                                proof {
                                    lemma_field_args_stop(st0, ms@, i as int, k as int);
                                    lemma_field_config_stop(attrs@, i as int);
                                }
                                return Err(e);
                            },
                        }
                        k = k + 1;
                    }
                    assert(ms@.take(ms@.len() as int) =~= ms@);
                },
            }
        }
        i = i + 1;
    }
    assert(attrs@.take(attrs@.len() as int) =~= attrs@);
    Ok(st)
}

// ── struct fields ───────────────────────────────────────────────────────

/// How `from_config` obtains a field.
#[derive(Clone, Copy, PartialEq, Eq, Structural, Debug)]
pub enum FieldInit {
    /// `#[config(skip)]`: `Default::default()`, never read.
    Skipped,
    /// A `HashMap`/`BTreeMap<String, T>` section: one entry per sub-key;
    /// optional: `None` when nothing lives under the prefix.
    MapSection { optional: bool },
    /// `Option<T>` section: `None` when nothing lives under the prefix, an
    /// error when something does and it does not read.
    OptionalSection,
    /// `#[config(section, default)]`: `Default::default()` for an absent section.
    DefaultedSection,
    /// A required section.
    Section,
    /// A value: the configuration key first, then the environment variable
    /// (if `env`), then the default (if `default`); when all are absent,
    /// `None` if `optional`, else a not-found error.
    Value { optional: bool, env: bool, default: bool },
}

/// Where a refusal is reported.
#[derive(Clone, Copy, PartialEq, Eq, Structural, Debug)]
pub enum ConfigSpan {
    /// The type's name.
    Type,
    /// An argument of the type's `#[config(...)]`.
    TypeAttrs,
    /// The field at this position.
    Field(usize),
    /// An argument of that field's `#[config(...)]`.
    FieldAttrs(usize),
    /// The variant at this position.
    Variant(usize),
    /// An argument of that variant's `#[config(...)]`.
    VariantAttrs(usize),
}

/// Why the derive refuses the type.
pub struct ConfigFault {
    pub at: ConfigSpan,
    pub message: String,
}

/// One named field of the struct.
pub struct ConfigFieldInput<R> {
    pub name: String,
    pub ty: Ty,
    pub attrs: Vec<Attr<R>>,
}

/// What the derive emits for one field.
pub struct ConfigFieldPlan {
    pub config: FieldConfig,
    /// The field's type is `Option<T>`.
    pub is_option: bool,
    /// A section whose type (inside `Option`) is a map keyed by `String`.
    pub is_map_section: bool,
    pub init: FieldInit,
    /// The key it is read under: `#[config(key = ...)]` or the field's name.
    pub key: String,
    /// Shown as required in the metadata.
    pub required: bool,
    /// Carries a `#[validate(...)]`.
    pub has_validate: bool,
    /// The doc comment, lines trimmed and joined by spaces.
    pub doc: Option<String>,
    /// The type's short name for the metadata.
    pub short_type: String,
}

pub open spec fn is_opt(t: Ty) -> bool {
    wrapped_in(t, "Option"@) is Some
}

/// The type a section is read as: inside `Option` for an optional field.
pub open spec fn section_ty(t: Ty) -> Ty {
    match wrapped_in(t, "Option"@) {
        Some(inner) => inner,
        None => t,
    }
}

pub open spec fn skip_combined_msg() -> Seq<char> {
    "#[config(skip)] cannot be combined with other #[config(...)] attributes"@
}

pub open spec fn bare_default_msg() -> Seq<char> {
    "#[config(default)] without a value is only supported on #[config(section)] fields (uses Default::default() when the section is absent)"@
}

pub open spec fn option_default_msg() -> Seq<char> {
    "#[config(section, default)] cannot be used on Option fields — an absent optional section is already None"@
}

/// The refusal of a field's combination of arguments.
pub open spec fn combination_fault(c: FieldConfig, is_option: bool) -> Option<Seq<char>> {
    if c.skip && (c.section || c.default_flag || c.default is Some || c.key is Some || c.env is Some) {
        Some(skip_combined_msg())
    } else if c.default_flag && !c.section {
        Some(bare_default_msg())
    } else if c.default_flag && is_option {
        Some(option_default_msg())
    } else {
        None
    }
}

/// How a field is obtained.
pub open spec fn init_of(c: FieldConfig, t: Ty) -> FieldInit {
    if c.skip {
        FieldInit::Skipped
    } else if c.section {
        if string_map_value(section_ty(t)) is Some {
            FieldInit::MapSection { optional: is_opt(t) }
        } else if is_opt(t) {
            FieldInit::OptionalSection
        } else if c.default_flag {
            FieldInit::DefaultedSection
        } else {
            FieldInit::Section
        }
    } else {
        FieldInit::Value { optional: is_opt(t), env: c.env is Some, default: c.default is Some }
    }
}

/// The plan of field `f` (at position `i`), or its refusal.
pub open spec fn field_outcome<R>(f: ConfigFieldInput<R>, i: int) -> Result<FieldConfig, (ConfigSpan, Seq<char>)> {
    match field_config_of(f.attrs@) {
        Err(e) => Err((ConfigSpan::FieldAttrs(i as usize), e)),
        Ok(c) => match combination_fault(c, is_opt(f.ty)) {
            Some(m) => Err((ConfigSpan::Field(i as usize), m)),
            None => Ok(c),
        },
    }
}

/// `p` is the plan of field `f` with configuration `c`.
pub open spec fn plans<R>(f: ConfigFieldInput<R>, c: FieldConfig, p: ConfigFieldPlan) -> bool {
    &&& p.config == c
    &&& p.is_option == is_opt(f.ty)
    &&& p.is_map_section == (c.section && string_map_value(section_ty(f.ty)) is Some)
    &&& p.init == init_of(c, f.ty)
    &&& p.key == match c.key {
        Some(k) => k,
        None => f.name,
    }
    &&& p.required == (!is_opt(f.ty) && c.default is None && !c.section)
    &&& p.has_validate == crate::attrs::has_named(f.attrs@, "validate"@)
    &&& crate::extract::docs::opt_chars(p.doc) == crate::extract::docs::field_doc(
        crate::extract::docs::doc_lines(f.attrs@),
    )
    &&& p.short_type@ == crate::types::simple_type_name(f.ty)
}

/// Plan one field (at position `index`): read its `#[config(...)]`, refuse
/// the combinations that make no sense, and decide how it is obtained.
pub fn plan_config_field<R>(f: &ConfigFieldInput<R>, index: usize) -> (r: Result<ConfigFieldPlan, ConfigFault>)
    ensures
        match r {
            Ok(p) => field_outcome(*f, index as int) == Ok::<FieldConfig, (ConfigSpan, Seq<char>)>(p.config)
                && plans(*f, p.config, p),
            Err(e) => field_outcome(*f, index as int) == Err::<FieldConfig, (ConfigSpan, Seq<char>)>(
                (e.at, e.message@),
            ),
        },
{
    proof {
        reveal_strlit("#[config(skip)] cannot be combined with other #[config(...)] attributes");
        reveal_strlit(
            "#[config(default)] without a value is only supported on #[config(section)] fields (uses Default::default() when the section is absent)",
        );
        reveal_strlit(
            "#[config(section, default)] cannot be used on Option fields — an absent optional section is already None",
        );
    }
    let c = match extract_field_config(&f.attrs) {
        Ok(c) => c,
        Err(e) => {
            return Err(ConfigFault { at: ConfigSpan::FieldAttrs(index), message: e });
        },
    };
    let inner = unwrap_named(&f.ty, "Option");
    let is_option = inner.is_some();
    if c.skip && (c.section || c.default_flag || c.default.is_some() || c.key.is_some() || c.env.is_some()) {
        return Err(
            ConfigFault {
                at: ConfigSpan::Field(index),
                message: string_of(
                    &chars_of("#[config(skip)] cannot be combined with other #[config(...)] attributes"),
                ),
            },
        );
    }
    if c.default_flag && !c.section {
        return Err(
            ConfigFault {
                at: ConfigSpan::Field(index),
                message: string_of(
                    &chars_of(
                        "#[config(default)] without a value is only supported on #[config(section)] fields (uses Default::default() when the section is absent)",
                    ),
                ),
            },
        );
    }
    if c.default_flag && is_option {
        return Err(
            ConfigFault {
                at: ConfigSpan::Field(index),
                message: string_of(
                    &chars_of(
                        "#[config(section, default)] cannot be used on Option fields — an absent optional section is already None",
                    ),
                ),
            },
        );
    }
    let sty = match inner {
        Some(t) => t,
        None => &f.ty,
    };
    let is_map = string_map_value_type(sty).is_some();
    let is_map_section = c.section && is_map;
    let init = if c.skip {
        FieldInit::Skipped
    } else if c.section {
        if is_map {
            FieldInit::MapSection { optional: is_option }
        } else if is_option {
            FieldInit::OptionalSection
        } else if c.default_flag {
            FieldInit::DefaultedSection
        } else {
            FieldInit::Section
        }
    } else {
        FieldInit::Value { optional: is_option, env: c.env.is_some(), default: c.default.is_some() }
    };
    let key = match &c.key {
        Some(k) => k.clone(),
        None => f.name.clone(),
    };
    let required = !is_option && c.default.is_none() && !c.section;
    let has_validate = any_named(&f.attrs, "validate");
    let doc = crate::extract::docs::extract_doc_comment(&f.attrs);
    let short_type = crate::types::type_name_str(&f.ty);
    Ok(
        ConfigFieldPlan {
            config: c,
            is_option,
            is_map_section,
            init,
            key,
            required,
            has_validate,
            doc,
            short_type,
        },
    )
}

// ── the struct ──────────────────────────────────────────────────────────

pub open spec fn prefix_key_msg() -> Seq<char> {
    "expected `prefix` in #[config(prefix = \"...\")]"@
}

/// The accepted struct-level `#[config(prefix = "...")]`, kept for
/// compatibility and ignored: the refusal of its arguments, if any.
pub open spec fn prefix_args_fault(ms: Seq<MetaArg>) -> Option<Seq<char>>
    decreases ms.len(),
{
    if ms.len() == 0 {
        None
    } else {
        match prefix_args_fault(ms.drop_last()) {
            Some(e) => Some(e),
            None => {
                let a = ms.last();
                if key_is(a, "prefix"@) {
                    match string_value(a) {
                        Ok(_) => None,
                        Err(e) => Some(e),
                    }
                } else {
                    Some(prefix_key_msg())
                }
            },
        }
    }
}

pub open spec fn prefix_fault<R>(attrs: Seq<Attr<R>>) -> Option<Seq<char>>
    decreases attrs.len(),
{
    if attrs.len() == 0 {
        None
    } else {
        match prefix_fault(attrs.drop_last()) {
            Some(e) => Some(e),
            None => {
                let a = attrs.last();
                if named(a, "config"@) {
                    match a.meta {
                        Err(e) => Some(e@),
                        Ok(ms) => prefix_args_fault(ms@),
                    }
                } else {
                    None
                }
            },
        }
    }
}

proof fn lemma_prefix_args_stop(ms: Seq<MetaArg>, k: int)
    requires
        0 <= k < ms.len(),
        prefix_args_fault(ms.take(k + 1)) is Some,
    ensures
        prefix_args_fault(ms) == prefix_args_fault(ms.take(k + 1)),
    decreases ms.len() - k,
{
    if k + 1 == ms.len() {
        assert(ms.take(k + 1) =~= ms);
    } else {
        assert(ms.drop_last().take(k + 1) =~= ms.take(k + 1));
        lemma_prefix_args_stop(ms.drop_last(), k);
    }
}

proof fn lemma_prefix_stop<R>(attrs: Seq<Attr<R>>, i: int)
    requires
        0 <= i < attrs.len(),
        prefix_fault(attrs.take(i + 1)) is Some,
    ensures
        prefix_fault(attrs) == prefix_fault(attrs.take(i + 1)),
    decreases attrs.len() - i,
{
    if i + 1 == attrs.len() {
        assert(attrs.take(i + 1) =~= attrs);
    } else {
        assert(attrs.drop_last().take(i + 1) =~= attrs.take(i + 1));
        lemma_prefix_stop(attrs.drop_last(), i);
    }
}

/// Accept (and ignore) the struct's `#[config(prefix = "...")]`.
pub fn consume_prefix_attr<R>(attrs: &Vec<Attr<R>>) -> (r: Result<(), String>)
    ensures
        match r {
            Ok(()) => prefix_fault(attrs@) is None,
            Err(e) => prefix_fault(attrs@) == Some(e@),
        },
{
    proof {
        reveal_strlit("prefix");
        reveal_strlit("config");
        reveal_strlit("expected `prefix` in #[config(prefix = \"...\")]");
    }
    let mut i: usize = 0;
    while i < attrs.len()
        invariant
            0 <= i <= attrs@.len(),
            prefix_fault(attrs@.take(i as int)) is None,
        decreases attrs@.len() - i,
    {
        assert(attrs@.take(i + 1).drop_last() =~= attrs@.take(i as int));
        assert(attrs@.take(i + 1).last() == attrs@[i as int]);
        let a = &attrs[i];
        if crate::attrs::is_named(a, "config") {
            match &a.meta {
                Err(e) => {
                    proof {
                        lemma_prefix_stop(attrs@, i as int);
                    }
                    return Err(e.clone());
                },
                Ok(ms) => {
                    let mut k: usize = 0;
                    while k < ms.len()
                        invariant
                            0 <= k <= ms@.len(),
                            0 <= i < attrs@.len(),
                            named(attrs@[i as int], "config"@),
                            attrs@[i as int].meta == Ok::<Vec<MetaArg>, String>(*ms),
                            attrs@.take(i + 1).drop_last() == attrs@.take(i as int),
                            attrs@.take(i + 1).last() == attrs@[i as int],
                            prefix_fault(attrs@.take(i as int)) is None,
                            prefix_args_fault(ms@.take(k as int)) is None,
                        decreases ms@.len() - k,
                    {
                        assert(ms@.take(k + 1).drop_last() =~= ms@.take(k as int));
                        assert(ms@.take(k + 1).last() == ms@[k as int]);
                        let m = &ms[k];
                        let bad: Option<String> = if str_is(m.key.as_str(), "prefix") {
                            match string_value_of(m) {
                                Ok(_) => None,
                                Err(e) => Some(e),
                            }
                        } else {
                            Some(string_of(&chars_of("expected `prefix` in #[config(prefix = \"...\")]")))
                        };
                        match bad {
                            Some(e) => {
                                proof {
                                    lemma_prefix_args_stop(ms@, k as int);
                                    lemma_prefix_stop(attrs@, i as int);
                                }
                                return Err(e);
                            },
                            None => {},
                        }
                        k = k + 1;
                    }
                    assert(ms@.take(ms@.len() as int) =~= ms@);
                },
            }
        }
        i = i + 1;
    }
    assert(attrs@.take(attrs@.len() as int) =~= attrs@);
    Ok(())
}

pub open spec fn unnamed_struct_msg() -> Seq<char> {
    "#[derive(ConfigProperties)] only works on structs with named fields"@
}

/// The position of the first refused field.
pub open spec fn first_bad_field<R>(fs: Seq<ConfigFieldInput<R>>, i: int) -> Option<int>
    decreases fs.len() - i,
{
    if i < 0 || i >= fs.len() {
        None
    } else if field_outcome(fs[i], i) is Err {
        Some(i)
    } else {
        first_bad_field(fs, i + 1)
    }
}

/// The plan of a `ConfigProperties` struct: one plan per field, and whether
/// any field asks for validation after construction.
pub struct ConfigStructPlan {
    pub fields: Vec<ConfigFieldPlan>,
    pub any_validate: bool,
}

/// Plan a `ConfigProperties` struct: its `#[config(prefix = ...)]` must read,
/// its fields must be named, and each field must plan.
pub fn plan_config_struct<R>(attrs: &Vec<Attr<R>>, named_fields: bool, fields: &Vec<ConfigFieldInput<R>>) -> (r:
    Result<ConfigStructPlan, ConfigFault>)
    ensures
        match r {
            Ok(p) => prefix_fault(attrs@) is None && named_fields && first_bad_field(fields@, 0) is None
                && p.fields@.len() == fields@.len() && (forall|i: int|
                0 <= i < fields@.len() ==> field_outcome(fields@[i], i) == Ok::<
                    FieldConfig,
                    (ConfigSpan, Seq<char>),
                >(#[trigger] p.fields@[i].config) && plans(fields@[i], p.fields@[i].config, p.fields@[i]))
                && p.any_validate == exists|i: int|
                0 <= i < fields@.len() && #[trigger] p.fields@[i].has_validate,
            Err(e) => match prefix_fault(attrs@) {
                Some(m) => e.at == ConfigSpan::TypeAttrs && e.message@ == m,
                None => if !named_fields {
                    e.at == ConfigSpan::Type && e.message@ == unnamed_struct_msg()
                } else {
                    first_bad_field(fields@, 0) matches Some(i) && field_outcome(fields@[i], i)
                        == Err::<FieldConfig, (ConfigSpan, Seq<char>)>((e.at, e.message@))
                },
            },
        },
{
    proof {
        reveal_strlit("#[derive(ConfigProperties)] only works on structs with named fields");
    }
    match consume_prefix_attr(attrs) {
        Ok(()) => {},
        Err(e) => {
            return Err(ConfigFault { at: ConfigSpan::TypeAttrs, message: e });
        },
    }
    if !named_fields {
        return Err(
            ConfigFault {
                at: ConfigSpan::Type,
                message: string_of(
                    &chars_of("#[derive(ConfigProperties)] only works on structs with named fields"),
                ),
            },
        );
    }
    let mut out: Vec<ConfigFieldPlan> = Vec::new();
    let mut any_validate = false;
    let mut i: usize = 0;
    assert(first_bad_field(fields@, 0) == first_bad_field(fields@, 0));
    while i < fields.len()
        invariant
            0 <= i <= fields@.len(),
            prefix_fault(attrs@) is None,
            named_fields,
            first_bad_field(fields@, 0) == first_bad_field(fields@, i as int),
            out@.len() == i,
            forall|k: int|
                0 <= k < i ==> field_outcome(fields@[k], k) == Ok::<FieldConfig, (ConfigSpan, Seq<char>)>(
                    #[trigger] out@[k].config,
                ) && plans(fields@[k], out@[k].config, out@[k]),
            any_validate == exists|k: int| 0 <= k < i && #[trigger] out@[k].has_validate,
        decreases fields@.len() - i,
    {
        match plan_config_field(&fields[i], i) {
            Ok(p) => {
                let ghost before = out@;
                let hv = p.has_validate;
                out.push(p);
                proof {
                    assert(first_bad_field(fields@, i as int) == first_bad_field(fields@, i + 1));
                    assert forall|k: int| 0 <= k < i implies out@[k] == before[k] by {}
                    if hv {
                        assert(out@[i as int].has_validate);
                    }
                    if any_validate {
                        let w = choose|k: int| 0 <= k < i && #[trigger] before[k].has_validate;
                        assert(out@[w].has_validate);
                    }
                }
                any_validate = any_validate || hv;
            },
            Err(e) => {
                return Err(e);
            },
        }
        i = i + 1;
    }
    Ok(ConfigStructPlan { fields: out, any_validate })
}

// ── tagged enums ────────────────────────────────────────────────────────

/// The enum-level `#[config(tag = "...", rename_all = "...")]`.
pub struct EnumConfig {
    pub tag: Option<String>,
    pub rename_all: Option<String>,
}

/// The variant-level `#[config(rename = "...", default)]`.
pub struct VariantConfig {
    pub rename: Option<String>,
    pub is_default: bool,
}

pub open spec fn enum_key_msg() -> Seq<char> {
    "expected `tag` or `rename_all` in #[config(...)] on an enum"@
}

pub open spec fn variant_key_msg() -> Seq<char> {
    "expected `rename` or `default` in #[config(...)] on a variant"@
}

pub open spec fn enum_args(st: EnumConfig, ms: Seq<MetaArg>) -> Result<EnumConfig, Seq<char>>
    decreases ms.len(),
{
    if ms.len() == 0 {
        Ok(st)
    } else {
        match enum_args(st, ms.drop_last()) {
            Err(e) => Err(e),
            Ok(s2) => {
                let a = ms.last();
                if key_is(a, "tag"@) {
                    match string_value(a) {
                        Ok(v) => Ok(EnumConfig { tag: Some(v), ..s2 }),
                        Err(e) => Err(e),
                    }
                } else if key_is(a, "rename_all"@) {
                    match string_value(a) {
                        Ok(v) => Ok(EnumConfig { rename_all: Some(v), ..s2 }),
                        Err(e) => Err(e),
                    }
                } else {
                    Err(enum_key_msg())
                }
            },
        }
    }
}

pub open spec fn enum_config_of<R>(attrs: Seq<Attr<R>>) -> Result<EnumConfig, Seq<char>>
    decreases attrs.len(),
{
    if attrs.len() == 0 {
        Ok(EnumConfig { tag: None, rename_all: None })
    } else {
        match enum_config_of(attrs.drop_last()) {
            Err(e) => Err(e),
            Ok(st) => {
                let a = attrs.last();
                if named(a, "config"@) {
                    match a.meta {
                        Err(e) => Err(e@),
                        Ok(ms) => enum_args(st, ms@),
                    }
                } else {
                    Ok(st)
                }
            },
        }
    }
}

pub open spec fn variant_args(st: VariantConfig, ms: Seq<MetaArg>) -> Result<VariantConfig, Seq<char>>
    decreases ms.len(),
{
    if ms.len() == 0 {
        Ok(st)
    } else {
        match variant_args(st, ms.drop_last()) {
            Err(e) => Err(e),
            Ok(s2) => {
                let a = ms.last();
                if key_is(a, "rename"@) {
                    match string_value(a) {
                        Ok(v) => Ok(VariantConfig { rename: Some(v), ..s2 }),
                        Err(e) => Err(e),
                    }
                } else if key_is(a, "default"@) {
                    match flag_value(a) {
                        Ok(()) => Ok(VariantConfig { is_default: true, ..s2 }),
                        Err(e) => Err(e),
                    }
                } else {
                    Err(variant_key_msg())
                }
            },
        }
    }
}

pub open spec fn variant_config_of<R>(attrs: Seq<Attr<R>>) -> Result<VariantConfig, Seq<char>>
    decreases attrs.len(),
{
    if attrs.len() == 0 {
        Ok(VariantConfig { rename: None, is_default: false })
    } else {
        match variant_config_of(attrs.drop_last()) {
            Err(e) => Err(e),
            Ok(st) => {
                let a = attrs.last();
                if named(a, "config"@) {
                    match a.meta {
                        Err(e) => Err(e@),
                        Ok(ms) => variant_args(st, ms@),
                    }
                } else {
                    Ok(st)
                }
            },
        }
    }
}

proof fn lemma_enum_args_stop(st: EnumConfig, ms: Seq<MetaArg>, k: int)
    requires
        0 <= k < ms.len(),
        enum_args(st, ms.take(k + 1)) is Err,
    ensures
        enum_args(st, ms) == enum_args(st, ms.take(k + 1)),
    decreases ms.len() - k,
{
    if k + 1 == ms.len() {
        assert(ms.take(k + 1) =~= ms);
    } else {
        assert(ms.drop_last().take(k + 1) =~= ms.take(k + 1));
        lemma_enum_args_stop(st, ms.drop_last(), k);
    }
}

proof fn lemma_enum_config_stop<R>(attrs: Seq<Attr<R>>, i: int)
    requires
        0 <= i < attrs.len(),
        enum_config_of(attrs.take(i + 1)) is Err,
    ensures
        enum_config_of(attrs) == enum_config_of(attrs.take(i + 1)),
    decreases attrs.len() - i,
{
    if i + 1 == attrs.len() {
        assert(attrs.take(i + 1) =~= attrs);
    } else {
        assert(attrs.drop_last().take(i + 1) =~= attrs.take(i + 1));
        lemma_enum_config_stop(attrs.drop_last(), i);
    }
}

proof fn lemma_variant_args_stop(st: VariantConfig, ms: Seq<MetaArg>, k: int)
    requires
        0 <= k < ms.len(),
        variant_args(st, ms.take(k + 1)) is Err,
    ensures
        variant_args(st, ms) == variant_args(st, ms.take(k + 1)),
    decreases ms.len() - k,
{
    if k + 1 == ms.len() {
        assert(ms.take(k + 1) =~= ms);
    } else {
        assert(ms.drop_last().take(k + 1) =~= ms.take(k + 1));
        lemma_variant_args_stop(st, ms.drop_last(), k);
    }
}

proof fn lemma_variant_config_stop<R>(attrs: Seq<Attr<R>>, i: int)
    requires
        0 <= i < attrs.len(),
        variant_config_of(attrs.take(i + 1)) is Err,
    ensures
        variant_config_of(attrs) == variant_config_of(attrs.take(i + 1)),
    decreases attrs.len() - i,
{
    if i + 1 == attrs.len() {
        assert(attrs.take(i + 1) =~= attrs);
    } else {
        assert(attrs.drop_last().take(i + 1) =~= attrs.take(i + 1));
        lemma_variant_config_stop(attrs.drop_last(), i);
    }
}

/// Read the enum's `#[config(tag = ..., rename_all = ...)]`.
pub fn extract_enum_config<R>(attrs: &Vec<Attr<R>>) -> (r: Result<EnumConfig, String>)
    ensures
        match r {
            Ok(c) => enum_config_of(attrs@) == Ok::<EnumConfig, Seq<char>>(c),
            Err(e) => enum_config_of(attrs@) == Err::<EnumConfig, Seq<char>>(e@),
        },
{
    proof {
        reveal_strlit("tag");
        reveal_strlit("rename_all");
        reveal_strlit("config");
        reveal_strlit("expected `tag` or `rename_all` in #[config(...)] on an enum");
    }
    let mut st = EnumConfig { tag: None, rename_all: None };
    let mut i: usize = 0;
    while i < attrs.len()
        invariant
            0 <= i <= attrs@.len(),
            enum_config_of(attrs@.take(i as int)) == Ok::<EnumConfig, Seq<char>>(st),
        decreases attrs@.len() - i,
    {
        assert(attrs@.take(i + 1).drop_last() =~= attrs@.take(i as int));
        assert(attrs@.take(i + 1).last() == attrs@[i as int]);
        let a = &attrs[i];
        if crate::attrs::is_named(a, "config") {
            match &a.meta {
                Err(e) => {
                    proof {
                        lemma_enum_config_stop(attrs@, i as int);
                    }
                    return Err(e.clone());
                },
                Ok(ms) => {
                    let ghost st0 = st;
                    let mut k: usize = 0;
                    while k < ms.len()
                        invariant
                            0 <= k <= ms@.len(),
                            0 <= i < attrs@.len(),
                            named(attrs@[i as int], "config"@),
                            attrs@[i as int].meta == Ok::<Vec<MetaArg>, String>(*ms),
                            attrs@.take(i + 1).drop_last() == attrs@.take(i as int),
                            attrs@.take(i + 1).last() == attrs@[i as int],
                            enum_config_of(attrs@.take(i as int)) == Ok::<EnumConfig, Seq<char>>(st0),
                            enum_args(st0, ms@.take(k as int)) == Ok::<EnumConfig, Seq<char>>(st),
                        decreases ms@.len() - k,
                    {
                        assert(ms@.take(k + 1).drop_last() =~= ms@.take(k as int));
                        assert(ms@.take(k + 1).last() == ms@[k as int]);
                        let m = &ms[k];
                        let step: Result<(), String> = if str_is(m.key.as_str(), "tag") {
                            match string_value_of(m) {
                                Ok(v) => {
                                    st.tag = Some(v);
                                    Ok(())
                                },
                                Err(e) => Err(e),
                            }
                        } else if str_is(m.key.as_str(), "rename_all") {
                            match string_value_of(m) {
                                Ok(v) => {
                                    st.rename_all = Some(v);
                                    Ok(())
                                },
                                Err(e) => Err(e),
                            }
                        } else {
                            Err(string_of(&chars_of("expected `tag` or `rename_all` in #[config(...)] on an enum")))
                        };
                        match step {
                            Ok(()) => {},
                            Err(e) => {
                                proof {
                                    lemma_enum_args_stop(st0, ms@, k as int);
                                    lemma_enum_config_stop(attrs@, i as int);
                                }
                                return Err(e);
                            },
                        }
                        k = k + 1;
                    }
                    assert(ms@.take(ms@.len() as int) =~= ms@);
                },
            }
        }
        i = i + 1;
    }
    assert(attrs@.take(attrs@.len() as int) =~= attrs@);
    Ok(st)
}

/// Read a variant's `#[config(rename = ..., default)]`.
pub fn extract_variant_config<R>(attrs: &Vec<Attr<R>>) -> (r: Result<VariantConfig, String>)
    ensures
        match r {
            Ok(c) => variant_config_of(attrs@) == Ok::<VariantConfig, Seq<char>>(c),
            Err(e) => variant_config_of(attrs@) == Err::<VariantConfig, Seq<char>>(e@),
        },
{
    proof {
        reveal_strlit("rename");
        reveal_strlit("default");
        reveal_strlit("config");
        reveal_strlit("expected `rename` or `default` in #[config(...)] on a variant");
    }
    let mut st = VariantConfig { rename: None, is_default: false };
    let mut i: usize = 0;
    while i < attrs.len()
        invariant
            0 <= i <= attrs@.len(),
            variant_config_of(attrs@.take(i as int)) == Ok::<VariantConfig, Seq<char>>(st),
        decreases attrs@.len() - i,
    {
        assert(attrs@.take(i + 1).drop_last() =~= attrs@.take(i as int));
        assert(attrs@.take(i + 1).last() == attrs@[i as int]);
        let a = &attrs[i];
        if crate::attrs::is_named(a, "config") {
            match &a.meta {
                Err(e) => {
                    proof {
                        lemma_variant_config_stop(attrs@, i as int);
                    }
                    return Err(e.clone());
                },
                Ok(ms) => {
                    let ghost st0 = st;
                    let mut k: usize = 0;
                    while k < ms.len()
                        invariant
                            0 <= k <= ms@.len(),
                            0 <= i < attrs@.len(),
                            named(attrs@[i as int], "config"@),
                            attrs@[i as int].meta == Ok::<Vec<MetaArg>, String>(*ms),
                            attrs@.take(i + 1).drop_last() == attrs@.take(i as int),
                            attrs@.take(i + 1).last() == attrs@[i as int],
                            variant_config_of(attrs@.take(i as int)) == Ok::<VariantConfig, Seq<char>>(st0),
                            variant_args(st0, ms@.take(k as int)) == Ok::<VariantConfig, Seq<char>>(st),
                        decreases ms@.len() - k,
                    {
                        assert(ms@.take(k + 1).drop_last() =~= ms@.take(k as int));
                        assert(ms@.take(k + 1).last() == ms@[k as int]);
                        let m = &ms[k];
                        let step: Result<(), String> = if str_is(m.key.as_str(), "rename") {
                            match string_value_of(m) {
                                Ok(v) => {
                                    st.rename = Some(v);
                                    Ok(())
                                },
                                Err(e) => Err(e),
                            }
                        } else if str_is(m.key.as_str(), "default") {
                            match flag_value_of(m) {
                                Ok(()) => {
                                    st.is_default = true;
                                    Ok(())
                                },
                                Err(e) => Err(e),
                            }
                        } else {
                            Err(string_of(&chars_of("expected `rename` or `default` in #[config(...)] on a variant")))
                        };
                        match step {
                            Ok(()) => {},
                            Err(e) => {
                                proof {
                                    lemma_variant_args_stop(st0, ms@, k as int);
                                    lemma_variant_config_stop(attrs@, i as int);
                                }
                                return Err(e);
                            },
                        }
                        k = k + 1;
                    }
                    assert(ms@.take(ms@.len() as int) =~= ms@);
                },
            }
        }
        i = i + 1;
    }
    assert(attrs@.take(attrs@.len() as int) =~= attrs@);
    Ok(st)
}

/// The fields of a variant, by shape.
#[derive(Clone, Copy, PartialEq, Eq, Structural, Debug)]
pub enum VariantShape {
    Unit,
    /// A tuple variant with this many fields.
    Tuple(usize),
    Named,
}

/// One variant of the enum.
pub struct ConfigVariantInput<R> {
    pub name: String,
    pub attrs: Vec<Attr<R>>,
    pub shape: VariantShape,
}

/// The tags read so far and the default variant, if one was marked.
pub struct EnumScan {
    pub tags: Seq<Seq<char>>,
    pub default: Option<int>,
}

pub open spec fn missing_tag_msg() -> Seq<char> {
    "#[derive(ConfigProperties)] on an enum requires #[config(tag = \"...\")] — the config key whose value selects the variant"@
}

pub open spec fn no_variants_msg() -> Seq<char> {
    "#[derive(ConfigProperties)] requires at least one enum variant"@
}

pub open spec fn duplicate_tag_msg(t: Seq<char>) -> Seq<char> {
    "duplicate tag value `"@ + t + "`"@
}

pub open spec fn variant_shape_msg() -> Seq<char> {
    "tagged-enum variants must be unit variants or single-field tuple variants whose field implements ConfigProperties"@
}

pub open spec fn second_default_msg() -> Seq<char> {
    "only one variant may be marked #[config(default)]"@
}

/// Reads variant `v` (at position `i`) after those before it.
pub open spec fn enum_step<R>(st: EnumScan, v: ConfigVariantInput<R>, i: int, style: Option<Seq<char>>) -> Result<
    EnumScan,
    (ConfigSpan, Seq<char>),
> {
    match variant_config_of(v.attrs@) {
        Err(e) => Err((ConfigSpan::VariantAttrs(i as usize), e)),
        Ok(vc) => {
            let tag = match vc.rename {
                Some(r) => Some(r@),
                None => crate::naming::tag_of(v.name@, style),
            };
            match tag {
                None => Err((ConfigSpan::TypeAttrs, crate::naming::tag_style_refusal(style->0))),
                Some(t) => if st.tags.contains(t) {
                    Err((ConfigSpan::Variant(i as usize), duplicate_tag_msg(t)))
                } else if !(v.shape is Unit || v.shape == VariantShape::Tuple(1)) {
                    Err((ConfigSpan::Variant(i as usize), variant_shape_msg()))
                } else if vc.is_default && st.default is Some {
                    Err((ConfigSpan::Variant(i as usize), second_default_msg()))
                } else {
                    Ok(
                        EnumScan {
                            tags: st.tags.push(t),
                            default: if vc.is_default {
                                Some(i)
                            } else {
                                st.default
                            },
                        },
                    )
                },
            }
        },
    }
}

/// Reads the variants in order; the first refused one stops the reading.
pub open spec fn enum_scan<R>(vs: Seq<ConfigVariantInput<R>>, style: Option<Seq<char>>) -> Result<
    EnumScan,
    (ConfigSpan, Seq<char>),
>
    decreases vs.len(),
{
    if vs.len() == 0 {
        Ok(EnumScan { tags: Seq::empty(), default: None })
    } else {
        match enum_scan(vs.drop_last(), style) {
            Err(f) => Err(f),
            Ok(st) => enum_step(st, vs.last(), vs.len() - 1, style),
        }
    }
}

proof fn lemma_enum_scan_stop<R>(vs: Seq<ConfigVariantInput<R>>, style: Option<Seq<char>>, i: int)
    requires
        0 <= i < vs.len(),
        enum_scan(vs.take(i + 1), style) is Err,
    ensures
        enum_scan(vs, style) == enum_scan(vs.take(i + 1), style),
    decreases vs.len() - i,
{
    if i + 1 == vs.len() {
        assert(vs.take(i + 1) =~= vs);
    } else {
        assert(vs.drop_last().take(i + 1) =~= vs.take(i + 1));
        lemma_enum_scan_stop(vs.drop_last(), style, i);
    }
}

/// What the derive makes of a tagged enum: the tag key and the reading of
/// its variants, or the refusal.
pub open spec fn enum_outcome<R>(attrs: Seq<Attr<R>>, vs: Seq<ConfigVariantInput<R>>) -> Result<
    (Seq<char>, EnumScan),
    (ConfigSpan, Seq<char>),
> {
    match enum_config_of(attrs) {
        Err(e) => Err((ConfigSpan::TypeAttrs, e)),
        Ok(ec) => match ec.tag {
            None => Err((ConfigSpan::Type, missing_tag_msg())),
            Some(tag) => if vs.len() == 0 {
                Err((ConfigSpan::Type, no_variants_msg()))
            } else {
                match enum_scan(vs, crate::naming::opt_str_of(ec.rename_all)) {
                    Err(f) => Err(f),
                    Ok(sc) => Ok((tag@, sc)),
                }
            },
        },
    }
}

/// The plan of a tagged enum.
pub struct ConfigEnumPlan {
    /// The configuration key whose value selects the variant.
    pub tag: String,
    /// Each variant's tag value, in order.
    pub tags: Vec<String>,
    /// The variant used when the tag is absent.
    pub default: Option<usize>,
    /// The tag values joined by `, `, as error messages and the metadata list them.
    pub expected: String,
}

fn contains_chars(list: &Vec<Vec<char>>, x: &Vec<char>) -> (r: bool)
    ensures
        r == crate::text::views(list@).contains(x@),
{
    let mut j: usize = 0;
    while j < list.len()
        invariant
            0 <= j <= list@.len(),
            forall|q: int| 0 <= q < j ==> list@[q]@ != x@,
        decreases list@.len() - j,
    {
        if crate::text::chars_eq(&list[j], x) {
            assert(crate::text::views(list@)[j as int] == x@);
            return true;
        }
        j = j + 1;
    }
    assert forall|q: int| 0 <= q < list@.len() implies crate::text::views(list@)[q] != x@ by {
        assert(crate::text::views(list@)[q] == list@[q]@);
    }
    false
}

/// Plan a tagged enum: the tag key must be given, there must be variants,
/// and each variant's tag must be new, its shape unit or one-field tuple,
/// and at most one variant the default.
pub fn plan_config_enum<R>(attrs: &Vec<Attr<R>>, variants: &Vec<ConfigVariantInput<R>>) -> (r: Result<
    ConfigEnumPlan,
    ConfigFault,
>)
    ensures
        match r {
            Ok(p) => enum_outcome(attrs@, variants@) matches Ok((tag, sc)) && tag == p.tag@ && sc.tags
                == crate::text::views_of_strings(p.tags@) && sc.default == match p.default {
                Some(d) => Some(d as int),
                None => None::<int>,
            } && p.expected@ == crate::text::join(sc.tags, ", "@),
            Err(e) => enum_outcome(attrs@, variants@) == Err::<
                (Seq<char>, EnumScan),
                (ConfigSpan, Seq<char>),
            >((e.at, e.message@)),
        },
{
    proof {
        reveal_strlit(
            "#[derive(ConfigProperties)] on an enum requires #[config(tag = \"...\")] — the config key whose value selects the variant",
        );
        reveal_strlit("#[derive(ConfigProperties)] requires at least one enum variant");
        reveal_strlit(
            "tagged-enum variants must be unit variants or single-field tuple variants whose field implements ConfigProperties",
        );
        reveal_strlit("only one variant may be marked #[config(default)]");
        reveal_strlit("duplicate tag value `");
        reveal_strlit("`");
    }
    let ec = match extract_enum_config(attrs) {
        Ok(c) => c,
        Err(e) => {
            return Err(ConfigFault { at: ConfigSpan::TypeAttrs, message: e });
        },
    };
    let tag: String = match &ec.tag {
        Some(t) => t.clone(),
        None => {
            return Err(
                ConfigFault {
                    at: ConfigSpan::Type,
                    message: string_of(
                        &chars_of(
                            "#[derive(ConfigProperties)] on an enum requires #[config(tag = \"...\")] — the config key whose value selects the variant",
                        ),
                    ),
                },
            );
        },
    };
    if variants.len() == 0 {
        return Err(
            ConfigFault {
                at: ConfigSpan::Type,
                message: string_of(&chars_of("#[derive(ConfigProperties)] requires at least one enum variant")),
            },
        );
    }
    let ghost style = crate::naming::opt_str_of(ec.rename_all);
    let mut tags: Vec<String> = Vec::new();
    let mut tag_chars: Vec<Vec<char>> = Vec::new();
    let mut default: Option<usize> = None;
    let mut i: usize = 0;
    assert(variants@.take(0) =~= Seq::<ConfigVariantInput<R>>::empty());
    assert(crate::text::views_of_strings(tags@) =~= Seq::<Seq<char>>::empty());
    assert(crate::text::views(tag_chars@) =~= Seq::<Seq<char>>::empty());
    while i < variants.len()
        invariant
            0 <= i <= variants@.len(),
            enum_config_of(attrs@) == Ok::<EnumConfig, Seq<char>>(ec),
            ec.tag == Some(tag),
            variants@.len() > 0,
            style == crate::naming::opt_str_of(ec.rename_all),
            tags@.len() == tag_chars@.len(),
            crate::text::views(tag_chars@) == crate::text::views_of_strings(tags@),
            enum_scan(variants@.take(i as int), style) == Ok::<EnumScan, (ConfigSpan, Seq<char>)>(
                EnumScan {
                    tags: crate::text::views_of_strings(tags@),
                    default: match default {
                        Some(d) => Some(d as int),
                        None => None::<int>,
                    },
                },
            ),
        decreases variants@.len() - i,
    {
        assert(variants@.take(i + 1).drop_last() =~= variants@.take(i as int));
        assert(variants@.take(i + 1).last() == variants@[i as int]);
        let v = &variants[i];
        let vc = match extract_variant_config(&v.attrs) {
            Ok(c) => c,
            Err(e) => {
                proof {
                    lemma_enum_scan_stop(variants@, style, i as int);
                }
                return Err(ConfigFault { at: ConfigSpan::VariantAttrs(i), message: e });
            },
        };
        let t = match &vc.rename {
            Some(r) => r.clone(),
            None => match crate::naming::variant_tag_name(v.name.as_str(), ec.rename_all.as_ref()) {
                Ok(t) => t,
                Err(e) => {
                    proof {
                        lemma_enum_scan_stop(variants@, style, i as int);
                    }
                    return Err(ConfigFault { at: ConfigSpan::TypeAttrs, message: e });
                },
            },
        };
        let tc = chars_of(t.as_str());
        let ghost known = crate::text::views_of_strings(tags@);
        if contains_chars(&tag_chars, &tc) {
            proof {
                lemma_enum_scan_stop(variants@, style, i as int);
            }
            let mut m: Vec<char> = Vec::new();
            push_str(&mut m, "duplicate tag value `");
            push_str(&mut m, t.as_str());
            push_str(&mut m, "`");
            return Err(ConfigFault { at: ConfigSpan::Variant(i), message: string_of(&m) });
        }
        let shape_ok = match v.shape {
            VariantShape::Unit => true,
            VariantShape::Tuple(n) => n == 1,
            VariantShape::Named => false,
        };
        if !shape_ok {
            proof {
                lemma_enum_scan_stop(variants@, style, i as int);
            }
            return Err(
                ConfigFault {
                    at: ConfigSpan::Variant(i),
                    message: string_of(
                        &chars_of(
                            "tagged-enum variants must be unit variants or single-field tuple variants whose field implements ConfigProperties",
                        ),
                    ),
                },
            );
        }
        if vc.is_default {
            if default.is_some() {
                proof {
                    lemma_enum_scan_stop(variants@, style, i as int);
                }
                return Err(
                    ConfigFault {
                        at: ConfigSpan::Variant(i),
                        message: string_of(&chars_of("only one variant may be marked #[config(default)]")),
                    },
                );
            }
            default = Some(i);
        }
        let ghost tags_before = tags@;
        let ghost chars_before = tag_chars@;
        tags.push(t);
        tag_chars.push(tc);
        proof {
            crate::text::lemma_views_push(chars_before, tc);
            assert(crate::text::views_of_strings(tags@) =~= crate::text::views_of_strings(tags_before).push(
                t@,
            ));
        }
        i = i + 1;
    }
    assert(variants@.take(variants@.len() as int) =~= variants@);
    let expected_chars = crate::text::join_chars(&tag_chars, ", ");
    Ok(ConfigEnumPlan { tag, tags, default, expected: string_of(&expected_chars) })
}

/// An accepted tagged enum gives every variant its own tag value.
pub proof fn lemma_enum_tags_distinct<R>(vs: Seq<ConfigVariantInput<R>>, style: Option<Seq<char>>)
    ensures
        enum_scan(vs, style) matches Ok(sc) ==> sc.tags.len() == vs.len() && forall|i: int, j: int|
            0 <= i < j < sc.tags.len() ==> #[trigger] sc.tags[i] != #[trigger] sc.tags[j],
    decreases vs.len(),
{
    if vs.len() > 0 {
        lemma_enum_tags_distinct(vs.drop_last(), style);
        match enum_scan(vs.drop_last(), style) {
            Ok(st) => {
                match enum_step(st, vs.last(), vs.len() - 1, style) {
                    Ok(sc) => {
                        let t = sc.tags.last();
                        assert(sc.tags =~= st.tags.push(t));
                        assert forall|i: int, j: int| 0 <= i < j < sc.tags.len() implies #[trigger] sc.tags[i]
                            != #[trigger] sc.tags[j] by {
                            if j < st.tags.len() {
                                assert(sc.tags[i] == st.tags[i]);
                                assert(sc.tags[j] == st.tags[j]);
                            } else {
                                assert(sc.tags[i] == st.tags[i]);
                                assert(st.tags.contains(st.tags[i]));
                            }
                        }
                    },
                    Err(_) => {},
                }
            },
            Err(_) => {},
        }
    }
}

} // verus!
