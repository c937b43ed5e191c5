//! `#[derive(DecoratorBean)]` and `#[derive(ProvideBundle)]`: the struct
//! shapes they accept and how they split the fields.

use vstd::prelude::*;

use crate::attrs::{any_named, has_named};
use crate::field_resolver::{
    classify_fields, first_failure, kind_of, reports, ClassifyError, ClassifyOpts, FieldInput, FieldKind,
};
use crate::text::{chars_of, push_str, string_of};
use crate::types::{last_seg, last_segment, SegArgs, Ty};

verus! {

/// The shape of the item a derive is applied to.
#[derive(PartialEq, Eq, Structural, Clone, Copy, Debug)]
pub enum ItemShape {
    NamedStruct,
    TupleStruct,
    UnitStruct,
    /// An enum or a union.
    NotStruct,
}

/// Where a refusal points.
#[derive(PartialEq, Eq, Structural, Clone, Copy, Debug)]
pub enum DeriveSite {
    Generics,
    /// The item's name.
    Name,
    /// The item's field list.
    Fields,
    /// The field at this position.
    Field(usize),
}

fn msg(s: &str) -> (r: String)
    ensures
        r@ == s@,
{
    string_of(&chars_of(s))
}

// ── DecoratorBean ───────────────────────────────────────────────────────

pub open spec fn deco_generic_msg() -> Seq<char> {
    "#[derive(DecoratorBean)] does not support generic types"@
}

pub open spec fn deco_named_msg() -> Seq<char> {
    "#[derive(DecoratorBean)] only works on structs with named fields:\n\n  #[derive(DecoratorBean)]\n  struct MyGuard {\n      #[inject] pool: PgPool,\n      max: u64, // plain field = config, set via MyGuard::spec(max)\n  }"@
}

pub open spec fn deco_not_struct_msg() -> Seq<char> {
    "#[derive(DecoratorBean)] only works on structs — enums and unions are not supported"@
}

/// How a decorator bean names itself in refusals, and what it accepts.
pub open spec fn deco_opts() -> ClassifyOpts {
    ClassifyOpts { allow_named_inject: true, allow_default: false, context_label: "decorator bean" }
}

/// A field resolved from the bean graph or the configuration; the others
/// are set at the attribute site.
pub open spec fn is_resolved<R, E>(f: FieldInput<R, E>) -> bool {
    has_named(f.attrs@, "inject"@) || has_named(f.attrs@, "config"@) || has_named(f.attrs@, "config_section"@)
}

/// The positions in `fs` of the fields that are (`resolved`) or are not
/// resolved, in order.
pub open spec fn positions<R, E>(fs: Seq<FieldInput<R, E>>, resolved: bool) -> Seq<int> {
    Seq::new(fs.len(), |k: int| k).filter(|k: int| is_resolved(fs[k]) == resolved)
}

/// How a decorator bean's fields split: the resolved fields' positions and
/// kinds, the plain fields' positions, and whether configuration is read.
pub struct DecoPlan {
    pub resolved: Vec<usize>,
    pub kinds: Vec<FieldKind>,
    pub plain: Vec<usize>,
    pub has_config: bool,
}

/// Why a decorator bean is refused.
pub enum DecoFault<E> {
    At(DeriveSite, String),
    Field(ClassifyError<E>),
}

/// Whether some kind reads configuration.
pub open spec fn kinds_read_config(ks: Seq<FieldKind>) -> bool {
    exists|k: int| 0 <= k < ks.len() && (#[trigger] ks[k] is Config || ks[k] is ConfigSection)
}

/// How `#[derive(DecoratorBean)]` splits a struct's fields: refused for a
/// generic type, a struct without named fields, or a non-struct; otherwise
/// the resolved fields (those with `#[inject]`, `#[config]` or
/// `#[config_section]`) are classified in order, the rest are plain.
pub fn plan_decorator_bean<R, E>(generic: bool, shape: ItemShape, fields: Vec<FieldInput<R, E>>) -> (r: Result<
    DecoPlan,
    DecoFault<E>,
>)
    ensures
        generic ==> (r matches Err(DecoFault::At(s, m)) && s == DeriveSite::Generics && m@ == deco_generic_msg()),
        !generic && (shape == ItemShape::TupleStruct || shape == ItemShape::UnitStruct) ==> (r matches Err(
            DecoFault::At(s, m),
        ) && s == DeriveSite::Name && m@ == deco_named_msg()),
        !generic && shape == ItemShape::NotStruct ==> (r matches Err(DecoFault::At(s, m)) && s == DeriveSite::Name
            && m@ == deco_not_struct_msg()),
        !generic && shape == ItemShape::NamedStruct ==> {
            let rs = fields@.filter(|f: FieldInput<R, E>| is_resolved(f));
            match r {
                Ok(p) => first_failure(rs, deco_opts(), 0) is None && p.resolved@.map_values(|k: usize| k as int)
                    == positions(fields@, true) && p.plain@.map_values(|k: usize| k as int) == positions(
                    fields@,
                    false,
                ) && p.kinds@.len() == rs.len() && (forall|i: int|
                    0 <= i < rs.len() ==> kind_of(rs[i], i, deco_opts()) == Ok::<FieldKind, ClassifyError<E>>(
                        #[trigger] p.kinds@[i],
                    )) && p.has_config == kinds_read_config(p.kinds@),
                Err(DecoFault::Field(e)) => first_failure(rs, deco_opts(), 0) matches Some(i) && reports(
                    kind_of(rs[i], i, deco_opts()),
                    e,
                    deco_opts(),
                ),
                Err(DecoFault::At(..)) => false,
            }
        },
{
    if generic {
        return Err(DecoFault::At(DeriveSite::Generics, msg("#[derive(DecoratorBean)] does not support generic types")));
    }
    match shape {
        ItemShape::NamedStruct => {},
        ItemShape::NotStruct => {
            return Err(
                DecoFault::At(
                    DeriveSite::Name,
                    msg("#[derive(DecoratorBean)] only works on structs — enums and unions are not supported"),
                ),
            );
        },
        _ => {
            return Err(
                DecoFault::At(
                    DeriveSite::Name,
                    msg(
                        "#[derive(DecoratorBean)] only works on structs with named fields:\n\n  #[derive(DecoratorBean)]\n  struct MyGuard {\n      #[inject] pool: PgPool,\n      max: u64, // plain field = config, set via MyGuard::spec(max)\n  }",
                    ),
                ),
            );
        },
    }
    let ghost fs = fields@;
    let ghost p = |f: FieldInput<R, E>| is_resolved(f);
    let ghost idx = Seq::new(fs.len(), |k: int| k);
    let ghost pr = |k: int| is_resolved(fs[k]) == true;
    let ghost pp = |k: int| is_resolved(fs[k]) == false;
    let n = fields.len();
    let mut rest = fields;
    let mut resolved_fields: Vec<FieldInput<R, E>> = Vec::new();
    let mut resolved: Vec<usize> = Vec::new();
    let mut plain: Vec<usize> = Vec::new();
    let mut i: usize = 0;
    proof {
        reveal(Seq::filter);
        assert(fs.take(0) =~= Seq::<FieldInput<R, E>>::empty());
        assert(idx.take(0) =~= Seq::<int>::empty());
        assert(resolved@.map_values(|k: usize| k as int) =~= Seq::<int>::empty());
        assert(plain@.map_values(|k: usize| k as int) =~= Seq::<int>::empty());
    }
    while rest.len() > 0
        invariant
            n == fs.len(),
            i + rest@.len() == n,
            rest@ == fs.skip(i as int),
            idx == Seq::new(fs.len(), |k: int| k),
            p == (|f: FieldInput<R, E>| is_resolved(f)),
            pr == (|k: int| is_resolved(fs[k]) == true),
            pp == (|k: int| is_resolved(fs[k]) == false),
            resolved_fields@ == fs.take(i as int).filter(p),
            resolved@.map_values(|k: usize| k as int) == idx.take(i as int).filter(pr),
            plain@.map_values(|k: usize| k as int) == idx.take(i as int).filter(pp),
        decreases rest@.len(),
    {
        assert(rest@[0] == fs[i as int]);
        let f = rest.remove(0);
        assert(rest@ =~= fs.skip(i + 1));
        proof {
            reveal(Seq::filter);
            assert(fs.take(i + 1).drop_last() =~= fs.take(i as int));
            assert(idx.take(i + 1).drop_last() =~= idx.take(i as int));
            assert(idx.take(i + 1).last() == i as int);
        }
        let is_res = any_named(&f.attrs, "inject") || any_named(&f.attrs, "config") || any_named(
            &f.attrs,
            "config_section",
        );
        assert(is_res == is_resolved(fs[i as int]));
        if is_res {
            resolved_fields.push(f);
            let ghost b = resolved@;
            resolved.push(i);
            proof {
                assert(resolved@.map_values(|k: usize| k as int) =~= b.map_values(|k: usize| k as int).push(
                    i as int,
                ));
            }
        } else {
            let ghost b = plain@;
            plain.push(i);
            proof {
                assert(plain@.map_values(|k: usize| k as int) =~= b.map_values(|k: usize| k as int).push(
                    i as int,
                ));
            }
        }
        i = i + 1;
    }
    proof {
        assert(fs.take(i as int) =~= fs);
        assert(idx.take(i as int) =~= idx);
        assert(pr =~= (|k: int| is_resolved(fs[k]) == true));
    }
    let opts = ClassifyOpts { allow_named_inject: true, allow_default: false, context_label: "decorator bean" };
    proof {
        reveal_strlit("decorator bean");
        assert(opts == deco_opts());
    }
    let kinds = match classify_fields(resolved_fields, &opts) {
        Err(e) => return Err(DecoFault::Field(e)),
        Ok(k) => k,
    };
    let mut has_config = false;
    let mut j: usize = 0;
    while j < kinds.len()
        invariant
            0 <= j <= kinds@.len(),
            has_config == exists|k: int| 0 <= k < j && (#[trigger] kinds@[k] is Config || kinds@[k] is ConfigSection),
        decreases kinds@.len() - j,
    {
        match &kinds[j] {
            FieldKind::Config { .. } | FieldKind::ConfigSection { .. } => {
                has_config = true;
            },
            _ => {},
        }
        j = j + 1;
    }
    Ok(DecoPlan { resolved, kinds, plain, has_config })
}

// ── ProvideBundle ───────────────────────────────────────────────────────

/// A field of a bundle: its name and type.
pub struct BundleField {
    pub name: String,
    pub ty: Ty,
}

pub open spec fn bundle_generic_msg() -> Seq<char> {
    "#[derive(ProvideBundle)] does not support generic structs — the provision list is a concrete type-level list, so every field type must be known at the derive site"@
}

pub open spec fn bundle_tuple_msg() -> Seq<char> {
    "#[derive(ProvideBundle)] requires named fields — each field name is what the generated `.provide(bundle.field)` reads"@
}

pub open spec fn bundle_unit_msg() -> Seq<char> {
    "#[derive(ProvideBundle)] on a unit struct provides nothing — drop the derive"@
}

pub open spec fn bundle_not_struct_msg() -> Seq<char> {
    "#[derive(ProvideBundle)] is only valid on structs"@
}

pub open spec fn second_config_msg(first: Seq<char>) -> Seq<char> {
    "a `ProvideBundle` may carry at most one `R2eConfig` field — `"@ + first
        + "` already claims it. The config field becomes `override_config(..)`, and a second one would silently discard the first"@
}

/// A type spelled as a path ending in the bare segment `R2eConfig`.
pub open spec fn is_config_type(t: Ty) -> bool {
    last_seg(t) matches Some(s) && s.ident@ == "R2eConfig"@ && s.args is Plain
}

/// How a bundle is provided: the position of its configuration field, if
/// any (applied as `override_config`), and the positions of the beans, in
/// field order.
#[derive(PartialEq, Eq, Debug)]
pub struct BundlePlan {
    pub config: Option<usize>,
    pub beans: Vec<usize>,
}

/// The positions of the configuration fields of `fs`, in order.
pub open spec fn config_positions(fs: Seq<BundleField>) -> Seq<int> {
    Seq::new(fs.len(), |k: int| k).filter(|k: int| is_config_type(fs[k].ty))
}

/// The positions of the bean fields of `fs`, in order.
pub open spec fn bean_positions(fs: Seq<BundleField>) -> Seq<int> {
    Seq::new(fs.len(), |k: int| k).filter(|k: int| !is_config_type(fs[k].ty))
}

/// Whether a type is the configuration type.
fn config_type(t: &Ty) -> (r: bool)
    ensures
        r == is_config_type(*t),
{
    proof {
        reveal_strlit("R2eConfig");
    }
    match last_segment(t) {
        Some(s) => crate::text::str_is(s.ident.as_str(), "R2eConfig") && match &s.args {
            SegArgs::Plain => true,
            _ => false,
        },
        None => false,
    }
}

/// How `#[derive(ProvideBundle)]` provides a struct's fields: refused for a
/// generic struct, a tuple or unit struct, a non-struct, or a second
/// `R2eConfig` field; otherwise the configuration field and the beans.
pub fn plan_bundle(generic: bool, shape: ItemShape, fields: &Vec<BundleField>) -> (r: Result<
    BundlePlan,
    (DeriveSite, String),
>)
    ensures
        generic ==> (r matches Err((s, m)) && s == DeriveSite::Generics && m@ == bundle_generic_msg()),
        !generic && shape == ItemShape::TupleStruct ==> (r matches Err((s, m)) && s == DeriveSite::Fields && m@
            == bundle_tuple_msg()),
        !generic && shape == ItemShape::UnitStruct ==> (r matches Err((s, m)) && s == DeriveSite::Name && m@
            == bundle_unit_msg()),
        !generic && shape == ItemShape::NotStruct ==> (r matches Err((s, m)) && s == DeriveSite::Name && m@
            == bundle_not_struct_msg()),
        !generic && shape == ItemShape::NamedStruct ==> {
            let cs = config_positions(fields@);
            match r {
                Ok(p) => cs.len() <= 1 && p.config == (if cs.len() == 0 {
                    None
                } else {
                    Some(cs[0] as usize)
                }) && p.beans@.map_values(|k: usize| k as int) == bean_positions(fields@),
                Err((s, m)) => cs.len() >= 2 && s == DeriveSite::Field(cs[1] as usize) && m@ == second_config_msg(
                    fields@[cs[0]].name@,
                ),
            }
        },
{
    if generic {
        return Err(
            (
                DeriveSite::Generics,
                msg(
                    "#[derive(ProvideBundle)] does not support generic structs — the provision list is a concrete type-level list, so every field type must be known at the derive site",
                ),
            ),
        );
    }
    match shape {
        ItemShape::NamedStruct => {},
        ItemShape::TupleStruct => {
            return Err(
                (
                    DeriveSite::Fields,
                    msg(
                        "#[derive(ProvideBundle)] requires named fields — each field name is what the generated `.provide(bundle.field)` reads",
                    ),
                ),
            );
        },
        ItemShape::UnitStruct => {
            return Err(
                (DeriveSite::Name, msg("#[derive(ProvideBundle)] on a unit struct provides nothing — drop the derive")),
            );
        },
        ItemShape::NotStruct => {
            return Err((DeriveSite::Name, msg("#[derive(ProvideBundle)] is only valid on structs")));
        },
    }
    let ghost fs = fields@;
    let ghost idx = Seq::new(fields@.len(), |k: int| k);
    let ghost pc = |k: int| is_config_type(fields@[k].ty);
    let ghost pb = |k: int| !is_config_type(fields@[k].ty);
    let mut config: Option<usize> = None;
    let mut beans: Vec<usize> = Vec::new();
    let mut i: usize = 0;
    proof {
        reveal(Seq::filter);
        assert(idx.take(0) =~= Seq::<int>::empty());
        assert(beans@.map_values(|k: usize| k as int) =~= Seq::<int>::empty());
    }
    while i < fields.len()
        invariant
            0 <= i <= fs.len(),
            !generic,
            shape == ItemShape::NamedStruct,
            fs == fields@,
            config matches Some(c) ==> c < i,
            idx == Seq::new(fields@.len(), |k: int| k),
            pc == (|k: int| is_config_type(fields@[k].ty)),
            pb == (|k: int| !is_config_type(fields@[k].ty)),
            idx.take(i as int).filter(pc).len() <= 1,
            forall|k: int|
                0 <= k < idx.take(i as int).filter(pc).len() ==> 0 <= #[trigger] idx.take(i as int).filter(pc)[k] < i,
            config == (if idx.take(i as int).filter(pc).len() == 0 {
                None
            } else {
                Some(idx.take(i as int).filter(pc)[0] as usize)
            }),
            beans@.map_values(|k: usize| k as int) == idx.take(i as int).filter(pb),
        decreases fs.len() - i,
    {
        proof {
            reveal(Seq::filter);
            assert(idx.take(i + 1).drop_last() =~= idx.take(i as int));
            assert(idx.take(i + 1).last() == i as int);
        }
        if config_type(&fields[i].ty) {
            match config {
                Some(first) => {
                    let mut v = chars_of("a `ProvideBundle` may carry at most one `R2eConfig` field — `");
                    push_str(&mut v, fields[first].name.as_str());
                    push_str(
                        &mut v,
                        "` already claims it. The config field becomes `override_config(..)`, and a second one would silently discard the first",
                    );
                    proof {
                        let pre = idx.take(i as int).filter(pc);
                        assert(idx.take(i + 1).filter(pc) =~= pre.push(i as int));
                        lemma_filter_prefix(idx, pc, i + 1, fs.len() as int);
                        assert(idx.take(fs.len() as int) =~= idx);
                        let cs = config_positions(fields@);
                        assert(cs == idx.filter(pc));
                        assert(cs[0] == pre[0]);
                        assert(cs[1] == i as int);
                        assert(v@ =~= second_config_msg(fields@[cs[0]].name@));
                    }
                    return Err((DeriveSite::Field(i), string_of(&v)));
                },
                None => {
                    config = Some(i);
                },
            }
        } else {
            let ghost b = beans@;
            beans.push(i);
            proof {
                assert(beans@.map_values(|k: usize| k as int) =~= b.map_values(|k: usize| k as int).push(
                    i as int,
                ));
            }
        }
        i = i + 1;
    }
    proof {
        assert(idx.take(i as int) =~= idx);
    }
    Ok(BundlePlan { config, beans })
}

/// Filtering a longer prefix keeps the filtered shorter prefix as a prefix.
proof fn lemma_filter_prefix(s: Seq<int>, p: spec_fn(int) -> bool, i: int, n: int)
    requires
        0 <= i <= n <= s.len(),
    ensures
        s.take(i).filter(p).len() <= s.take(n).filter(p).len(),
        forall|k: int|
            0 <= k < s.take(i).filter(p).len() ==> #[trigger] s.take(n).filter(p)[k] == s.take(i).filter(p)[k],
    decreases n - i,
{
    if i < n {
        lemma_filter_prefix(s, p, i, n - 1);
        reveal(Seq::filter);
        assert(s.take(n).drop_last() =~= s.take(n - 1));
    }
}

// ── ObjectParams ────────────────────────────────────────────────────────

pub open spec fn object_params_msg() -> Seq<char> {
    "ObjectParams can only be derived for structs with named fields"@
}

/// `#[derive(ObjectParams)]` accepts only a struct with named fields.
pub fn check_object_params(shape: ItemShape) -> (r: Result<(), (DeriveSite, String)>)
    ensures
        shape == ItemShape::NamedStruct ==> r is Ok,
        shape != ItemShape::NamedStruct ==> (r matches Err((s, m)) && s == DeriveSite::Name && m@
            == object_params_msg()),
{
    match shape {
        ItemShape::NamedStruct => Ok(()),
        _ => Err((DeriveSite::Name, msg("ObjectParams can only be derived for structs with named fields"))),
    }
}

// ── state structs ───────────────────────────────────────────────────────

/// A field of a state struct: its type and attributes.
pub struct StateField<R> {
    pub ty: Ty,
    pub attrs: Vec<crate::attrs::Attr<R>>,
}

/// Whether a field opts out with `#[<n>(skip)]` or `#[<n>(skip_from_ref)]`.
pub open spec fn opts_out<R>(attrs: Seq<crate::attrs::Attr<R>>, n: Seq<char>) -> bool {
    exists|k: int|
        0 <= k < attrs.len() && crate::attrs::named(#[trigger] attrs[k], n) && (crate::controller::qualifier_is(
            attrs[k],
            "skip"@,
        ) || crate::controller::qualifier_is(attrs[k], "skip_from_ref"@))
}

/// The key a field's type is told apart by: its rendering without spaces.
pub open spec fn type_key(t: Ty) -> Seq<char> {
    crate::types::without_spaces(t.tokens@)
}

/// The fields a state struct exposes by type, in order: those that do not
/// opt out, each the first of its type.
pub open spec fn exposed<R>(fs: Seq<StateField<R>>, n: Seq<char>) -> Seq<int>
    decreases fs.len(),
{
    if fs.len() == 0 {
        Seq::empty()
    } else {
        let acc = exposed(fs.drop_last(), n);
        let f = fs.last();
        if !opts_out(f.attrs@, n) && !(exists|j: int|
            0 <= j < acc.len() && #[trigger] type_key(fs[acc[j]].ty) == type_key(f.ty)) {
            acc.push(fs.len() - 1)
        } else {
            acc
        }
    }
}

proof fn lemma_exposed_in_range<R>(fs: Seq<StateField<R>>, n: Seq<char>)
    ensures
        forall|j: int| 0 <= j < exposed(fs, n).len() ==> 0 <= #[trigger] exposed(fs, n)[j] < fs.len(),
    decreases fs.len(),
{
    if fs.len() > 0 {
        let acc = exposed(fs.drop_last(), n);
        lemma_exposed_in_range(fs.drop_last(), n);
        assert forall|j: int| 0 <= j < exposed(fs, n).len() implies 0 <= #[trigger] exposed(fs, n)[j] < fs.len() by {
            if j < acc.len() {
                assert(exposed(fs, n)[j] == acc[j]);
            }
        }
    }
}

proof fn lemma_exposed_prefix<R>(fs: Seq<StateField<R>>, n: Seq<char>, i: int)
    requires
        0 <= i < fs.len(),
    ensures
        forall|j: int| 0 <= j < exposed(fs.take(i), n).len() ==> #[trigger] fs[exposed(fs.take(i), n)[j]] == fs.take(
            i + 1,
        )[exposed(fs.take(i), n)[j]],
{
    lemma_exposed_in_range(fs.take(i), n);
}

/// The positions of the fields a state struct (`FromRef` impls, bean
/// lookups) exposes by type; `skip_attr` names the attribute fields opt
/// out with.
pub fn state_fields<R>(fields: &Vec<StateField<R>>, skip_attr: &str) -> (r: Vec<usize>)
    ensures
        r@.map_values(|k: usize| k as int) == exposed(fields@, skip_attr@),
{
    let mut out: Vec<usize> = Vec::new();
    let mut keys: Vec<Vec<char>> = Vec::new();
    let mut i: usize = 0;
    proof {
        assert(fields@.take(0) =~= Seq::<StateField<R>>::empty());
        assert(out@.map_values(|k: usize| k as int) =~= Seq::<int>::empty());
        reveal_strlit("skip");
        reveal_strlit("skip_from_ref");
    }
    while i < fields.len()
        invariant
            0 <= i <= fields@.len(),
            out@.map_values(|k: usize| k as int) == exposed(fields@.take(i as int), skip_attr@),
            keys@.len() == out@.len(),
            forall|j: int| 0 <= j < out@.len() ==> 0 <= #[trigger] out@[j] < i,
            forall|j: int| 0 <= j < out@.len() ==> (#[trigger] keys@[j])@ == type_key(fields@[out@[j] as int].ty),
        decreases fields@.len() - i,
    {
        let ghost ex = exposed(fields@.take(i as int), skip_attr@);
        proof {
            assert(fields@.take(i + 1).drop_last() =~= fields@.take(i as int));
            assert(fields@.take(i + 1).last() == fields@[i as int]);
            lemma_exposed_prefix(fields@, skip_attr@, i as int);
            lemma_exposed_in_range(fields@.take(i as int), skip_attr@);
        }
        let f = &fields[i];
        let mut skip = false;
        let mut k: usize = 0;
        while k < f.attrs.len()
            invariant
                0 <= k <= f.attrs@.len(),
                skip == exists|j: int|
                    0 <= j < k && crate::attrs::named(#[trigger] f.attrs@[j], skip_attr@) && (
                    crate::controller::qualifier_is(f.attrs@[j], "skip"@) || crate::controller::qualifier_is(
                        f.attrs@[j],
                        "skip_from_ref"@,
                    )),
            decreases f.attrs@.len() - k,
        {
            let a = &f.attrs[k];
            if crate::attrs::is_named(a, skip_attr) && (crate::controller::has_qualifier(a, "skip")
                || crate::controller::has_qualifier(a, "skip_from_ref")) {
                skip = true;
            }
            k = k + 1;
        }
        if !skip {
            let key = chars_of(crate::types::remove_spaces(&f.ty.tokens).as_str());
            let mut dup = false;
            let mut j: usize = 0;
            while j < keys.len()
                invariant
                    0 <= j <= keys@.len(),
                    keys@.len() == out@.len(),
                    forall|m: int| 0 <= m < out@.len() ==> (#[trigger] keys@[m])@ == type_key(fields@[out@[m] as int].ty),
                    dup == exists|m: int| 0 <= m < j && (#[trigger] keys@[m])@ == key@,
                decreases keys@.len() - j,
            {
                if crate::text::chars_eq(&keys[j], &key) {
                    dup = true;
                }
                j = j + 1;
            }
            proof {
                let fi = fields@.take(i + 1);
                assert(ex.len() == out@.len());
                assert forall|m: int| 0 <= m < ex.len() implies #[trigger] ex[m] == out@[m] as int by {
                    assert(out@.map_values(|k: usize| k as int)[m] == out@[m] as int);
                }
                if dup {
                    let m = choose|m: int| 0 <= m < keys@.len() && (#[trigger] keys@[m])@ == key@;
                    assert(type_key(fi[ex[m]].ty) == type_key(f.ty));
                } else {
                    assert forall|m: int| 0 <= m < ex.len() implies !(#[trigger] type_key(fi[ex[m]].ty) == type_key(
                        f.ty,
                    )) by {
                        assert(keys@[m]@ == type_key(fields@[out@[m] as int].ty));
                    }
                }
            }
            if !dup {
                let ghost before = out@;
                out.push(i);
                keys.push(key);
                proof {
                    assert(out@.map_values(|k: usize| k as int) =~= before.map_values(|k: usize| k as int).push(
                        i as int,
                    ));
                }
            }
        }
        i = i + 1;
    }
    proof {
        assert(fields@.take(i as int) =~= fields@);
    }
    out
}

/// Of every state struct: the fields it exposes by type have pairwise
/// different types, so no type gets two `FromRef` impls, and none of them
/// opted out.
pub proof fn lemma_exposed_types_unique<R>(fs: Seq<StateField<R>>, n: Seq<char>)
    ensures
        forall|j: int, k: int|
            0 <= j < k < exposed(fs, n).len() ==> type_key(fs[#[trigger] exposed(fs, n)[j]].ty) != type_key(
                fs[#[trigger] exposed(fs, n)[k]].ty,
            ),
        forall|j: int| 0 <= j < exposed(fs, n).len() ==> !opts_out(fs[#[trigger] exposed(fs, n)[j]].attrs@, n),
    decreases fs.len(),
{
    if fs.len() > 0 {
        let pre = fs.drop_last();
        let acc = exposed(pre, n);
        let ex = exposed(fs, n);
        lemma_exposed_types_unique(pre, n);
        lemma_exposed_in_range(pre, n);
        assert forall|j: int| 0 <= j < acc.len() implies #[trigger] fs[acc[j]] == pre[acc[j]] by {}
        assert forall|j: int, k: int|
            0 <= j < k < ex.len() implies type_key(fs[#[trigger] ex[j]].ty) != type_key(fs[#[trigger] ex[k]].ty) by {
            assert(ex[j] == acc[j]);
            if k < acc.len() {
                assert(ex[k] == acc[k]);
                assert(pre[acc[j]] == fs[acc[j]]);
                assert(pre[acc[k]] == fs[acc[k]]);
            } else {
                assert(ex[k] == fs.len() - 1);
                assert(fs[acc[j]] == pre[acc[j]]);
                assert(type_key(pre[acc[j]].ty) == type_key(fs[acc[j]].ty));
            }
        }
        assert forall|j: int| 0 <= j < ex.len() implies !opts_out(fs[#[trigger] ex[j]].attrs@, n) by {
            if j < acc.len() {
                assert(ex[j] == acc[j]);
                assert(pre[acc[j]] == fs[acc[j]]);
            }
        }
    }
}

} // verus!
