//! `#[controller]` on a struct: the route prefix of its arguments, and the
//! scope each field is taken from (application state, the request's
//! identity, another request extractor, configuration).

use vstd::prelude::*;

use crate::attrs::{
    any_named, find_named, first_named, has_named, lemma_first_named, name_views, named, named_any, retain_unnamed,
    Attr, AttrForm, Lit, MetaArg, MetaValue,
};
use crate::text::{chars_of, str_is, string_of};
use crate::types::{unwrap_option_type, wrapped_in, Ty};

verus! {

/// A field of the controller struct: its name (`None` where the field has
/// none), type, attributes, and what reading each data-carrying annotation
/// gives; a reading is consulted only where the annotation is present.
pub struct ControllerField<R, E> {
    pub name: Option<String>,
    pub ty: Ty,
    pub attrs: Vec<Attr<R>>,
    /// Key and type name of `#[config("...")]`.
    pub config: Result<(String, String), E>,
    /// The prefix of `#[config_section(prefix = "...")]`.
    pub section_prefix: Result<String, E>,
}

/// The fields of the struct.
pub enum StructFields<R, E> {
    Named(Vec<ControllerField<R, E>>),
    Unit,
    /// A tuple struct.
    Unnamed,
}

/// Where a refusal points.
#[derive(PartialEq, Eq, Structural, Clone, Copy, Debug)]
pub enum ControllerSite {
    /// The struct's name.
    Name,
    /// The name of the field at this position.
    Field(usize),
    /// The annotation of the field at this position.
    FieldAttr(usize),
}

/// Why the struct is refused.
pub enum ControllerFault<'a, E> {
    Read(&'a E),
    At(ControllerSite, String),
}

pub enum CFaultSpec<E> {
    Read(E),
    At(ControllerSite, Seq<char>),
}

pub open spec fn cfault_view<'a, E>(f: ControllerFault<'a, E>) -> CFaultSpec<E> {
    match f {
        ControllerFault::Read(e) => CFaultSpec::Read(*e),
        ControllerFault::At(s, m) => CFaultSpec::At(s, m@),
    }
}

/// Where a field's value comes from.
pub enum FieldScope<'a> {
    /// `#[inject]`: cloned from the application state.
    App,
    /// `#[inject(identity)]`: the request's identity; `inner` is `T` of a
    /// declared `Option<T>` (then `optional`), else the declared type.
    Identity { inner: &'a Ty, optional: bool },
    /// `#[inject(request)]`: extracted from the request.
    Request,
    /// `#[config("...")]`: key, type name, and whether the field is an `Option`.
    Config { key: &'a String, ty_name: &'a String, is_option: bool },
    /// `#[config_section(prefix = "...")]`.
    Section { prefix: &'a String },
}

pub enum ScopeSpec {
    App,
    Identity { inner: Ty, optional: bool },
    Request,
    Config { key: Seq<char>, ty_name: Seq<char>, is_option: bool },
    Section { prefix: Seq<char> },
}

pub open spec fn scope_view<'a>(s: FieldScope<'a>) -> ScopeSpec {
    match s {
        FieldScope::App => ScopeSpec::App,
        FieldScope::Identity { inner, optional } => ScopeSpec::Identity { inner: *inner, optional },
        FieldScope::Request => ScopeSpec::Request,
        FieldScope::Config { key, ty_name, is_option } => ScopeSpec::Config {
            key: key@,
            ty_name: ty_name@,
            is_option,
        },
        FieldScope::Section { prefix } => ScopeSpec::Section { prefix: prefix@ },
    }
}

pub open spec fn tuple_fields_msg() -> Seq<char> {
    "Controller cannot have tuple fields — use named fields or a unit struct:\n\n  struct MyController {\n      #[inject] service: MyService,\n  }\n\n  // or: struct MyController;"@
}

pub open spec fn unnamed_field_msg() -> Seq<char> {
    "expected named field"@
}

pub open spec fn removed_identity_msg() -> Seq<char> {
    "`#[identity]` was removed; use `#[inject(identity)]`"@
}

pub open spec fn invalid_qualifier_msg() -> Seq<char> {
    "invalid qualifier in #[inject(...)]: only `identity` and `request` are supported\n\n  #[inject]           — app-scoped (cloned from state)\n\n  #[inject(identity)] — request-scoped identity extraction\n\n  #[inject(request)]  — request-scoped value via FromRequestParts"@
}

pub open spec fn unannotated_field_msg() -> Seq<char> {
    "every controller field must be annotated with one of:\n\n  #[inject]              — clone from app state\n\n  #[inject(identity)]    — extract from request (e.g. AuthenticatedUser)\n\n  #[inject(request)]     — extract from request via FromRequestParts\n\n  #[config(\"app.key\")]   — resolve from R2eConfig\n\n  #[config_section(prefix = \"...\")]  — resolve typed config section via ConfigProperties"@
}

pub open spec fn several_identities_msg() -> Seq<char> {
    "controller can have at most one #[inject(identity)] struct field\n\nhint: use param-level injection for mixed public/protected endpoints:\n\n  #[get(\"/me\")]\n  async fn me(&self, #[inject(identity)] user: AuthenticatedUser) -> ... { }"@
}

/// Whether `#[inject(...)]` holds exactly the qualifier `want`.
pub open spec fn qualifier_is<R>(a: Attr<R>, want: Seq<char>) -> bool {
    a.form is List && (a.meta matches Ok(v) && v@.len() == 1 && v@[0].key@ == want && v@[0].value is Bare)
}

/// The scope of the field at position `i`.
pub open spec fn field_scope<R, E>(f: ControllerField<R, E>, i: int) -> Result<ScopeSpec, CFaultSpec<E>> {
    let attrs = f.attrs@;
    if f.name is None {
        Err(CFaultSpec::At(ControllerSite::Name, unnamed_field_msg()))
    } else if has_named(attrs, "identity"@) {
        Err(CFaultSpec::At(ControllerSite::FieldAttr(i as usize), removed_identity_msg()))
    } else if has_named(attrs, "inject"@) {
        let a = attrs[first_named(attrs, "inject"@)->Some_0];
        if qualifier_is(a, "identity"@) {
            match wrapped_in(f.ty, "Option"@) {
                Some(inner) => Ok(ScopeSpec::Identity { inner, optional: true }),
                None => Ok(ScopeSpec::Identity { inner: f.ty, optional: false }),
            }
        } else if qualifier_is(a, "request"@) {
            Ok(ScopeSpec::Request)
        } else if a.form is List {
            Err(CFaultSpec::At(ControllerSite::FieldAttr(i as usize), invalid_qualifier_msg()))
        } else {
            Ok(ScopeSpec::App)
        }
    } else if has_named(attrs, "config"@) {
        match f.config {
            Err(e) => Err(CFaultSpec::Read(e)),
            Ok((key, ty_name)) => Ok(
                ScopeSpec::Config { key: key@, ty_name: ty_name@, is_option: wrapped_in(f.ty, "Option"@) is Some },
            ),
        }
    } else if has_named(attrs, "config_section"@) {
        match f.section_prefix {
            Err(e) => Err(CFaultSpec::Read(e)),
            Ok(p) => Ok(ScopeSpec::Section { prefix: p@ }),
        }
    } else {
        Err(CFaultSpec::At(ControllerSite::Field(i as usize), unannotated_field_msg()))
    }
}

/// The scopes of the fields, in order; the first field that cannot be
/// scoped stops it.
pub open spec fn scopes_of<R, E>(fs: Seq<ControllerField<R, E>>) -> Result<Seq<ScopeSpec>, CFaultSpec<E>>
    decreases fs.len(),
{
    if fs.len() == 0 {
        Ok(Seq::empty())
    } else {
        match scopes_of(fs.drop_last()) {
            Err(f) => Err(f),
            Ok(acc) => match field_scope(fs.last(), fs.len() - 1) {
                Err(f) => Err(f),
                Ok(s) => Ok(acc.push(s)),
            },
        }
    }
}

proof fn lemma_scopes_stop<R, E>(fs: Seq<ControllerField<R, E>>, i: int)
    requires
        0 <= i <= fs.len(),
        scopes_of(fs.take(i)) is Err,
    ensures
        scopes_of(fs) == scopes_of(fs.take(i)),
    decreases fs.len() - i,
{
    if i == fs.len() {
        assert(fs.take(i) =~= fs);
    } else {
        assert(fs.drop_last().take(i) =~= fs.take(i));
        lemma_scopes_stop(fs.drop_last(), i);
    }
}

/// The number of identity fields.
pub open spec fn identity_count(ss: Seq<ScopeSpec>) -> nat
    decreases ss.len(),
{
    if ss.len() == 0 {
        0
    } else {
        identity_count(ss.drop_last()) + if ss.last() is Identity {
            1nat
        } else {
            0nat
        }
    }
}

/// The scopes of the struct's fields, or why it is refused: a tuple struct,
/// a field that cannot be scoped, or more than one identity field.
pub open spec fn controller_outcome<R, E>(fields: StructFields<R, E>) -> Result<Seq<ScopeSpec>, CFaultSpec<E>> {
    match fields {
        StructFields::Unit => Ok(Seq::empty()),
        StructFields::Unnamed => Err(CFaultSpec::At(ControllerSite::Name, tuple_fields_msg())),
        StructFields::Named(fs) => match scopes_of(fs@) {
            Err(f) => Err(f),
            Ok(ss) => if identity_count(ss) > 1 {
                Err(CFaultSpec::At(ControllerSite::Name, several_identities_msg()))
            } else {
                Ok(ss)
            },
        },
    }
}

fn msg(s: &str) -> (r: String)
    ensures
        r@ == s@,
{
    string_of(&chars_of(s))
}

/// Whether `#[inject(...)]` holds exactly the qualifier `want`.
pub(crate) fn has_qualifier<R>(a: &Attr<R>, want: &str) -> (r: bool)
    ensures
        r == qualifier_is(*a, want@),
{
    match (&a.form, &a.meta) {
        (AttrForm::List, Ok(v)) => {
            if v.len() == 1 && str_is(v[0].key.as_str(), want) {
                match &v[0].value {
                    MetaValue::Bare => true,
                    _ => false,
                }
            } else {
                false
            }
        },
        _ => false,
    }
}

/// The scope of one field.
fn scope_field<'a, R, E>(f: &'a ControllerField<R, E>, i: usize) -> (r: Result<FieldScope<'a>, ControllerFault<'a, E>>)
    ensures
        match r {
            Ok(s) => field_scope(*f, i as int) == Ok::<ScopeSpec, CFaultSpec<E>>(scope_view(s)),
            Err(x) => field_scope(*f, i as int) == Err::<ScopeSpec, CFaultSpec<E>>(cfault_view(x)),
        },
{
    proof {
        reveal_strlit("identity");
        reveal_strlit("request");
    }
    if f.name.is_none() {
        return Err(ControllerFault::At(ControllerSite::Name, msg("expected named field")));
    }
    if any_named(&f.attrs, "identity") {
        return Err(
            ControllerFault::At(
                ControllerSite::FieldAttr(i),
                msg("`#[identity]` was removed; use `#[inject(identity)]`"),
            ),
        );
    }
    proof {
        lemma_first_named(f.attrs@, "inject"@);
    }
    match find_named(&f.attrs, "inject") {
        Some(j) => {
            let a = &f.attrs[j];
            if has_qualifier(a, "identity") {
                match unwrap_option_type(&f.ty) {
                    Some(inner) => Ok(FieldScope::Identity { inner, optional: true }),
                    None => Ok(FieldScope::Identity { inner: &f.ty, optional: false }),
                }
            } else if has_qualifier(a, "request") {
                Ok(FieldScope::Request)
            } else if let AttrForm::List = &a.form {
                Err(
                    ControllerFault::At(
                        ControllerSite::FieldAttr(i),
                        msg(
                            "invalid qualifier in #[inject(...)]: only `identity` and `request` are supported\n\n  #[inject]           — app-scoped (cloned from state)\n\n  #[inject(identity)] — request-scoped identity extraction\n\n  #[inject(request)]  — request-scoped value via FromRequestParts",
                        ),
                    ),
                )
            } else {
                Ok(FieldScope::App)
            }
        },
        None => {
            if any_named(&f.attrs, "config") {
                match &f.config {
                    Err(e) => Err(ControllerFault::Read(e)),
                    Ok((key, ty_name)) => Ok(
                        FieldScope::Config { key, ty_name, is_option: unwrap_option_type(&f.ty).is_some() },
                    ),
                }
            } else if any_named(&f.attrs, "config_section") {
                match &f.section_prefix {
                    Err(e) => Err(ControllerFault::Read(e)),
                    Ok(prefix) => Ok(FieldScope::Section { prefix }),
                }
            } else {
                Err(
                    ControllerFault::At(
                        ControllerSite::Field(i),
                        msg(
                            "every controller field must be annotated with one of:\n\n  #[inject]              — clone from app state\n\n  #[inject(identity)]    — extract from request (e.g. AuthenticatedUser)\n\n  #[inject(request)]     — extract from request via FromRequestParts\n\n  #[config(\"app.key\")]   — resolve from R2eConfig\n\n  #[config_section(prefix = \"...\")]  — resolve typed config section via ConfigProperties",
                        ),
                    ),
                )
            }
        },
    }
}

/// The scope of each field of a `#[controller]` struct, in declaration order.
pub fn parse_controller_fields<'a, R, E>(fields: &'a StructFields<R, E>) -> (r: Result<
    Vec<FieldScope<'a>>,
    ControllerFault<'a, E>,
>)
    ensures
        match r {
            Ok(v) => controller_outcome(*fields) == Ok::<Seq<ScopeSpec>, CFaultSpec<E>>(
                v@.map_values(|s: FieldScope<'a>| scope_view(s)),
            ),
            Err(x) => controller_outcome(*fields) == Err::<Seq<ScopeSpec>, CFaultSpec<E>>(cfault_view(x)),
        },
{
    let fs = match fields {
        StructFields::Unit => {
            let v: Vec<FieldScope<'a>> = Vec::new();
            proof {
                assert(v@.map_values(|s: FieldScope<'a>| scope_view(s)) =~= Seq::<ScopeSpec>::empty());
            }
            return Ok(v);
        },
        StructFields::Unnamed => {
            return Err(
                ControllerFault::At(
                    ControllerSite::Name,
                    msg(
                        "Controller cannot have tuple fields — use named fields or a unit struct:\n\n  struct MyController {\n      #[inject] service: MyService,\n  }\n\n  // or: struct MyController;",
                    ),
                ),
            );
        },
        StructFields::Named(fs) => fs,
    };
    let ghost all = fs@;
    let mut out: Vec<FieldScope<'a>> = Vec::new();
    let mut identities: usize = 0;
    let mut i: usize = 0;
    proof {
        assert(all.take(0) =~= Seq::<ControllerField<R, E>>::empty());
        assert(out@.map_values(|s: FieldScope<'a>| scope_view(s)) =~= Seq::<ScopeSpec>::empty());
    }
    while i < fs.len()
        invariant
            0 <= i <= all.len(),
            all == fs@,
            *fields == StructFields::Named(*fs),
            scopes_of(all.take(i as int)) == Ok::<Seq<ScopeSpec>, CFaultSpec<E>>(
                out@.map_values(|s: FieldScope<'a>| scope_view(s)),
            ),
            identities == identity_count(out@.map_values(|s: FieldScope<'a>| scope_view(s))),
            identities <= i,
        decreases all.len() - i,
    {
        proof {
            assert(all.take(i + 1).drop_last() =~= all.take(i as int));
            assert(all.take(i + 1).last() == all[i as int]);
        }
        let s = match scope_field(&fs[i], i) {
            Err(x) => {
                proof {
                    lemma_scopes_stop(all, i + 1);
                }
                return Err(x);
            },
            Ok(s) => s,
        };
        let is_identity = match &s {
            FieldScope::Identity { .. } => true,
            _ => false,
        };
        let ghost before = out@;
        out.push(s);
        proof {
            assert(out@.map_values(|s: FieldScope<'a>| scope_view(s)) =~= before.map_values(
                |s: FieldScope<'a>| scope_view(s),
            ).push(scope_view(s)));
            assert(out@.map_values(|s: FieldScope<'a>| scope_view(s)).drop_last() =~= before.map_values(
                |s: FieldScope<'a>| scope_view(s),
            ));
        }
        if is_identity {
            identities = identities + 1;
        }
        i = i + 1;
    }
    proof {
        assert(all.take(i as int) =~= all);
    }
    if identities > 1 {
        return Err(
            ControllerFault::At(
                ControllerSite::Name,
                msg(
                    "controller can have at most one #[inject(identity)] struct field\n\nhint: use param-level injection for mixed public/protected endpoints:\n\n  #[get(\"/me\")]\n  async fn me(&self, #[inject(identity)] user: AuthenticatedUser) -> ... { }",
                ),
            ),
        );
    }
    Ok(out)
}

/// Whether a scope is an identity (`identity`) or a request extraction.
pub open spec fn scope_matches(s: ScopeSpec, identity: bool) -> bool {
    if identity {
        s is Identity
    } else {
        s is Request
    }
}

/// The positions of the request-scoped fields: the identity fields, then
/// the `#[inject(request)]` fields, each in declaration order.
pub open spec fn request_scoped(ss: Seq<ScopeSpec>) -> Seq<int> {
    Seq::new(ss.len(), |k: int| k).filter(|k: int| scope_matches(ss[k], true)) + Seq::new(
        ss.len(),
        |k: int| k,
    ).filter(|k: int| scope_matches(ss[k], false))
}

/// The positions whose scope is an identity (or a request extraction), in order.
fn positions_where<'a>(scopes: &Vec<FieldScope<'a>>, identity: bool) -> (r: Vec<usize>)
    ensures
        r@.map_values(|k: usize| k as int) == Seq::new(scopes@.len(), |k: int| k).filter(
            |k: int| scope_matches(scopes@.map_values(|s: FieldScope<'a>| scope_view(s))[k], identity),
        ),
{
    let ghost ss = scopes@.map_values(|s: FieldScope<'a>| scope_view(s));
    let ghost p = |k: int| scope_matches(ss[k], identity);
    let ghost idx = Seq::new(scopes@.len(), |k: int| k);
    let mut out: Vec<usize> = Vec::new();
    let mut i: usize = 0;
    proof {
        assert(idx.take(0).filter(p) =~= Seq::<int>::empty()) by {
            reveal(Seq::filter);
        }
        assert(out@.map_values(|k: usize| k as int) =~= Seq::<int>::empty());
    }
    while i < scopes.len()
        invariant
            0 <= i <= scopes@.len(),
            ss == scopes@.map_values(|s: FieldScope<'a>| scope_view(s)),
            idx == Seq::new(scopes@.len(), |k: int| k),
            p == (|k: int| scope_matches(ss[k], identity)),
            out@.map_values(|k: usize| k as int) == idx.take(i as int).filter(p),
        decreases scopes@.len() - i,
    {
        let hit = match &scopes[i] {
            FieldScope::Identity { .. } => identity,
            FieldScope::Request => !identity,
            _ => false,
        };
        proof {
            reveal(Seq::filter);
            assert(idx.take(i + 1).drop_last() =~= idx.take(i as int));
            assert(idx.take(i + 1).last() == i as int);
            assert(hit == p(i as int));
        }
        if hit {
            let ghost before = out@;
            out.push(i);
            proof {
                assert(out@.map_values(|k: usize| k as int) =~= before.map_values(|k: usize| k as int).push(
                    i as int,
                ));
            }
        }
        i = i + 1;
    }
    proof {
        assert(idx.take(i as int) =~= idx);
    }
    out
}

/// The positions of the request-scoped fields: identity first, then
/// `#[inject(request)]` fields.
pub fn request_scoped_fields<'a>(scopes: &Vec<FieldScope<'a>>) -> (r: Vec<usize>)
    ensures
        r@.map_values(|k: usize| k as int) == request_scoped(
            scopes@.map_values(|s: FieldScope<'a>| scope_view(s)),
        ),
{
    let mut ids = positions_where(scopes, true);
    let mut reqs = positions_where(scopes, false);
    let ghost a = ids@;
    let ghost b = reqs@;
    ids.append(&mut reqs);
    proof {
        let ss = scopes@.map_values(|s: FieldScope<'a>| scope_view(s));
        assert(ids@.map_values(|k: usize| k as int) =~= a.map_values(|k: usize| k as int) + b.map_values(
            |k: usize| k as int,
        ));
        assert(Seq::new(scopes@.len(), |k: int| k) =~= Seq::new(ss.len(), |k: int| k));
    }
    ids
}

/// The names of the request-scoped fields (identity first, then
/// `#[inject(request)]` fields), which leave the controller core for the
/// request façade; `names` are the fields' names, by position.
pub fn request_scoped_field_names<'a>(names: &Vec<String>, scopes: &Vec<FieldScope<'a>>) -> (r: Vec<
    String,
>)
    requires
        names@.len() == scopes@.len(),
    ensures
        r@.map_values(|n: String| n@) == request_scoped(
            scopes@.map_values(|s: FieldScope<'a>| scope_view(s)),
        ).map_values(|k: int| names@[k]@),
{
    let idx = request_scoped_fields(scopes);
    let ghost ks = request_scoped(scopes@.map_values(|s: FieldScope<'a>| scope_view(s)));
    proof {
        assert forall|j: int| 0 <= j < idx@.len() implies idx@[j] < names@.len() by {
            assert(idx@.map_values(|k: usize| k as int)[j] == ks[j]);
            let ss = scopes@.map_values(|s: FieldScope<'a>| scope_view(s));
            let base = Seq::new(ss.len(), |k: int| k);
            let p1 = |k: int| scope_matches(ss[k], true);
            let p2 = |k: int| scope_matches(ss[k], false);
            let f1 = base.filter(p1);
            let f2 = base.filter(p2);
            assert(ks == f1 + f2);
            assert(ks.len() == idx@.len());
            if j < base.filter(p1).len() {
                assert(base.filter(p1)[j] == ks[j]);
                assert(base.filter(p1).contains(ks[j]));
                base.lemma_filter_contains_rev(p1, ks[j]);
            } else {
                assert((f1 + f2)[j] == f2[j - f1.len()]);
                assert(f2.contains(ks[j]));
                base.lemma_filter_contains_rev(p2, ks[j]);
            }
        }
    }
    let mut out: Vec<String> = Vec::new();
    let mut i: usize = 0;
    while i < idx.len()
        invariant
            0 <= i <= idx@.len(),
            names@.len() == scopes@.len(),
            forall|j: int| 0 <= j < idx@.len() ==> idx@[j] < names@.len(),
            out@.len() == i,
            forall|j: int| 0 <= j < i ==> #[trigger] out@[j]@ == names@[idx@[j] as int]@,
        decreases idx@.len() - i,
    {
        out.push(names[idx[i]].clone());
        i = i + 1;
    }
    proof {
        assert(ks.len() == idx@.len());
        assert forall|j: int| 0 <= j < ks.len() implies ks[j] == idx@[j] as int by {
            assert(idx@.map_values(|k: usize| k as int)[j] == ks[j]);
        }
        assert(out@.map_values(|n: String| n@) =~= ks.map_values(|k: int| names@[k]@));
    }
    out
}

// ── arguments ───────────────────────────────────────────────────────────

pub open spec fn removed_state_arg_msg() -> Seq<char> {
    "`state = ...` was removed — controllers are constructed from the bean graph by type; drop the key and make sure every #[inject] field type is provided or registered on the AppBuilder before build_state()"@
}

pub open spec fn unknown_controller_arg_msg() -> Seq<char> {
    "unknown attribute in #[controller(...)]: expected `path`"@
}

/// The route prefix `#[controller(...)]` sets, read left to right: `path =
/// "..."` sets it (a later one wins); `state` and any other key are refused.
pub open spec fn controller_prefix(args: Seq<MetaArg>, acc: Option<Seq<char>>) -> Result<Option<Seq<char>>, Seq<char>>
    decreases args.len(),
{
    if args.len() == 0 {
        Ok(acc)
    } else {
        let a = args[0];
        if a.key@ == "path"@ {
            match a.value {
                MetaValue::Eq(Lit::Str(s)) => controller_prefix(args.drop_first(), Some(s@)),
                MetaValue::Eq(_) => Err("expected string literal"@),
                _ => Err("expected `=`"@),
            }
        } else if a.key@ == "state"@ {
            Err(removed_state_arg_msg())
        } else {
            Err(unknown_controller_arg_msg())
        }
    }
}

/// The route prefix of `#[controller(...)]`, from its arguments read as
/// nested metas.
pub fn parse_controller_args(args: &Result<Vec<MetaArg>, String>) -> (r: Result<Option<String>, String>)
    ensures
        match args {
            Err(e) => r matches Err(x) && x@ == e@,
            Ok(v) => match controller_prefix(v@, None) {
                Ok(p) => r matches Ok(q) && crate::attrs::opt_view(q) == p,
                Err(m) => r matches Err(x) && x@ == m,
            },
        },
{
    let v = match args {
        Err(e) => return Err(e.clone()),
        Ok(v) => v,
    };
    proof {
        reveal_strlit("path");
        reveal_strlit("state");
        reveal_strlit("expected string literal");
        reveal_strlit("expected `=`");
    }
    let mut prefix: Option<String> = None;
    let mut i: usize = 0;
    proof {
        assert(v@.skip(0) =~= v@);
    }
    while i < v.len()
        invariant
            0 <= i <= v@.len(),
            *args == Ok::<Vec<MetaArg>, String>(*v),
            controller_prefix(v@, None) == controller_prefix(v@.skip(i as int), crate::attrs::opt_view(prefix)),
        decreases v@.len() - i,
    {
        proof {
            assert(v@.skip(i as int).drop_first() =~= v@.skip(i + 1));
            assert(v@.skip(i as int)[0] == v@[i as int]);
        }
        let a = &v[i];
        if str_is(a.key.as_str(), "path") {
            match &a.value {
                MetaValue::Eq(Lit::Str(s)) => {
                    prefix = Some(s.clone());
                },
                MetaValue::Eq(_) => return Err(msg("expected string literal")),
                _ => return Err(msg("expected `=`")),
            }
        } else if str_is(a.key.as_str(), "state") {
            return Err(
                msg(
                    "`state = ...` was removed — controllers are constructed from the bean graph by type; drop the key and make sure every #[inject] field type is provided or registered on the AppBuilder before build_state()",
                ),
            );
        } else {
            return Err(msg("unknown attribute in #[controller(...)]: expected `path`"));
        }
        i = i + 1;
    }
    proof {
        assert(v@.skip(i as int).len() == 0);
        assert(v@.skip(0) =~= v@);
    }
    Ok(prefix)
}

// ── laws ────────────────────────────────────────────────────────────────

proof fn lemma_identity_count(ss: Seq<ScopeSpec>)
    ensures
        identity_count(ss) == 0 ==> forall|k: int| 0 <= k < ss.len() ==> !(#[trigger] ss[k] is Identity),
        identity_count(ss) <= 1 ==> forall|i: int, j: int|
            0 <= i < j < ss.len() ==> !(#[trigger] ss[i] is Identity && #[trigger] ss[j] is Identity),
    decreases ss.len(),
{
    if ss.len() > 0 {
        let pre = ss.drop_last();
        lemma_identity_count(pre);
        assert forall|k: int| 0 <= k < pre.len() implies pre[k] == ss[k] by {}
    }
}

/// Of every `#[controller]` struct that is accepted: no two of its fields
/// are identity fields.
pub proof fn lemma_single_identity<R, E>(fields: StructFields<R, E>, ss: Seq<ScopeSpec>)
    requires
        controller_outcome(fields) == Ok::<Seq<ScopeSpec>, CFaultSpec<E>>(ss),
    ensures
        forall|i: int, j: int| 0 <= i < j < ss.len() ==> !(#[trigger] ss[i] is Identity && #[trigger] ss[j] is Identity),
{
    lemma_identity_count(ss);
}

/// Removes the field annotations `#[controller]` consumes (`#[inject]`,
/// `#[identity]`, `#[config]`, `#[config_section]`) from a field, keeping
/// the others in order.
pub fn strip_controller_field_attrs<R>(attrs: Vec<Attr<R>>) -> (r: Vec<Attr<R>>)
    ensures
        r@ == attrs@.filter(
            |a: Attr<R>|
                !(named(a, "inject"@) || named(a, "identity"@) || named(a, "config"@) || named(
                    a,
                    "config_section"@,
                )),
        ),
{
    let names = vec!["inject", "identity", "config", "config_section"];
    let r = retain_unnamed(attrs, &names);
    proof {
        let ns = name_views(names@);
        assert forall|a: Attr<R>| #![auto]
            named_any(a, ns) == (named(a, "inject"@) || named(a, "identity"@) || named(a, "config"@) || named(
                a,
                "config_section"@,
            )) by {
            if named(a, "inject"@) {
                assert(ns[0] == "inject"@);
            }
            if named(a, "identity"@) {
                assert(ns[1] == "identity"@);
            }
            if named(a, "config"@) {
                assert(ns[2] == "config"@);
            }
            if named(a, "config_section"@) {
                assert(ns[3] == "config_section"@);
            }
        }
        assert((|a: Attr<R>| !named_any(a, ns)) =~= (|a: Attr<R>|
            !(named(a, "inject"@) || named(a, "identity"@) || named(a, "config"@) || named(
                a,
                "config_section"@,
            ))));
    }
    r
}


// ── the state constraint ────────────────────────────────────────────────

/// The positions among the first `n` scopes that `p` selects, in order.
pub open spec fn scopes_where(ss: Seq<ScopeSpec>, p: spec_fn(ScopeSpec) -> bool, n: int) -> Seq<usize>
    decreases n,
{
    if n <= 0 {
        Seq::empty()
    } else {
        scopes_where(ss, p, n - 1) + if p(ss[n - 1]) {
            seq![(n - 1) as usize]
        } else {
            Seq::empty()
        }
    }
}

pub open spec fn scope_views<'a>(scopes: Seq<FieldScope<'a>>) -> Seq<ScopeSpec> {
    scopes.map_values(|s: FieldScope<'a>| scope_view(s))
}

/// The `StateConstraint<__S>` trait of a controller's meta module: an
/// `__inject_<field>` method per application-scoped field, an
/// `__extract_<field>` method per identity field (both by position, in
/// declaration order), `__get_config` when the controller reads
/// configuration, and a single impl for the named state type when `closed`
/// (else a blanket impl bounded by `FromRef` / `FromRequestParts`).
pub struct StateConstraintPlan {
    pub inject: Vec<usize>,
    pub extract: Vec<usize>,
    pub needs_config: bool,
    pub closed: bool,
}

/// Plans the `StateConstraint` trait of a controller from its field scopes
/// and whether it names its state type.
pub fn plan_state_constraint<'a>(scopes: &Vec<FieldScope<'a>>, named_state: bool) -> (r: StateConstraintPlan)
    ensures
        r.inject@ == scopes_where(scope_views(scopes@), |s: ScopeSpec| s is App, scopes@.len() as int),
        r.extract@ == scopes_where(scope_views(scopes@), |s: ScopeSpec| s is Identity, scopes@.len() as int),
        r.needs_config == exists|k: int|
            0 <= k < scopes@.len() && (scope_view(#[trigger] scopes@[k]) is Config || scope_view(scopes@[k]) is Section),
        r.closed == named_state,
{
    let ghost ss = scope_views(scopes@);
    let mut inject: Vec<usize> = Vec::new();
    let mut extract: Vec<usize> = Vec::new();
    let mut needs_config = false;
    let mut i: usize = 0;
    while i < scopes.len()
        invariant
            0 <= i <= scopes@.len(),
            ss == scope_views(scopes@),
            inject@ == scopes_where(ss, |s: ScopeSpec| s is App, i as int),
            extract@ == scopes_where(ss, |s: ScopeSpec| s is Identity, i as int),
            needs_config == exists|k: int|
                0 <= k < i && (scope_view(#[trigger] scopes@[k]) is Config || scope_view(scopes@[k]) is Section),
        decreases scopes@.len() - i,
    {
        assert(ss[i as int] == scope_view(scopes@[i as int]));
        match &scopes[i] {
            FieldScope::App => {
                inject.push(i);
            },
            FieldScope::Identity { .. } => {
                extract.push(i);
            },
            FieldScope::Config { .. } => {
                needs_config = true;
            },
            FieldScope::Section { .. } => {
                needs_config = true;
            },
            FieldScope::Request => {},
        }
        i = i + 1;
        assert(inject@ =~= scopes_where(ss, |s: ScopeSpec| s is App, i as int));
        assert(extract@ =~= scopes_where(ss, |s: ScopeSpec| s is Identity, i as int));
    }
    StateConstraintPlan { inject, extract, needs_config, closed: named_state }
}


// ── the meta module ─────────────────────────────────────────────────────

/// The required configuration keys among the first `n` scopes: `(key, type
/// name)` of each config field that is not an `Option`, in order.
pub open spec fn required_keys_prefix(ss: Seq<ScopeSpec>, n: int) -> Seq<(Seq<char>, Seq<char>)>
    decreases n,
{
    if n <= 0 {
        Seq::empty()
    } else {
        required_keys_prefix(ss, n - 1) + match ss[n - 1] {
            ScopeSpec::Config { key, ty_name, is_option } => if is_option {
                Seq::empty()
            } else {
                seq![(key, ty_name)]
            },
            _ => Seq::empty(),
        }
    }
}

/// The config sections among the first `n` scopes: position and prefix.
pub open spec fn sections_prefix(ss: Seq<ScopeSpec>, n: int) -> Seq<(int, Seq<char>)>
    decreases n,
{
    if n <= 0 {
        Seq::empty()
    } else {
        sections_prefix(ss, n - 1) + match ss[n - 1] {
            ScopeSpec::Section { prefix } => seq![(n - 1, prefix)],
            _ => Seq::empty(),
        }
    }
}

/// The position of the first identity field among the first `n` scopes.
pub open spec fn first_identity(ss: Seq<ScopeSpec>, n: int) -> Option<int>
    decreases n,
{
    if n <= 0 {
        None
    } else {
        match first_identity(ss, n - 1) {
            Some(k) => Some(k),
            None => if ss[n - 1] is Identity {
                Some(n - 1)
            } else {
                None
            },
        }
    }
}

/// What the `__r2e_meta_<Name>` module of a controller states beside its
/// path prefix: whether the controller has a struct-level identity, whether
/// that identity is required (its first identity field is not an `Option`),
/// the configuration keys `validate_config` checks (the config fields that
/// are not `Option`s, with their type names) and the config sections it
/// validates (field position and prefix), each in declaration order.
pub struct MetaModulePlan<'a> {
    pub has_struct_identity: bool,
    pub identity_required: bool,
    pub required_keys: Vec<(&'a String, &'a String)>,
    pub sections: Vec<(usize, &'a String)>,
}

/// Plans the meta module of a controller from its field scopes.
pub fn plan_meta_module<'a>(scopes: &Vec<FieldScope<'a>>) -> (r: MetaModulePlan<'a>)
    ensures
        r.has_struct_identity == (first_identity(scope_views(scopes@), scopes@.len() as int) is Some),
        r.has_struct_identity == exists|k: int| 0 <= k < scopes@.len() && scope_view(#[trigger] scopes@[k]) is Identity,
        r.identity_required == match first_identity(scope_views(scopes@), scopes@.len() as int) {
            Some(k) => scope_views(scopes@)[k] matches ScopeSpec::Identity { optional, .. } && !optional,
            None => false,
        },
        r.required_keys@.map_values(|p: (&'a String, &'a String)| (p.0@, p.1@)) == required_keys_prefix(
            scope_views(scopes@),
            scopes@.len() as int,
        ),
        r.sections@.map_values(|p: (usize, &'a String)| (p.0 as int, p.1@)) == sections_prefix(
            scope_views(scopes@),
            scopes@.len() as int,
        ),
{
    let ghost ss = scope_views(scopes@);
    let mut first: Option<usize> = None;
    let mut required = false;
    let mut keys: Vec<(&'a String, &'a String)> = Vec::new();
    let mut sections: Vec<(usize, &'a String)> = Vec::new();
    let mut i: usize = 0;
    while i < scopes.len()
        invariant
            0 <= i <= scopes@.len(),
            ss == scope_views(scopes@),
            match first {
                Some(k) => first_identity(ss, i as int) == Some(k as int),
                None => first_identity(ss, i as int) is None,
            },
            (first is None) == !(exists|k: int| 0 <= k < i && scope_view(#[trigger] scopes@[k]) is Identity),
            required == match first_identity(ss, i as int) {
                Some(k) => ss[k] matches ScopeSpec::Identity { optional, .. } && !optional,
                None => false,
            },
            keys@.map_values(|p: (&'a String, &'a String)| (p.0@, p.1@)) == required_keys_prefix(ss, i as int),
            sections@.map_values(|p: (usize, &'a String)| (p.0 as int, p.1@)) == sections_prefix(ss, i as int),
        decreases scopes@.len() - i,
    {
        assert(ss[i as int] == scope_view(scopes@[i as int]));
        let ghost kb = keys@;
        let ghost sb = sections@;
        match &scopes[i] {
            FieldScope::Identity { optional, .. } => {
                if first.is_none() {
                    first = Some(i);
                    required = !*optional;
                }
            },
            FieldScope::Config { key, ty_name, is_option } => {
                if !*is_option {
                    keys.push((*key, *ty_name));
                    assert(keys@.map_values(|p: (&'a String, &'a String)| (p.0@, p.1@)) =~= kb.map_values(
                        |p: (&'a String, &'a String)| (p.0@, p.1@),
                    ).push((key@, ty_name@)));
                }
            },
            FieldScope::Section { prefix } => {
                sections.push((i, *prefix));
                assert(sections@.map_values(|p: (usize, &'a String)| (p.0 as int, p.1@)) =~= sb.map_values(
                    |p: (usize, &'a String)| (p.0 as int, p.1@),
                ).push((i as int, prefix@)));
            },
            _ => {},
        }
        i = i + 1;
        assert(keys@.map_values(|p: (&'a String, &'a String)| (p.0@, p.1@)) =~= required_keys_prefix(ss, i as int));
        assert(sections@.map_values(|p: (usize, &'a String)| (p.0 as int, p.1@)) =~= sections_prefix(ss, i as int));
    }
    MetaModulePlan { has_struct_identity: first.is_some(), identity_required: required, required_keys: keys, sections }
}

} // verus!
