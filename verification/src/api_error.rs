//! The `ApiError` derive: reading the `#[error(...)]` attribute of each enum
//! variant, the fields that carry `#[from]`, and the rules that reject an
//! ill-formed variant.

use vstd::prelude::*;

use crate::attrs::{any_named, has_named, uint_of, Attr};
use crate::text::{chars_of, decimal, decimal_chars, str_is, string_of};
use crate::types::Ty;

verus! {

/// The value of a `key = value` argument, as far as the derive reads it.
pub enum ValueExpr {
    /// A path such as `NOT_FOUND` or `StatusCode::NOT_FOUND`, by its segments.
    Path(Vec<String>),
    /// An integer literal, by its base-10 digits.
    Int(String),
    /// A string literal, by its value.
    Str(String),
    /// Anything else.
    Other,
}

/// One argument of `#[error(...)]`. A path is given by its segments; a
/// leading `::` is an empty first segment, so that such a path is no
/// identifier.
pub enum NestedMeta {
    /// `transparent`.
    Path(Vec<String>),
    /// `name(...)`.
    List(Vec<String>),
    /// `name = value`.
    NameValue(Vec<String>, ValueExpr),
}

/// The HTTP status of a variant.
pub enum StatusExpr {
    /// A `StatusCode` constant, by name.
    Named(String),
    /// A numeric code.
    Numeric(u16),
}

/// What `#[error(...)]` says of a variant.
pub enum ErrorAttr {
    Standard { status: StatusExpr, message: Option<String> },
    /// `#[error(transparent)]`: display and response come from the one field.
    Transparent,
}

/// One field of a variant: its name (for named fields), type and whether it
/// carries `#[from]`.
pub struct FieldDef {
    pub name: Option<String>,
    pub ty: Ty,
    pub is_from: bool,
}

/// The fields of a variant.
pub enum VariantFields {
    Unit,
    Tuple(Vec<FieldDef>),
    Named(Vec<FieldDef>),
}

/// One field as written: name, type and attributes.
pub struct FieldInput<R> {
    pub name: Option<String>,
    pub ty: Ty,
    pub attrs: Vec<Attr<R>>,
}

/// The fields of a variant as written.
pub enum FieldsInput<R> {
    Unit,
    Unnamed(Vec<FieldInput<R>>),
    Named(Vec<FieldInput<R>>),
}

/// One variant as written: its attributes, the arguments of its first
/// `#[error(...)]` as parsed (consulted only where that attribute exists), and
/// its fields.
pub struct VariantInput<R, E> {
    pub attrs: Vec<Attr<R>>,
    pub error_args: Result<Vec<NestedMeta>, E>,
    pub fields: FieldsInput<R>,
}

/// A variant the derive accepted.
pub struct ApiErrorVariant {
    pub fields: VariantFields,
    pub error_attr: ErrorAttr,
}

/// Why a variant is refused.
pub enum ApiErrorFault<E> {
    /// No `#[error(...)]` on the variant (reported at the variant's name).
    MissingErrorAttr,
    /// The arguments of `#[error(...)]` do not parse.
    Args(E),
    /// The `status = ...` argument at this position is no status.
    Status { at: usize, message: String },
    /// The `message = ...` argument at this position is no string literal.
    MessageNotString { at: usize },
    /// `#[error(...)]` has no `status = ...` (reported at the attribute).
    StatusRequired,
    /// `#[error(transparent)]` on a variant without exactly one field.
    TransparentFieldCount,
    /// More than one `#[from]` field.
    MultipleFrom,
}

/// A refusal without its parser error: what the contracts compare.
pub enum FaultView {
    MissingErrorAttr,
    Args,
    Status(int, Seq<char>),
    MessageNotString(int),
    StatusRequired,
    TransparentFieldCount,
    MultipleFrom,
}

pub open spec fn fault_view<E>(f: ApiErrorFault<E>) -> FaultView {
    match f {
        ApiErrorFault::MissingErrorAttr => FaultView::MissingErrorAttr,
        ApiErrorFault::Args(_) => FaultView::Args,
        ApiErrorFault::Status { at, message } => FaultView::Status(at as int, message@),
        ApiErrorFault::MessageNotString { at } => FaultView::MessageNotString(at as int),
        ApiErrorFault::StatusRequired => FaultView::StatusRequired,
        ApiErrorFault::TransparentFieldCount => FaultView::TransparentFieldCount,
        ApiErrorFault::MultipleFrom => FaultView::MultipleFrom,
    }
}

/// The text of a refusal; `None` for a parser error, which has its own.
pub open spec fn fault_text(f: FaultView) -> Option<Seq<char>> {
    match f {
        FaultView::MissingErrorAttr => Some("each variant must have an #[error(...)] attribute"@),
        FaultView::Args => None,
        FaultView::Status(_, m) => Some(m),
        FaultView::MessageNotString(_) => Some("message must be a string literal"@),
        FaultView::StatusRequired => Some("#[error(...)] requires status = STATUS_CODE"@),
        FaultView::TransparentFieldCount => Some("#[error(transparent)] requires exactly one field"@),
        FaultView::MultipleFrom => Some("only one #[from] per variant"@),
    }
}

impl<E> ApiErrorFault<E> {
    /// The message of the refusal; `None` for a parser error.
    pub fn message(&self) -> (r: Option<String>)
        ensures
            match r {
                Some(m) => fault_text(fault_view(*self)) == Some(m@),
                None => fault_text(fault_view(*self)) is None,
            },
    {
        proof {
            reveal_strlit("each variant must have an #[error(...)] attribute");
            reveal_strlit("message must be a string literal");
            reveal_strlit("#[error(...)] requires status = STATUS_CODE");
            reveal_strlit("#[error(transparent)] requires exactly one field");
            reveal_strlit("only one #[from] per variant");
        }
        match self {
            ApiErrorFault::MissingErrorAttr => Some(
                string_of(&chars_of("each variant must have an #[error(...)] attribute")),
            ),
            ApiErrorFault::Args(_) => None,
            ApiErrorFault::Status { message, .. } => Some(message.clone()),
            ApiErrorFault::MessageNotString { .. } => Some(
                string_of(&chars_of("message must be a string literal")),
            ),
            ApiErrorFault::StatusRequired => Some(
                string_of(&chars_of("#[error(...)] requires status = STATUS_CODE")),
            ),
            ApiErrorFault::TransparentFieldCount => Some(
                string_of(&chars_of("#[error(transparent)] requires exactly one field")),
            ),
            ApiErrorFault::MultipleFrom => Some(string_of(&chars_of("only one #[from] per variant"))),
        }
    }
}

/// Whether a path is the single identifier `n`.
pub open spec fn ident_is(path: Seq<String>, n: Seq<char>) -> bool {
    path.len() == 1 && path[0]@ == n
}

fn path_is(path: &Vec<String>, n: &str) -> (r: bool)
    ensures
        r == ident_is(path@, n@),
{
    path.len() == 1 && str_is(path[0].as_str(), n)
}

/// The refusal of a status that is neither a constant nor a number.
pub open spec fn status_kind_msg() -> Seq<char> {
    "status must be a StatusCode constant (e.g. NOT_FOUND) or a numeric literal (e.g. 429)"@
}

/// The status a `status = ...` value gives: a path names the constant of its
/// last segment, an integer literal must fit in `u16`.
pub open spec fn status_of(e: ValueExpr) -> Result<StatusExpr, Seq<char>> {
    match e {
        ValueExpr::Path(segs) => if segs@.len() > 0 {
            Ok(StatusExpr::Named(segs@.last()))
        } else {
            Err("invalid status code"@)
        },
        ValueExpr::Int(d) => match uint_of(d@, 65535) {
            Ok(v) => Ok(StatusExpr::Numeric(v as u16)),
            Err(m) => Err(m),
        },
        _ => Err(status_kind_msg()),
    }
}

/// Read the status of `status = ...`.
pub fn parse_status_expr(expr: &ValueExpr) -> (r: Result<StatusExpr, String>)
    ensures
        match r {
            Ok(s) => status_of(*expr) == Ok::<StatusExpr, Seq<char>>(s),
            Err(m) => status_of(*expr) == Err::<StatusExpr, Seq<char>>(m@),
        },
{
    proof {
        reveal_strlit("invalid status code");
        reveal_strlit(
            "status must be a StatusCode constant (e.g. NOT_FOUND) or a numeric literal (e.g. 429)",
        );
    }
    match expr {
        ValueExpr::Path(segs) => {
            if segs.len() > 0 {
                Ok(StatusExpr::Named(segs[segs.len() - 1].clone()))
            } else {
                Err(string_of(&chars_of("invalid status code")))
            }
        },
        ValueExpr::Int(d) => match crate::attrs::read_uint(d, 65535) {
            Ok(v) => Ok(StatusExpr::Numeric(v as u16)),
            Err(m) => Err(m),
        },
        _ => Err(
            string_of(
                &chars_of(
                    "status must be a StatusCode constant (e.g. NOT_FOUND) or a numeric literal (e.g. 429)",
                ),
            ),
        ),
    }
}

/// Whether an argument list holds the bare `transparent`.
pub open spec fn has_transparent(ms: Seq<NestedMeta>) -> bool {
    exists|i: int|
        0 <= i < ms.len() && (#[trigger] ms[i] matches NestedMeta::Path(p) && ident_is(
            p@,
            "transparent"@,
        ))
}

/// The status and message the arguments give, read left to right: a later
/// `status` or `message` replaces an earlier one, and the first unreadable
/// one stops the reading.
pub open spec fn scan_args(ms: Seq<NestedMeta>) -> Result<(Option<StatusExpr>, Option<String>), FaultView>
    decreases ms.len(),
{
    if ms.len() == 0 {
        Ok((None, None))
    } else {
        match scan_args(ms.drop_last()) {
            Err(f) => Err(f),
            Ok((st, msg)) => {
                let i = ms.len() - 1;
                match ms.last() {
                    NestedMeta::NameValue(p, v) => if ident_is(p@, "status"@) {
                        match status_of(v) {
                            Ok(s) => Ok((Some(s), msg)),
                            Err(m) => Err(FaultView::Status(i, m)),
                        }
                    } else if ident_is(p@, "message"@) {
                        match v {
                            ValueExpr::Str(s) => Ok((st, Some(s))),
                            _ => Err(FaultView::MessageNotString(i)),
                        }
                    } else {
                        Ok((st, msg))
                    },
                    _ => Ok((st, msg)),
                }
            },
        }
    }
}

/// What `#[error(...)]` gives, from the arguments of the attribute.
pub open spec fn error_attr_from(ms: Seq<NestedMeta>) -> Result<ErrorAttr, FaultView> {
    if has_transparent(ms) {
        Ok(ErrorAttr::Transparent)
    } else {
        match scan_args(ms) {
            Err(f) => Err(f),
            Ok((None, _)) => Err(FaultView::StatusRequired),
            Ok((Some(status), message)) => Ok(ErrorAttr::Standard { status, message }),
        }
    }
}

fn find_transparent(ms: &Vec<NestedMeta>) -> (r: bool)
    ensures
        r == has_transparent(ms@),
{
    proof {
        reveal_strlit("transparent");
    }
    let mut i: usize = 0;
    while i < ms.len()
        invariant
            0 <= i <= ms@.len(),
            forall|k: int|
                0 <= k < i ==> !(#[trigger] ms@[k] matches NestedMeta::Path(p) && ident_is(
                    p@,
                    "transparent"@,
                )),
        decreases ms@.len() - i,
    {
        if let NestedMeta::Path(p) = &ms[i] {
            if path_is(p, "transparent") {
                return true;
            }
        }
        i = i + 1;
    }
    false
}

/// Read the arguments of `#[error(...)]`.
pub fn error_attr_of_args<E>(ms: &Vec<NestedMeta>) -> (r: Result<ErrorAttr, ApiErrorFault<E>>)
    ensures
        match r {
            Ok(a) => error_attr_from(ms@) == Ok::<ErrorAttr, FaultView>(a),
            Err(f) => error_attr_from(ms@) == Err::<ErrorAttr, FaultView>(fault_view(f)) && !(f is Args),
        },
{
    if find_transparent(ms) {
        return Ok(ErrorAttr::Transparent);
    }
    proof {
        reveal_strlit("status");
        reveal_strlit("message");
    }
    let mut status: Option<StatusExpr> = None;
    let mut message: Option<String> = None;
    let mut i: usize = 0;
    while i < ms.len()
        invariant
            0 <= i <= ms@.len(),
            !has_transparent(ms@),
            scan_args(ms@.take(i as int)) == Ok::<(Option<StatusExpr>, Option<String>), FaultView>(
                (status, message),
            ),
        decreases ms@.len() - i,
    {
        assert(ms@.take(i + 1).drop_last() =~= ms@.take(i as int));
        assert(ms@.take(i + 1).last() == ms@[i as int]);
        match &ms[i] {
            NestedMeta::NameValue(p, v) => {
                if path_is(p, "status") {
                    match parse_status_expr(v) {
                        Ok(s) => {
                            status = Some(s);
                        },
                        Err(m) => {
                            proof {
                                lemma_scan_stops(ms@, i as int);
                            }
                            return Err(ApiErrorFault::Status { at: i, message: m });
                        },
                    }
                } else if path_is(p, "message") {
                    match v {
                        ValueExpr::Str(s) => {
                            message = Some(s.clone());
                        },
                        _ => {
                            proof {
                                lemma_scan_stops(ms@, i as int);
                            }
                            return Err(ApiErrorFault::MessageNotString { at: i });
                        },
                    }
                }
            },
            _ => {},
        }
        i = i + 1;
    }
    assert(ms@.take(ms@.len() as int) =~= ms@);
    match status {
        Some(status) => Ok(ErrorAttr::Standard { status, message }),
        None => Err(ApiErrorFault::StatusRequired),
    }
}

/// Once the reading stops at an argument, later arguments change nothing.
proof fn lemma_scan_stops(ms: Seq<NestedMeta>, i: int)
    requires
        0 <= i < ms.len(),
        scan_args(ms.take(i + 1)) is Err,
    ensures
        scan_args(ms) == scan_args(ms.take(i + 1)),
    decreases ms.len() - i,
{
    if i + 1 == ms.len() {
        assert(ms.take(i + 1) =~= ms);
    } else {
        assert(ms.drop_last().take(i + 1) =~= ms.take(i + 1));
        lemma_scan_stops(ms.drop_last(), i);
    }
}

// ── fields and variants ─────────────────────────────────────────────────

/// A field as the derive reads it.
pub open spec fn def_of<R>(f: FieldInput<R>) -> FieldDef {
    FieldDef { name: f.name, ty: f.ty, is_from: has_named(f.attrs@, "from"@) }
}

pub open spec fn defs_of<R>(fs: Seq<FieldInput<R>>) -> Seq<FieldDef> {
    Seq::new(fs.len(), |i: int| def_of(fs[i]))
}

/// The field definitions a variant holds (none for a unit variant).
pub open spec fn field_defs(f: VariantFields) -> Seq<FieldDef> {
    match f {
        VariantFields::Unit => Seq::empty(),
        VariantFields::Tuple(v) => v@,
        VariantFields::Named(v) => v@,
    }
}

/// `fs` read as a variant's fields: the same shape, each field as `def_of`
/// reads it.
pub open spec fn reads_as<R>(input: FieldsInput<R>, out: VariantFields) -> bool {
    match input {
        FieldsInput::Unit => out is Unit,
        FieldsInput::Unnamed(v) => out is Tuple && field_defs(out) == defs_of(v@),
        FieldsInput::Named(v) => out is Named && field_defs(out) == defs_of(v@),
    }
}

/// How many fields carry `#[from]`.
pub open spec fn from_count(ds: Seq<FieldDef>) -> nat
    decreases ds.len(),
{
    if ds.len() == 0 {
        0
    } else {
        from_count(ds.drop_last()) + if ds.last().is_from {
            1nat
        } else {
            0nat
        }
    }
}

fn read_field_list<R>(fs: Vec<FieldInput<R>>) -> (r: Vec<FieldDef>)
    ensures
        r@ == defs_of(fs@),
{
    let ghost orig = fs@;
    let n = fs.len();
    let mut rest = fs;
    let mut out: Vec<FieldDef> = Vec::new();
    let mut i: usize = 0;
    while rest.len() > 0
        invariant
            orig == fs@,
            n == orig.len(),
            i + rest@.len() == orig.len(),
            rest@ == orig.skip(i as int),
            out@.len() == i,
            forall|k: int| 0 <= k < i ==> #[trigger] out@[k] == def_of(orig[k]),
        decreases rest@.len(),
    {
        assert(rest@[0] == orig[i as int]);
        let f = rest.remove(0);
        assert(rest@ =~= orig.skip(i + 1));
        let FieldInput { name, ty, attrs } = f;
        let is_from = any_named(&attrs, "from");
        out.push(FieldDef { name, ty, is_from });
        i = i + 1;
    }
    assert(out@ =~= defs_of(orig));
    out
}

/// Read the fields of a variant: each field's name and type, and whether it
/// carries `#[from]`.
pub fn parse_fields<R>(fields: FieldsInput<R>) -> (r: VariantFields)
    ensures
        reads_as(fields, r),
{
    match fields {
        FieldsInput::Unit => VariantFields::Unit,
        FieldsInput::Unnamed(v) => VariantFields::Tuple(read_field_list(v)),
        FieldsInput::Named(v) => VariantFields::Named(read_field_list(v)),
    }
}

fn count_from(ds: &Vec<FieldDef>) -> (r: usize)
    ensures
        r == from_count(ds@),
{
    let mut c: usize = 0;
    let mut i: usize = 0;
    while i < ds.len()
        invariant
            0 <= i <= ds@.len(),
            c == from_count(ds@.take(i as int)),
            c <= i,
        decreases ds@.len() - i,
    {
        assert(ds@.take(i + 1).drop_last() =~= ds@.take(i as int));
        if ds[i].is_from {
            c = c + 1;
        }
        i = i + 1;
    }
    assert(ds@.take(ds@.len() as int) =~= ds@);
    c
}

/// What the derive makes of one variant, given how its fields read.
pub open spec fn variant_outcome<R, E>(v: VariantInput<R, E>, fields: VariantFields) -> Result<
    ErrorAttr,
    FaultView,
> {
    if !has_named(v.attrs@, "error"@) {
        Err(FaultView::MissingErrorAttr)
    } else {
        match v.error_args {
            Err(_) => Err(FaultView::Args),
            Ok(ms) => match error_attr_from(ms@) {
                Err(f) => Err(f),
                Ok(a) => if a is Transparent && field_defs(fields).len() != 1 {
                    Err(FaultView::TransparentFieldCount)
                } else if from_count(field_defs(fields)) > 1 {
                    Err(FaultView::MultipleFrom)
                } else {
                    Ok(a)
                },
            },
        }
    }
}

/// Two readings of the same fields hold the same field definitions.
proof fn lemma_reads_as_defs<R>(input: FieldsInput<R>, a: VariantFields, b: VariantFields)
    requires
        reads_as(input, a),
        reads_as(input, b),
    ensures
        field_defs(a) == field_defs(b),
{
}

/// Read one variant: its `#[error(...)]` and its fields, refusing
/// `#[error(transparent)]` without exactly one field and more than one
/// `#[from]`.
pub fn parse_variant<R, E>(variant: VariantInput<R, E>) -> (r: Result<ApiErrorVariant, ApiErrorFault<E>>)
    ensures
        match r {
            Ok(v) => reads_as(variant.fields, v.fields) && variant_outcome(variant, v.fields) == Ok::<
                ErrorAttr,
                FaultView,
            >(v.error_attr),
            Err(f) => (forall|fs: VariantFields|
                reads_as(variant.fields, fs) ==> #[trigger] variant_outcome(variant, fs) == Err::<
                    ErrorAttr,
                    FaultView,
                >(fault_view(f))) && (f matches ApiErrorFault::Args(e) ==> variant.error_args
                == Err::<Vec<NestedMeta>, E>(e)),
        },
{
    let ghost orig = variant;
    let VariantInput { attrs, error_args, fields } = variant;
    let fields = parse_fields(fields);
    if !any_named(&attrs, "error") {
        return Err(ApiErrorFault::MissingErrorAttr);
    }
    let ms = match error_args {
        Ok(ms) => ms,
        Err(e) => {
            return Err(ApiErrorFault::Args(e));
        },
    };
    let error_attr = match error_attr_of_args::<E>(&ms) {
        Ok(a) => a,
        Err(f) => {
            return Err(f);
        },
    };
    let (count, froms) = match &fields {
        VariantFields::Unit => (0, 0),
        VariantFields::Tuple(v) => (v.len(), count_from(v)),
        VariantFields::Named(v) => (v.len(), count_from(v)),
    };
    proof {
        assert(from_count(Seq::<FieldDef>::empty()) == 0);
        assert(count == field_defs(fields).len());
        assert(froms == from_count(field_defs(fields)));
    }
    let transparent = match &error_attr {
        ErrorAttr::Transparent => true,
        _ => false,
    };
    if transparent && count != 1 {
        proof {
            assert forall|fs: VariantFields| reads_as(orig.fields, fs) implies #[trigger] variant_outcome(
                orig,
                fs,
            ) == Err::<ErrorAttr, FaultView>(FaultView::TransparentFieldCount) by {
                lemma_reads_as_defs(orig.fields, fs, fields);
            }
        }
        return Err(ApiErrorFault::TransparentFieldCount);
    }
    if froms > 1 {
        proof {
            assert forall|fs: VariantFields| reads_as(orig.fields, fs) implies #[trigger] variant_outcome(
                orig,
                fs,
            ) == Err::<ErrorAttr, FaultView>(FaultView::MultipleFrom) by {
                lemma_reads_as_defs(orig.fields, fs, fields);
            }
        }
        return Err(ApiErrorFault::MultipleFrom);
    }
    Ok(ApiErrorVariant { fields, error_attr })
}

/// Whether the derive accepts a variant.
pub open spec fn accepted<R, E>(v: VariantInput<R, E>) -> bool {
    exists|fs: VariantFields| reads_as(v.fields, fs) && #[trigger] variant_outcome(v, fs) is Ok
}

/// Read every variant, in order; the first refused variant stops the reading.
pub fn parse_variants<R, E>(variants: Vec<VariantInput<R, E>>) -> (r: Result<
    Vec<ApiErrorVariant>,
    (usize, ApiErrorFault<E>),
>)
    ensures
        match r {
            Ok(vs) => vs@.len() == variants@.len() && forall|i: int|
                0 <= i < vs@.len() ==> reads_as(variants@[i].fields, #[trigger] vs@[i].fields)
                    && variant_outcome(variants@[i], vs@[i].fields) == Ok::<ErrorAttr, FaultView>(
                    vs@[i].error_attr,
                ),
            Err((i, f)) => i < variants@.len() && (forall|k: int|
                0 <= k < i ==> #[trigger] accepted(variants@[k])) && (forall|fs: VariantFields|
                reads_as(variants@[i as int].fields, fs) ==> #[trigger] variant_outcome(
                    variants@[i as int],
                    fs,
                ) == Err::<ErrorAttr, FaultView>(fault_view(f))),
        },
{
    let ghost orig = variants@;
    let n = variants.len();
    let mut rest = variants;
    let mut out: Vec<ApiErrorVariant> = Vec::new();
    let mut i: usize = 0;
    while rest.len() > 0
        invariant
            orig == variants@,
            n == orig.len(),
            i + rest@.len() == orig.len(),
            rest@ == orig.skip(i as int),
            out@.len() == i,
            forall|k: int|
                0 <= k < i ==> reads_as(orig[k].fields, #[trigger] out@[k].fields) && variant_outcome(
                    orig[k],
                    out@[k].fields,
                ) == Ok::<ErrorAttr, FaultView>(out@[k].error_attr),
        decreases rest@.len(),
    {
        assert(rest@[0] == orig[i as int]);
        let v = rest.remove(0);
        assert(rest@ =~= orig.skip(i + 1));
        match parse_variant(v) {
            Ok(pv) => {
                out.push(pv);
            },
            Err(f) => {
                assert forall|k: int| 0 <= k < i implies #[trigger] accepted(orig[k]) by {
                    assert(reads_as(orig[k].fields, out@[k].fields));
                    assert(variant_outcome(orig[k], out@[k].fields) is Ok);
                }
                return Err((i, f));
            },
        }
        i = i + 1;
    }
    Ok(out)
}

/// Whether some field of the variant carries `#[from]`.
pub fn variant_has_from(variant: &ApiErrorVariant) -> (r: bool)
    ensures
        r == (from_count(field_defs(variant.fields)) > 0),
{
    match &variant.fields {
        VariantFields::Tuple(v) => count_from(v) > 0,
        VariantFields::Named(v) => count_from(v) > 0,
        VariantFields::Unit => false,
    }
}

/// Position of the first `#[from]` field.
pub open spec fn first_from(ds: Seq<FieldDef>) -> Option<int>
    decreases ds.len(),
{
    if ds.len() == 0 {
        None
    } else if ds[0].is_from {
        Some(0)
    } else {
        match first_from(ds.drop_first()) {
            Some(i) => Some(i + 1),
            None => None,
        }
    }
}

fn find_from(ds: &Vec<FieldDef>) -> (r: Option<usize>)
    ensures
        match r {
            Some(i) => first_from(ds@) == Some(i as int),
            None => first_from(ds@) is None,
        },
{
    let mut i: usize = 0;
    assert(ds@.skip(0) =~= ds@);
    while i < ds.len()
        invariant
            0 <= i <= ds@.len(),
            first_from(ds@) == match first_from(ds@.skip(i as int)) {
                Some(j) => Some(j + i),
                None => None::<int>,
            },
        decreases ds@.len() - i,
    {
        assert(ds@.skip(i as int)[0] == ds@[i as int]);
        assert(ds@.skip(i as int).drop_first() =~= ds@.skip(i + 1));
        if ds[i].is_from {
            return Some(i);
        }
        i = i + 1;
    }
    None
}

// ── messages ────────────────────────────────────────────────────────────

/// Where the text of a variant comes from, in `Display` and in the error
/// response alike.
pub enum MessageSource {
    /// The one field's own `Display` / response (`#[error(transparent)]`).
    Delegate,
    /// The format string of `message = "..."`.
    Format(String),
    /// The variant's name in words.
    Humanized(String),
    /// The `#[from]` field at this position.
    Source(usize),
    /// The value of the variant's single `String` field.
    SingleString,
}

/// `s` with every occurrence of `pat` replaced by `rep`, left to right and
/// without overlap, as `str::replace` does.
pub open spec fn replace_all(s: Seq<char>, pat: Seq<char>, rep: Seq<char>) -> Seq<char>
    decreases s.len(),
{
    if pat.len() == 0 || s.len() < pat.len() {
        s
    } else if s.take(pat.len() as int) == pat {
        rep + replace_all(s.skip(pat.len() as int), pat, rep)
    } else {
        seq![s[0]] + replace_all(s.drop_first(), pat, rep)
    }
}

fn starts_at(s: &Vec<char>, i: usize, pat: &Vec<char>) -> (r: bool)
    requires
        i <= s@.len(),
    ensures
        r == (s@.len() - i >= pat@.len() && s@.skip(i as int).take(pat@.len() as int) == pat@),
{
    if s.len() - i < pat.len() {
        return false;
    }
    let n = s.len();
    let mut k: usize = 0;
    while k < pat.len()
        invariant
            0 <= k <= pat@.len(),
            n == s@.len(),
            i + pat@.len() <= s@.len(),
            forall|j: int| 0 <= j < k ==> s@[i + j] == pat@[j],
        decreases pat@.len() - k,
    {
        if s[i + k] != pat[k] {
            assert(s@.skip(i as int).take(pat@.len() as int)[k as int] != pat@[k as int]);
            return false;
        }
        k = k + 1;
    }
    assert(s@.skip(i as int).take(pat@.len() as int) =~= pat@);
    true
}

fn replace_chars(s: &Vec<char>, pat: &Vec<char>, rep: &Vec<char>) -> (r: Vec<char>)
    requires
        pat@.len() > 0,
    ensures
        r@ == replace_all(s@, pat@, rep@),
{
    let mut out: Vec<char> = Vec::new();
    let mut i: usize = 0;
    assert(s@.skip(0) =~= s@);
    while i < s.len()
        invariant
            0 <= i <= s@.len(),
            pat@.len() > 0,
            replace_all(s@, pat@, rep@) == out@ + replace_all(s@.skip(i as int), pat@, rep@),
        decreases s@.len() - i,
    {
        let ghost t = s@.skip(i as int);
        if starts_at(s, i, pat) {
            let mut r2 = crate::text::copy_chars(rep);
            out.append(&mut r2);
            assert(t.skip(pat@.len() as int) =~= s@.skip(i + pat@.len()));
            i = i + pat.len();
        } else {
            proof {
                if t.len() >= pat@.len() {
                    assert(t.take(pat@.len() as int) != pat@);
                }
            }
            if s.len() - i < pat.len() {
                assert(replace_all(t, pat@, rep@) == t);
                let mut tail = crate::text::slice_chars(s, i, s.len());
                assert(tail@ =~= t);
                out.append(&mut tail);
                assert(s@.skip(s@.len() as int) =~= Seq::<char>::empty());
                i = s.len();
            } else {
                out.push(s[i]);
                assert(t.drop_first() =~= s@.skip(i + 1));
                i = i + 1;
            }
        }
    }
    assert(s@.skip(s@.len() as int) =~= Seq::<char>::empty());
    out
}

/// `{i}` and `{_i}`: a positional placeholder and the captured name it becomes.
pub open spec fn positional(i: nat) -> Seq<char> {
    seq!['{'] + decimal(i) + seq!['}']
}

pub open spec fn captured(i: nat) -> Seq<char> {
    seq!['{', '_'] + decimal(i) + seq!['}']
}

/// The message with `{0}`, `{1}`, … below `n` rewritten to `{_0}`, `{_1}`, …,
/// the highest index first.
pub open spec fn interpolated(msg: Seq<char>, n: nat) -> Seq<char>
    decreases n,
{
    if n == 0 {
        msg
    } else {
        interpolated(replace_all(msg, positional((n - 1) as nat), captured((n - 1) as nat)), (n - 1) as nat)
    }
}

/// The format string of `message = "..."`: for a tuple variant the positional
/// placeholders become the names its fields are bound to.
pub open spec fn format_of(msg: Seq<char>, fields: VariantFields) -> Seq<char> {
    match fields {
        VariantFields::Tuple(v) => interpolated(msg, v@.len()),
        _ => msg,
    }
}

/// The format string of a variant's `message = "..."`.
pub fn interpolated_format(message: &str, fields: &VariantFields) -> (r: String)
    ensures
        r@ == format_of(message@, *fields),
{
    let mut s = chars_of(message);
    match fields {
        VariantFields::Tuple(v) => {
            let mut k: usize = v.len();
            while k > 0
                invariant
                    k <= v@.len(),
                    interpolated(message@, v@.len() as nat) == interpolated(s@, k as nat),
                decreases k,
            {
                let d = decimal_chars(k - 1);
                let mut pat: Vec<char> = vec!['{'];
                let mut rep: Vec<char> = vec!['{', '_'];
                let mut d1 = crate::text::copy_chars(&d);
                let mut d2 = crate::text::copy_chars(&d);
                pat.append(&mut d1);
                pat.push('}');
                rep.append(&mut d2);
                rep.push('}');
                assert(pat@ =~= positional((k - 1) as nat));
                assert(rep@ =~= captured((k - 1) as nat));
                s = replace_chars(&s, &pat, &rep);
                k = k - 1;
            }
            string_of(&s)
        },
        _ => string_of(&s),
    }
}

/// Where a variant's text comes from.
pub open spec fn source_of(name: Seq<char>, v: ApiErrorVariant) -> MessageSourceView {
    match v.error_attr {
        ErrorAttr::Transparent => MessageSourceView::Delegate,
        ErrorAttr::Standard { message, .. } => match message {
            Some(m) => MessageSourceView::Format(format_of(m@, v.fields)),
            None => match v.fields {
                VariantFields::Unit => MessageSourceView::Humanized(crate::naming::humanized(name)),
                _ => match first_from(field_defs(v.fields)) {
                    Some(i) => MessageSourceView::Source(i),
                    None => if field_defs(v.fields).len() == 1 && crate::types::last_is(
                        field_defs(v.fields)[0].ty,
                        "String"@,
                    ) {
                        MessageSourceView::SingleString
                    } else {
                        MessageSourceView::Humanized(crate::naming::humanized(name))
                    },
                },
            },
        },
    }
}

/// A message source by its text.
pub enum MessageSourceView {
    Delegate,
    Format(Seq<char>),
    Humanized(Seq<char>),
    Source(int),
    SingleString,
}

pub open spec fn source_view(m: MessageSource) -> MessageSourceView {
    match m {
        MessageSource::Delegate => MessageSourceView::Delegate,
        MessageSource::Format(s) => MessageSourceView::Format(s@),
        MessageSource::Humanized(s) => MessageSourceView::Humanized(s@),
        MessageSource::Source(i) => MessageSourceView::Source(i as int),
        MessageSource::SingleString => MessageSourceView::SingleString,
    }
}

/// The text of variant `name`: the explicit message, else the `#[from]`
/// source, else a single `String` field, else the name in words.
pub fn message_source(name: &str, variant: &ApiErrorVariant) -> (r: MessageSource)
    ensures
        source_view(r) == source_of(name@, *variant),
{
    match &variant.error_attr {
        ErrorAttr::Transparent => MessageSource::Delegate,
        ErrorAttr::Standard { message, .. } => match message {
            Some(m) => MessageSource::Format(interpolated_format(m.as_str(), &variant.fields)),
            None => match &variant.fields {
                VariantFields::Unit => MessageSource::Humanized(crate::naming::humanize_ident(name)),
                VariantFields::Tuple(v) | VariantFields::Named(v) => match find_from(v) {
                    Some(i) => MessageSource::Source(i),
                    None => {
                        if v.len() == 1 && crate::types::is_string_type(&v[0].ty) {
                            MessageSource::SingleString
                        } else {
                            MessageSource::Humanized(crate::naming::humanize_ident(name))
                        }
                    },
                },
            },
        },
    }
}

// ── laws ────────────────────────────────────────────────────────────────

/// An accepted variant has at most one `#[from]` field, and a transparent
/// one has exactly one field.
pub proof fn lemma_accepted_variant<R, E>(v: VariantInput<R, E>, fs: VariantFields)
    requires
        variant_outcome(v, fs) is Ok,
    ensures
        from_count(field_defs(fs)) <= 1,
        variant_outcome(v, fs)->Ok_0 is Transparent ==> field_defs(fs).len() == 1,
{
}

/// A message without `{` has no placeholder to rewrite: its format string is
/// the message itself.
pub proof fn lemma_plain_message(msg: Seq<char>, fields: VariantFields)
    requires
        !msg.contains('{'),
    ensures
        format_of(msg, fields) == msg,
{
    match fields {
        VariantFields::Tuple(v) => lemma_interpolated_plain(msg, v@.len()),
        _ => {},
    }
}

proof fn lemma_interpolated_plain(msg: Seq<char>, n: nat)
    requires
        !msg.contains('{'),
    ensures
        interpolated(msg, n) == msg,
    decreases n,
{
    if n > 0 {
        lemma_replace_absent(msg, positional((n - 1) as nat), captured((n - 1) as nat));
        lemma_interpolated_plain(msg, (n - 1) as nat);
    }
}

proof fn lemma_replace_absent(s: Seq<char>, pat: Seq<char>, rep: Seq<char>)
    requires
        pat.len() > 0,
        pat[0] == '{',
        !s.contains('{'),
    ensures
        replace_all(s, pat, rep) == s,
    decreases s.len(),
{
    if s.len() >= pat.len() {
        assert(s.take(pat.len() as int)[0] == s[0]);
        assert(s.take(pat.len() as int) != pat);
        assert(!s.drop_first().contains('{')) by {
            if s.drop_first().contains('{') {
                let k = choose|k: int| 0 <= k < s.drop_first().len() && s.drop_first()[k] == '{';
                assert(s[k + 1] == '{');
            }
        }
        lemma_replace_absent(s.drop_first(), pat, rep);
        assert(seq![s[0]] + s.drop_first() =~= s);
    }
}

} // verus!
