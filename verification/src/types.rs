//! Rust types as the macro logic reads them, and the classifications the
//! macros make of handler, field and response types.

use vstd::prelude::*;

use crate::text::{chars_of, push_str, str_is, string_of};

verus! {

/// A Rust type: its shape, and its token rendering (`quote!(#ty).to_string()`).
pub struct Ty {
    pub kind: TyKind,
    pub tokens: String,
}

/// The shape of a type.
pub enum TyKind {
    /// A path type `a::b::C<...>`, by its segments.
    Path(Vec<Seg>),
    /// A tuple type; `()` has no elements.
    Tuple(Vec<Ty>),
    /// A reference `&T` / `&mut T`.
    Ref { mutable: bool, elem: Box<Ty> },
    /// Any other type.
    Other,
}

/// One segment of a path type.
pub struct Seg {
    pub ident: String,
    pub args: SegArgs,
}

/// The arguments of a path segment.
pub enum SegArgs {
    /// No arguments.
    Plain,
    /// `<...>`.
    Angle(Vec<GenArg>),
    /// `(...)`, as in `Fn(A) -> B`.
    Paren,
}

/// A generic argument inside `<...>`.
pub enum GenArg {
    Type(Ty),
    /// A lifetime, const or binding argument.
    Other,
}

/// The last segment of a path type.
pub open spec fn last_seg(t: Ty) -> Option<Seg> {
    match t.kind {
        TyKind::Path(s) => if s@.len() > 0 {
            Some(s@.last())
        } else {
            None
        },
        _ => None,
    }
}

/// Whether `t` is a path type whose last segment is named `n`.
pub open spec fn last_is(t: Ty, n: Seq<char>) -> bool {
    last_seg(t) matches Some(s) && s.ident@ == n
}

/// The first generic argument of `s`, when it is a type.
pub open spec fn first_type_arg(s: Seg) -> Option<Ty> {
    match s.args {
        SegArgs::Angle(a) => if a@.len() > 0 && a@[0] is Type {
            Some(a@[0]->Type_0)
        } else {
            None
        },
        _ => None,
    }
}

/// `T` of `W<T>` when `t`'s last segment is named `w`.
pub open spec fn wrapped_in(t: Ty, w: Seq<char>) -> Option<Ty> {
    match last_seg(t) {
        Some(s) => if s.ident@ == w {
            first_type_arg(s)
        } else {
            None
        },
        None => None,
    }
}

/// The last segment of a path type.
pub fn last_segment(t: &Ty) -> (r: Option<&Seg>)
    ensures
        match r {
            Some(s) => last_seg(*t) == Some(*s),
            None => last_seg(*t) is None,
        },
{
    match &t.kind {
        TyKind::Path(segs) => {
            if segs.len() > 0 {
                Some(&segs[segs.len() - 1])
            } else {
                None
            }
        },
        _ => None,
    }
}

/// The first generic argument of a segment, when it is a type.
pub fn first_generic_type(s: &Seg) -> (r: Option<&Ty>)
    ensures
        match r {
            Some(x) => first_type_arg(*s) == Some(*x),
            None => first_type_arg(*s) is None,
        },
{
    match &s.args {
        SegArgs::Angle(a) => {
            if a.len() > 0 {
                match &a[0] {
                    GenArg::Type(x) => Some(x),
                    GenArg::Other => None,
                }
            } else {
                None
            }
        },
        _ => None,
    }
}

/// Whether `t`'s last segment is named `n`.
pub fn last_named(t: &Ty, n: &str) -> (r: bool)
    ensures
        r == last_is(*t, n@),
{
    match last_segment(t) {
        Some(s) => str_is(s.ident.as_str(), n),
        None => false,
    }
}

/// `T` of `W<T>` for wrapper name `w`.
pub fn unwrap_named<'a>(t: &'a Ty, w: &str) -> (r: Option<&'a Ty>)
    ensures
        match r {
            Some(x) => wrapped_in(*t, w@) == Some(*x),
            None => wrapped_in(*t, w@) is None,
        },
{
    match last_segment(t) {
        Some(s) => {
            if str_is(s.ident.as_str(), w) {
                first_generic_type(s)
            } else {
                None
            }
        },
        None => None,
    }
}

/// The OpenAPI type of a primitive type name.
pub open spec fn openapi_of_name(n: Seq<char>) -> Seq<char> {
    if n == "u8"@ || n == "u16"@ || n == "u32"@ || n == "u64"@ || n == "u128"@ || n == "usize"@
        || n == "i8"@ || n == "i16"@ || n == "i32"@ || n == "i64"@ || n == "i128"@ || n
        == "isize"@ {
        "integer"@
    } else if n == "f32"@ || n == "f64"@ {
        "number"@
    } else if n == "bool"@ {
        "boolean"@
    } else {
        "string"@
    }
}

/// The OpenAPI type of `t`, by its last path segment.
pub open spec fn openapi_of(t: Ty) -> Seq<char> {
    match last_seg(t) {
        Some(s) => openapi_of_name(s.ident@),
        None => "string"@,
    }
}

fn openapi_name(n: &str) -> (r: &'static str)
    ensures
        r@ == openapi_of_name(n@),
{
    if str_is(n, "u8") || str_is(n, "u16") || str_is(n, "u32") || str_is(n, "u64") || str_is(
        n,
        "u128",
    ) || str_is(n, "usize") || str_is(n, "i8") || str_is(n, "i16") || str_is(n, "i32") || str_is(
        n,
        "i64",
    ) || str_is(n, "i128") || str_is(n, "isize") {
        "integer"
    } else if str_is(n, "f32") || str_is(n, "f64") {
        "number"
    } else if str_is(n, "bool") {
        "boolean"
    } else {
        "string"
    }
}

/// Map a type to an OpenAPI type string by inspecting the last path segment.
pub fn type_to_openapi_str(ty: &Ty) -> (r: &'static str)
    ensures
        r@ == openapi_of(*ty),
{
    match last_segment(ty) {
        Some(s) => openapi_name(s.ident.as_str()),
        None => "string",
    }
}

/// Infer an OpenAPI type string from a `Path<T>` type: the type of `T`, or
/// "string".
pub fn infer_path_param_openapi_type(ty: &Ty) -> (r: &'static str)
    ensures
        r@ == match wrapped_in(*ty, "Path"@) {
            Some(inner) => openapi_of(inner),
            None => "string"@,
        },
{
    match unwrap_named(ty, "Path") {
        Some(inner) => type_to_openapi_str(inner),
        None => "string",
    }
}

/// `Query<T>` → `T`, `Path<T>` → `T`, other types unchanged.
pub open spec fn extractor_inner(t: Ty) -> Ty {
    match wrapped_in(t, "Query"@) {
        Some(x) => x,
        None => match wrapped_in(t, "Path"@) {
            Some(x) => x,
            None => t,
        },
    }
}

/// Unwrap `Query<T>` / `Path<T>` to the inner type for metadata probing.
pub fn unwrap_extractor_inner(ty: &Ty) -> (r: &Ty)
    ensures
        *r == extractor_inner(*ty),
{
    match unwrap_named(ty, "Query") {
        Some(x) => x,
        None => match unwrap_named(ty, "Path") {
            Some(x) => x,
            None => ty,
        },
    }
}

/// Check if a type is `Json<...>` (by its last segment).
pub fn has_json_type(ty: &Ty) -> (r: bool)
    ensures
        r == last_is(*ty, "Json"@),
{
    last_named(ty, "Json")
}

/// Check if a type is `Option<Json<T>>`.
pub fn is_option_wrapping_json(ty: &Ty) -> (r: bool)
    ensures
        r == (wrapped_in(*ty, "Option"@) matches Some(inner) && last_is(inner, "Json"@)),
{
    match unwrap_named(ty, "Option") {
        Some(inner) => has_json_type(inner),
        None => false,
    }
}

/// `Result<T, E>` / `ApiResult<T>` / `JsonResult<T>` → `T`.
pub open spec fn result_inner(t: Ty) -> Ty {
    match wrapped_in(t, "Result"@) {
        Some(x) => x,
        None => match wrapped_in(t, "ApiResult"@) {
            Some(x) => x,
            None => match wrapped_in(t, "JsonResult"@) {
                Some(x) => x,
                None => t,
            },
        },
    }
}

/// Unwrap `Result<T, E>` → `T`, leaving non-Result types unchanged.
pub fn unwrap_result_type(ty: &Ty) -> (r: &Ty)
    ensures
        *r == result_inner(*ty),
{
    match unwrap_named(ty, "Result") {
        Some(x) => x,
        None => match unwrap_named(ty, "ApiResult") {
            Some(x) => x,
            None => match unwrap_named(ty, "JsonResult") {
                Some(x) => x,
                None => ty,
            },
        },
    }
}

/// Extract the inner type from `Json<T>` → `T`.
pub fn unwrap_json_type(ty: &Ty) -> (r: Option<&Ty>)
    ensures
        match r {
            Some(x) => wrapped_in(*ty, "Json"@) == Some(*x),
            None => wrapped_in(*ty, "Json"@) is None,
        },
{
    unwrap_named(ty, "Json")
}

/// Whether `t` is a "no body" type: `StatusCode`, `StatusResult` or `()`.
pub open spec fn no_body(t: Ty) -> bool {
    match t.kind {
        TyKind::Path(_) => last_is(t, "StatusCode"@) || last_is(t, "StatusResult"@),
        TyKind::Tuple(e) => e@.len() == 0,
        _ => false,
    }
}

/// Check if a type is a "no body" type (StatusCode, StatusResult, ()).
pub fn is_no_body_type(ty: &Ty) -> (r: bool)
    ensures
        r == no_body(*ty),
{
    match &ty.kind {
        TyKind::Path(_) => last_named(ty, "StatusCode") || last_named(ty, "StatusResult"),
        TyKind::Tuple(e) => e.len() == 0,
        _ => false,
    }
}

/// Check if a type is a known Axum wrapper (Json, Query, Path, Form).
pub fn is_wrapper_type(ty: &Ty) -> (r: bool)
    ensures
        r == (last_is(*ty, "Json"@) || last_is(*ty, "Query"@) || last_is(*ty, "Path"@) || last_is(
            *ty,
            "Form"@,
        )),
{
    last_named(ty, "Json") || last_named(ty, "Query") || last_named(ty, "Path") || last_named(
        ty,
        "Form",
    )
}

/// Whether a type's last segment is `String`.
pub fn is_string_type(ty: &Ty) -> (r: bool)
    ensures
        r == last_is(*ty, "String"@),
{
    last_named(ty, "String")
}

/// Try to unwrap `Option<T>` → `Some(T)`, or `None` if not an Option.
pub fn unwrap_option_type(ty: &Ty) -> (r: Option<&Ty>)
    ensures
        match r {
            Some(x) => wrapped_in(*ty, "Option"@) == Some(*x),
            None => wrapped_in(*ty, "Option"@) is None,
        },
{
    unwrap_named(ty, "Option")
}

/// Extract the first generic argument from a type (e.g. `T` from `Option<T>` or `Vec<T>`).
pub fn extract_generic_arg(ty: &Ty) -> (r: Option<&Ty>)
    ensures
        match r {
            Some(x) => (last_seg(*ty) matches Some(s) && first_type_arg(s) == Some(*x)),
            None => !(last_seg(*ty) matches Some(s) && first_type_arg(s) is Some),
        },
{
    match last_segment(ty) {
        Some(s) => first_generic_type(s),
        None => None,
    }
}

/// The last path segment's name of a type.
pub fn last_path_segment(ty: &Ty) -> (r: Option<String>)
    ensures
        match r {
            Some(n) => (last_seg(*ty) matches Some(s) && s.ident@ == n@),
            None => last_seg(*ty) is None,
        },
{
    match last_segment(ty) {
        Some(s) => Some(s.ident.clone()),
        None => None,
    }
}

/// The diagnostic for a consumer parameter that is not `Arc<T>`.
pub open spec fn not_arc_msg() -> Seq<char> {
    "consumer event parameter must be wrapped in Arc<T>:\n\n  async fn on_event(&self, event: Arc<MyEvent>) { }\n\nEvents are shared across subscribers via Arc, so the parameter type must be Arc<YourEventType>."@
}

/// The event type `T` of a consumer parameter `Arc<T>`.
pub fn extract_event_type_from_arc(ty: &Ty) -> (r: Result<&Ty, String>)
    ensures
        match r {
            Ok(x) => wrapped_in(*ty, "Arc"@) == Some(*x),
            Err(e) => wrapped_in(*ty, "Arc"@) is None && e@ == not_arc_msg(),
        },
{
    match unwrap_named(ty, "Arc") {
        Some(x) => Ok(x),
        None => Err(string_of(&chars_of(
            "consumer event parameter must be wrapped in Arc<T>:\n\n  async fn on_event(&self, event: Arc<MyEvent>) { }\n\nEvents are shared across subscribers via Arc, so the parameter type must be Arc<YourEventType>.",
        ))),
    }
}

/// Extracts the inner type from a `&mut T` reference type.
pub fn extract_mut_ref_inner(ty: &Ty) -> (r: Option<&Ty>)
    ensures
        match r {
            Some(x) => ty.kind matches TyKind::Ref { mutable, elem } && mutable && *elem == *x,
            None => !(ty.kind matches TyKind::Ref { mutable, elem } && mutable),
        },
{
    match &ty.kind {
        TyKind::Ref { mutable, elem } => {
            if *mutable {
                Some(&**elem)
            } else {
                None
            }
        },
        _ => None,
    }
}

/// The first type argument of `Path<...>`, anywhere in its arguments.
pub open spec fn path_wrapper_inner(t: Ty) -> Option<Ty> {
    match last_seg(t) {
        Some(s) => if s.ident@ == "Path"@ {
            match s.args {
                SegArgs::Angle(a) => first_type_in(a@),
                _ => None,
            }
        } else {
            None
        },
        None => None,
    }
}

/// The first `Type` argument of `a`.
pub open spec fn first_type_in(a: Seq<GenArg>) -> Option<Ty>
    decreases a.len(),
{
    if a.len() == 0 {
        None
    } else {
        match a[0] {
            GenArg::Type(t) => Some(t),
            GenArg::Other => first_type_in(a.drop_first()),
        }
    }
}

/// The inner type of `Path<T>`: its first type argument.
pub fn path_wrapper_inner_type(ty: &Ty) -> (r: Option<&Ty>)
    ensures
        match r {
            Some(x) => path_wrapper_inner(*ty) == Some(*x),
            None => path_wrapper_inner(*ty) is None,
        },
{
    let s = match last_segment(ty) {
        Some(s) => s,
        None => return None,
    };
    if !str_is(s.ident.as_str(), "Path") {
        return None;
    }
    let a = match &s.args {
        SegArgs::Angle(a) => a,
        _ => return None,
    };
    let mut i: usize = 0;
    assert(a@.skip(0) =~= a@);
    assert(path_wrapper_inner(*ty) == first_type_in(a@));
    while i < a.len()
        invariant
            0 <= i <= a@.len(),
            path_wrapper_inner(*ty) == first_type_in(a@),
            first_type_in(a@) == first_type_in(a@.skip(i as int)),
        decreases a@.len() - i,
    {
        assert(a@.skip(i as int)[0] == a@[i as int]);
        assert(a@.skip(i as int).drop_first() =~= a@.skip(i + 1));
        if let GenArg::Type(x) = &a[i] {
            return Some(x);
        }
        i = i + 1;
    }
    None
}

/// The element types a `Path<...>` inner type stands for: the elements of a
/// tuple, or the type itself.
pub open spec fn path_inner_types(t: Ty) -> Seq<Ty> {
    match t.kind {
        TyKind::Tuple(e) => e@,
        _ => seq![t],
    }
}

/// The types a sequence of borrowed types points at.
pub open spec fn pointees(v: Seq<&Ty>) -> Seq<Ty> {
    v.map_values(|x: &Ty| *x)
}

/// Flatten a `Path` inner type into its element types.
pub fn flatten_path_inner_types(ty: &Ty) -> (r: Vec<&Ty>)
    ensures
        pointees(r@) == path_inner_types(*ty),
{
    match &ty.kind {
        TyKind::Tuple(e) => {
            let mut out: Vec<&Ty> = Vec::new();
            let mut i: usize = 0;
            while i < e.len()
                invariant
                    0 <= i <= e@.len(),
                    out@.len() == i,
                    forall|k: int| 0 <= k < i ==> *(#[trigger] out@[k]) == e@[k],
                decreases e@.len() - i,
            {
                out.push(&e[i]);
                i = i + 1;
            }
            assert(pointees(out@) =~= e@);
            out
        },
        _ => {
            let out = vec![ty];
            assert(pointees(out@) =~= seq![*ty]);
            out
        },
    }
}

/// `HashMap<String, V>` / `BTreeMap<String, V>` → `V`.
pub open spec fn string_map_value(t: Ty) -> Option<Ty> {
    match last_seg(t) {
        Some(s) => if s.ident@ == "HashMap"@ || s.ident@ == "BTreeMap"@ {
            match s.args {
                SegArgs::Angle(a) => if a@.len() == 2 && a@[0] is Type && a@[1] is Type && last_is(
                    a@[0]->Type_0,
                    "String"@,
                ) {
                    Some(a@[1]->Type_0)
                } else {
                    None
                },
                _ => None,
            }
        } else {
            None
        },
        None => None,
    }
}

/// Detect `HashMap<String, V>` / `BTreeMap<String, V>` and return `V`.
pub fn string_map_value_type(ty: &Ty) -> (r: Option<&Ty>)
    ensures
        match r {
            Some(x) => string_map_value(*ty) == Some(*x),
            None => string_map_value(*ty) is None,
        },
{
    let s = match last_segment(ty) {
        Some(s) => s,
        None => return None,
    };
    if !str_is(s.ident.as_str(), "HashMap") && !str_is(s.ident.as_str(), "BTreeMap") {
        return None;
    }
    let a = match &s.args {
        SegArgs::Angle(a) => a,
        _ => return None,
    };
    if a.len() != 2 {
        return None;
    }
    let k = match &a[0] {
        GenArg::Type(k) => k,
        GenArg::Other => return None,
    };
    let v = match &a[1] {
        GenArg::Type(v) => v,
        GenArg::Other => return None,
    };
    if !is_string_type(k) {
        return None;
    }
    Some(v)
}

/// The OpenAPI type of a parameter type: `Option<T>` is read as `T`.
pub open spec fn param_openapi_of(t: Ty) -> Seq<char> {
    let inner = match wrapped_in(t, "Option"@) {
        Some(x) => x,
        None => t,
    };
    match last_seg(inner) {
        Some(s) => {
            let n = s.ident@;
            if n == "String"@ || n == "str"@ {
                "string"@
            } else if n == "u8"@ || n == "u16"@ || n == "u32"@ || n == "u64"@ || n == "usize"@
                || n == "i8"@ || n == "i16"@ || n == "i32"@ || n == "i64"@ || n == "isize"@ {
                "integer"@
            } else if n == "f32"@ || n == "f64"@ {
                "number"@
            } else if n == "bool"@ {
                "boolean"@
            } else {
                "string"@
            }
        },
        None => "string"@,
    }
}

/// Map a Rust parameter type to an OpenAPI type string.
pub fn rust_type_to_openapi_str(ty: &Ty) -> (r: &'static str)
    ensures
        r@ == param_openapi_of(*ty),
{
    let inner = match unwrap_option_type(ty) {
        Some(x) => x,
        None => ty,
    };
    match last_segment(inner) {
        Some(s) => {
            let n = s.ident.as_str();
            if str_is(n, "String") || str_is(n, "str") {
                "string"
            } else if str_is(n, "u8") || str_is(n, "u16") || str_is(n, "u32") || str_is(n, "u64")
                || str_is(n, "usize") || str_is(n, "i8") || str_is(n, "i16") || str_is(n, "i32")
                || str_is(n, "i64") || str_is(n, "isize") {
                "integer"
            } else if str_is(n, "f32") || str_is(n, "f64") {
                "number"
            } else if str_is(n, "bool") {
                "boolean"
            } else {
                "string"
            }
        },
        None => "string",
    }
}

/// `s` without its spaces.
pub open spec fn without_spaces(s: Seq<char>) -> Seq<char> {
    s.filter(|c: char| c != ' ')
}

pub(crate) fn remove_spaces(s: &String) -> (r: String)
    ensures
        r@ == without_spaces(s@),
{
    let v = chars_of(s.as_str());
    let mut out: Vec<char> = Vec::new();
    let mut i: usize = 0;
    while i < v.len()
        invariant
            0 <= i <= v@.len(),
            v@ == s@,
            out@ == v@.take(i as int).filter(|c: char| c != ' '),
        decreases v@.len() - i,
    {
        proof {
            v@.take(i as int).lemma_filter_push(v@[i as int], |c: char| c != ' ');
            assert(v@.take(i + 1) =~= v@.take(i as int).push(v@[i as int]));
        }
        if v[i] != ' ' {
            out.push(v[i]);
        }
        i = i + 1;
    }
    assert(v@.take(v@.len() as int) =~= v@);
    string_of(&out)
}

/// The OpenAPI-friendly name of a type: `Name` or `Name_Inner1_Inner2` for
/// generic types (inner names of the type arguments, recursively); the token
/// rendering without spaces for non-path types.
pub open spec fn schema_name(t: Ty) -> Seq<char>
    decreases t, 1int,
{
    match t.kind {
        TyKind::Path(segs) => if segs@.len() > 0 {
            let s = segs@[segs@.len() - 1];
            match s.args {
                SegArgs::Angle(a) => {
                    let inner = arg_schema_names(a@);
                    if inner.len() > 0 {
                        s.ident@ + seq!['_'] + crate::text::join(inner, seq!['_'])
                    } else {
                        s.ident@
                    }
                },
                _ => s.ident@,
            }
        } else {
            without_spaces(t.tokens@)
        },
        _ => without_spaces(t.tokens@),
    }
}

/// The schema names of the type arguments among `a`, in order.
pub open spec fn arg_schema_names(a: Seq<GenArg>) -> Seq<Seq<char>>
    decreases a, 0int,
{
    if a.len() == 0 {
        Seq::empty()
    } else {
        let init = arg_schema_names(a.drop_last());
        match a[a.len() - 1] {
            GenArg::Type(t) => init.push(schema_name(t)),
            GenArg::Other => init,
        }
    }
}

/// Convert a type to an OpenAPI-friendly name string.
pub fn type_to_schema_name(ty: &Ty) -> (r: String)
    ensures
        r@ == schema_name(*ty),
    decreases *ty,
{
    match &ty.kind {
        TyKind::Path(segs) => {
            if segs.len() == 0 {
                return remove_spaces(&ty.tokens);
            }
            let s = &segs[segs.len() - 1];
            match &s.args {
                SegArgs::Angle(a) => {
                    let mut names: Vec<Vec<char>> = Vec::new();
                    let mut k: usize = 0;
                    while k < a.len()
                        invariant
                            0 <= k <= a@.len(),
                            ty.kind == TyKind::Path(*segs),
                            segs@.len() > 0,
                            *s == segs@[segs@.len() - 1],
                            s.args == SegArgs::Angle(*a),
                            crate::text::views(names@) == arg_schema_names(a@.take(k as int)),
                        decreases a@.len() - k,
                    {
                        assert(a@.take(k + 1).drop_last() =~= a@.take(k as int));
                        assert(a@.take(k + 1)[k as int] == a@[k as int]);
                        match &a[k] {
                            GenArg::Type(x) => {
                                proof {
                                    assert(decreases_to!(*ty => ty.kind));
                                    assert(ty.kind->Path_0 == *segs);
                                    assert(decreases_to!(ty.kind => ty.kind->Path_0));
                                    assert(decreases_to!(*segs => segs@));
                                    assert(decreases_to!(segs@ => segs@[segs@.len() - 1]));
                                    assert(decreases_to!(*s => s.args));
                                    assert(s.args->Angle_0 == *a);
                                    assert(decreases_to!(s.args => s.args->Angle_0));
                                    assert(decreases_to!(*a => a@));
                                    assert(decreases_to!(a@ => a@[k as int]));
                                    assert(decreases_to!(a@[k as int] => *x));
                                }
                                let n = type_to_schema_name(x);
                                let ghost before = names@;
                                names.push(chars_of(n.as_str()));
                                proof {
                                    crate::text::lemma_views_push(before, names@.last());
                                    assert(names@ =~= before.push(names@.last()));
                                }
                            },
                            GenArg::Other => {},
                        }
                        k = k + 1;
                    }
                    assert(a@.take(a@.len() as int) =~= a@);
                    if names.len() > 0 {
                        let mut out = chars_of(s.ident.as_str());
                        out.push('_');
                        let mut j = crate::text::join_chars(&names, "_");
                        proof {
                            reveal_strlit("_");
                            assert("_"@ =~= seq!['_']);
                        }
                        out.append(&mut j);
                        string_of(&out)
                    } else {
                        s.ident.clone()
                    }
                },
                _ => s.ident.clone(),
            }
        },
        _ => remove_spaces(&ty.tokens),
    }
}

/// A simple type name string for metadata: `Option<..>` and `Vec<..>` keep
/// their (simplified) argument, other path types give their last segment's
/// name, other types their token rendering.
pub open spec fn simple_type_name(t: Ty) -> Seq<char>
    decreases t,
{
    match t.kind {
        TyKind::Path(segs) => if segs@.len() > 0 {
            let s = segs@[segs@.len() - 1];
            let n = s.ident@;
            match s.args {
                SegArgs::Angle(a) => if (n == "Option"@ || n == "Vec"@) && a@.len() > 0
                    && a@[0] is Type {
                    n + seq!['<'] + simple_type_name(a@[0]->Type_0) + seq!['>']
                } else {
                    n
                },
                _ => n,
            }
        } else {
            t.tokens@
        },
        _ => t.tokens@,
    }
}

/// Get a simple type name string for metadata.
pub fn type_name_str(ty: &Ty) -> (r: String)
    ensures
        r@ == simple_type_name(*ty),
    decreases *ty,
{
    match &ty.kind {
        TyKind::Path(segs) => {
            if segs.len() == 0 {
                return ty.tokens.clone();
            }
            let s = &segs[segs.len() - 1];
            let name = s.ident.as_str();
            if str_is(name, "Option") || str_is(name, "Vec") {
                if let SegArgs::Angle(a) = &s.args {
                    if a.len() > 0 {
                        if let GenArg::Type(x) = &a[0] {
                            proof {
                                assert(decreases_to!(*ty => ty.kind));
                                assert(ty.kind->Path_0 == *segs);
                                    assert(decreases_to!(ty.kind => ty.kind->Path_0));
                                assert(decreases_to!(*segs => segs@));
                                assert(decreases_to!(segs@ => segs@[segs@.len() - 1]));
                                assert(decreases_to!(*s => s.args));
                                assert(s.args->Angle_0 == *a);
                                    assert(decreases_to!(s.args => s.args->Angle_0));
                                assert(decreases_to!(*a => a@));
                                assert(decreases_to!(a@ => a@[0]));
                                assert(decreases_to!(a@[0] => *x));
                            }
                            let inner = type_name_str(x);
                            let mut out = chars_of(name);
                            out.push('<');
                            push_str(&mut out, inner.as_str());
                            out.push('>');
                            return string_of(&out);
                        }
                    }
                }
            }
            s.ident.clone()
        },
        _ => ty.tokens.clone(),
    }
}

} // verus!
