//! `#[derive(FromMultipart)]`: how each field of a multipart form is read
//! and described in the OpenAPI schema. One classification drives both.

use vstd::prelude::*;

use crate::text::{chars_of, str_is, string_of};
use crate::types::{
    first_type_arg, last_seg, last_segment, first_generic_type, openapi_of, type_to_openapi_str, Ty,
};

verus! {

/// How a multipart field is read.
pub enum FieldClass<'a> {
    /// `String`: a required text field.
    Text,
    /// `UploadedFile`: a required file.
    File,
    /// `Vec<UploadedFile>`: zero or more files (an absent field is empty).
    Files,
    /// `Bytes`: raw bytes of a text or file field.
    Bytes,
    /// Any other type: a text field parsed with `FromStr`.
    Parse(&'a Ty),
    /// `Option<T>`: `T`'s reading; an absent field is `None`.
    Optional(Box<FieldClass<'a>>),
}

/// The value of a `FieldClass`.
pub enum ClassSpec {
    Text,
    File,
    Files,
    Bytes,
    Parse(Ty),
    Optional(Box<ClassSpec>),
}

pub open spec fn class_view<'a>(c: FieldClass<'a>) -> ClassSpec
    decreases c,
{
    match c {
        FieldClass::Text => ClassSpec::Text,
        FieldClass::File => ClassSpec::File,
        FieldClass::Files => ClassSpec::Files,
        FieldClass::Bytes => ClassSpec::Bytes,
        FieldClass::Parse(t) => ClassSpec::Parse(*t),
        FieldClass::Optional(b) => ClassSpec::Optional(Box::new(class_view(*b))),
    }
}

pub open spec fn option_without_arg_msg() -> Seq<char> {
    "Option must have a type argument"@
}

pub open spec fn optional_files_msg() -> Seq<char> {
    "FromMultipart: Option<Vec<UploadedFile>> is not supported — use Vec<UploadedFile>; an absent field yields an empty Vec"@
}

pub open spec fn nested_option_msg() -> Seq<char> {
    "FromMultipart: nested Option is not supported"@
}

pub open spec fn vec_not_files_msg() -> Seq<char> {
    "FromMultipart: Vec<T> is only supported for Vec<UploadedFile>"@
}

pub open spec fn multipart_named_msg() -> Seq<char> {
    "FromMultipart can only be derived on structs with named fields"@
}

pub open spec fn multipart_struct_msg() -> Seq<char> {
    "FromMultipart can only be derived on structs"@
}

/// The name of the last segment of a type's path.
pub open spec fn last_name(t: Ty) -> Option<Seq<char>> {
    match last_seg(t) {
        Some(s) => Some(s.ident@),
        None => None,
    }
}

/// The first type argument of a type's last segment.
pub open spec fn generic_arg(t: Ty) -> Option<Ty> {
    match last_seg(t) {
        Some(s) => first_type_arg(s),
        None => None,
    }
}

/// The first type argument of a type is part of the type.
pub proof fn lemma_arg_smaller(t: Ty)
    ensures
        generic_arg(t) matches Some(inner) ==> decreases_to!(t => inner),
{
    match t.kind {
        crate::types::TyKind::Path(segs) => {
            if segs@.len() > 0 {
                let s = segs@.last();
                match s.args {
                    crate::types::SegArgs::Angle(a) => {
                        if a@.len() > 0 && a@[0] is Type {
                            let inner = a@[0]->Type_0;
                            assert(decreases_to!(t => t.kind));
                            assert(decreases_to!(t.kind => segs));
                            assert(decreases_to!(segs => segs@));
                            assert(decreases_to!(segs@ => segs@[segs@.len() - 1]));
                            assert(decreases_to!(s => s.args));
                            assert(decreases_to!(s.args => a));
                            assert(decreases_to!(a => a@));
                            assert(decreases_to!(a@ => a@[0]));
                            assert(decreases_to!(a@[0] => inner));
                        }
                    },
                    _ => {},
                }
            }
        },
        _ => {},
    }
}

/// How a field of type `t` is read, by the name of its last path segment.
pub open spec fn class_of(t: Ty) -> Result<ClassSpec, Seq<char>>
    decreases t,
{
    if last_name(t) == Some("Option"@) {
        match generic_arg(t) {
            None => Err(option_without_arg_msg()),
            Some(inner) => {
                proof {
                    lemma_arg_smaller(t);
                }
                match class_of(inner) {
                    Err(e) => Err(e),
                    Ok(ClassSpec::Files) => Err(optional_files_msg()),
                    Ok(ClassSpec::Optional(_)) => Err(nested_option_msg()),
                    Ok(c) => Ok(ClassSpec::Optional(Box::new(c))),
                }
            },
        }
    } else if last_name(t) == Some("Vec"@) {
        match generic_arg(t) {
            Some(inner) => if last_name(inner) == Some("UploadedFile"@) {
                Ok(ClassSpec::Files)
            } else {
                Err(vec_not_files_msg())
            },
            None => Err(vec_not_files_msg()),
        }
    } else if last_name(t) == Some("UploadedFile"@) {
        Ok(ClassSpec::File)
    } else if last_name(t) == Some("String"@) {
        Ok(ClassSpec::Text)
    } else if last_name(t) == Some("Bytes"@) {
        Ok(ClassSpec::Bytes)
    } else {
        Ok(ClassSpec::Parse(t))
    }
}

fn msg(s: &str) -> (r: String)
    ensures
        r@ == s@,
{
    string_of(&chars_of(s))
}

fn name_is(t: &Ty, n: &str) -> (r: bool)
    ensures
        r == (last_name(*t) == Some(n@)),
{
    match last_segment(t) {
        Some(s) => str_is(s.ident.as_str(), n),
        None => false,
    }
}

fn type_arg(t: &Ty) -> (r: Option<&Ty>)
    ensures
        match r {
            Some(x) => generic_arg(*t) == Some(*x),
            None => generic_arg(*t) is None,
        },
{
    match last_segment(t) {
        Some(s) => first_generic_type(s),
        None => None,
    }
}

/// How a field of type `t` is read.
pub fn classify<'a>(t: &'a Ty) -> (r: Result<FieldClass<'a>, String>)
    ensures
        match r {
            Ok(c) => class_of(*t) == Ok::<ClassSpec, Seq<char>>(class_view(c)),
            Err(e) => class_of(*t) == Err::<ClassSpec, Seq<char>>(e@),
        },
    decreases *t,
{
    proof {
        reveal_strlit("Option");
        reveal_strlit("Vec");
        reveal_strlit("UploadedFile");
        reveal_strlit("String");
        reveal_strlit("Bytes");
    }
    if name_is(t, "Option") {
        let inner = match type_arg(t) {
            None => return Err(msg("Option must have a type argument")),
            Some(x) => x,
        };
        proof {
            lemma_arg_smaller(*t);
        }
        match classify(inner) {
            Err(e) => Err(e),
            Ok(FieldClass::Files) => Err(
                msg(
                    "FromMultipart: Option<Vec<UploadedFile>> is not supported — use Vec<UploadedFile>; an absent field yields an empty Vec",
                ),
            ),
            Ok(FieldClass::Optional(_)) => Err(msg("FromMultipart: nested Option is not supported")),
            Ok(c) => Ok(FieldClass::Optional(Box::new(c))),
        }
    } else if name_is(t, "Vec") {
        match type_arg(t) {
            Some(inner) => {
                if name_is(inner, "UploadedFile") {
                    Ok(FieldClass::Files)
                } else {
                    Err(msg("FromMultipart: Vec<T> is only supported for Vec<UploadedFile>"))
                }
            },
            None => Err(msg("FromMultipart: Vec<T> is only supported for Vec<UploadedFile>")),
        }
    } else if name_is(t, "UploadedFile") {
        Ok(FieldClass::File)
    } else if name_is(t, "String") {
        Ok(FieldClass::Text)
    } else if name_is(t, "Bytes") {
        Ok(FieldClass::Bytes)
    } else {
        Ok(FieldClass::Parse(t))
    }
}

/// The schema of a reading: its OpenAPI type and format (`binary` for
/// files and bytes), whether it is an array of files, and whether the field
/// is required.
#[derive(PartialEq, Eq, Clone, Copy, Debug)]
pub struct FieldSchema {
    pub openapi_type: &'static str,
    pub binary: bool,
    pub array: bool,
    pub required: bool,
}

pub struct SchemaSpec {
    pub openapi_type: Seq<char>,
    pub binary: bool,
    pub array: bool,
    pub required: bool,
}

/// The schema of a reading; an `Option` has its inner schema and is not
/// required, and neither is a list of files (absent means empty).
pub open spec fn schema_of(c: ClassSpec) -> SchemaSpec
    decreases c,
{
    match c {
        ClassSpec::Text => SchemaSpec { openapi_type: "string"@, binary: false, array: false, required: true },
        ClassSpec::File => SchemaSpec { openapi_type: "string"@, binary: true, array: false, required: true },
        ClassSpec::Bytes => SchemaSpec { openapi_type: "string"@, binary: true, array: false, required: true },
        ClassSpec::Files => SchemaSpec { openapi_type: "string"@, binary: true, array: true, required: false },
        ClassSpec::Parse(t) => SchemaSpec { openapi_type: openapi_of(t), binary: false, array: false, required: true },
        ClassSpec::Optional(inner) => SchemaSpec { required: false, ..schema_of(*inner) },
    }
}

pub open spec fn schema_view(s: FieldSchema) -> SchemaSpec {
    SchemaSpec { openapi_type: s.openapi_type@, binary: s.binary, array: s.array, required: s.required }
}

/// The schema of a reading.
pub fn schema<'a>(c: &FieldClass<'a>) -> (r: FieldSchema)
    ensures
        schema_view(r) == schema_of(class_view(*c)),
    decreases c,
{
    proof {
        reveal_strlit("string");
    }
    match c {
        FieldClass::Text => FieldSchema { openapi_type: "string", binary: false, array: false, required: true },
        FieldClass::File | FieldClass::Bytes => FieldSchema {
            openapi_type: "string",
            binary: true,
            array: false,
            required: true,
        },
        FieldClass::Files => FieldSchema { openapi_type: "string", binary: true, array: true, required: false },
        FieldClass::Parse(t) => FieldSchema {
            openapi_type: type_to_openapi_str(t),
            binary: false,
            array: false,
            required: true,
        },
        FieldClass::Optional(inner) => {
            let s = schema(inner);
            FieldSchema { required: false, ..s }
        },
    }
}

/// A field of the form struct: its name and type.
pub struct FormField {
    pub name: String,
    pub ty: Ty,
}

/// How one field of the form is read, and its schema.
pub struct FormFieldPlan<'a> {
    pub class: FieldClass<'a>,
    pub schema: FieldSchema,
}

/// The readings of the fields, in order; the first field whose type is
/// refused stops it, with the field's position.
pub open spec fn classes_of(fs: Seq<FormField>) -> Result<Seq<ClassSpec>, (int, Seq<char>)>
    decreases fs.len(),
{
    if fs.len() == 0 {
        Ok(Seq::empty())
    } else {
        match classes_of(fs.drop_last()) {
            Err(e) => Err(e),
            Ok(acc) => match class_of(fs.last().ty) {
                Err(m) => Err((fs.len() - 1, m)),
                Ok(c) => Ok(acc.push(c)),
            },
        }
    }
}

proof fn lemma_classes_stop(fs: Seq<FormField>, i: int)
    requires
        0 <= i <= fs.len(),
        classes_of(fs.take(i)) is Err,
    ensures
        classes_of(fs) == classes_of(fs.take(i)),
    decreases fs.len() - i,
{
    if i == fs.len() {
        assert(fs.take(i) =~= fs);
    } else {
        assert(fs.drop_last().take(i) =~= fs.take(i));
        lemma_classes_stop(fs.drop_last(), i);
    }
}

/// How `#[derive(FromMultipart)]` reads a struct: refused unless it is a
/// struct with named fields, or at the first field whose type is refused;
/// otherwise each field's reading and schema, in order.
pub fn plan_multipart<'a>(shape: crate::derives::ItemShape, fields: &'a Vec<FormField>) -> (r: Result<
    Vec<FormFieldPlan<'a>>,
    (crate::derives::DeriveSite, String),
>)
    ensures
        shape == crate::derives::ItemShape::NotStruct ==> (r matches Err((s, m)) && s
            == crate::derives::DeriveSite::Name && m@ == multipart_struct_msg()),
        (shape == crate::derives::ItemShape::TupleStruct || shape == crate::derives::ItemShape::UnitStruct) ==> (
        r matches Err((s, m)) && s == crate::derives::DeriveSite::Name && m@ == multipart_named_msg()),
        shape == crate::derives::ItemShape::NamedStruct ==> match r {
            Ok(v) => classes_of(fields@) == Ok::<Seq<ClassSpec>, (int, Seq<char>)>(
                v@.map_values(|p: FormFieldPlan<'a>| class_view(p.class)),
            ) && forall|k: int|
                0 <= k < v@.len() ==> schema_view((#[trigger] v@[k]).schema) == schema_of(class_view(v@[k].class)),
            Err((s, m)) => classes_of(fields@) matches Err((i, e)) && s == crate::derives::DeriveSite::Field(
                i as usize,
            ) && m@ == e,
        },
{
    match shape {
        crate::derives::ItemShape::NamedStruct => {},
        crate::derives::ItemShape::NotStruct => {
            return Err((crate::derives::DeriveSite::Name, msg("FromMultipart can only be derived on structs")));
        },
        _ => {
            return Err(
                (
                    crate::derives::DeriveSite::Name,
                    msg("FromMultipart can only be derived on structs with named fields"),
                ),
            );
        },
    }
    let mut out: Vec<FormFieldPlan<'a>> = Vec::new();
    let mut i: usize = 0;
    proof {
        assert(fields@.take(0) =~= Seq::<FormField>::empty());
        assert(out@.map_values(|p: FormFieldPlan<'a>| class_view(p.class)) =~= Seq::<ClassSpec>::empty());
    }
    while i < fields.len()
        invariant
            0 <= i <= fields@.len(),
            shape == crate::derives::ItemShape::NamedStruct,
            classes_of(fields@.take(i as int)) == Ok::<Seq<ClassSpec>, (int, Seq<char>)>(
                out@.map_values(|p: FormFieldPlan<'a>| class_view(p.class)),
            ),
            forall|k: int|
                0 <= k < out@.len() ==> schema_view((#[trigger] out@[k]).schema) == schema_of(class_view(out@[k].class)),
        decreases fields@.len() - i,
    {
        proof {
            assert(fields@.take(i + 1).drop_last() =~= fields@.take(i as int));
            assert(fields@.take(i + 1).last() == fields@[i as int]);
        }
        let class = match classify(&fields[i].ty) {
            Err(e) => {
                proof {
                    lemma_classes_stop(fields@, i + 1);
                }
                return Err((crate::derives::DeriveSite::Field(i), e));
            },
            Ok(c) => c,
        };
        let sc = schema(&class);
        let p = FormFieldPlan { class, schema: sc };
        let ghost before = out@;
        out.push(p);
        proof {
            assert(out@.map_values(|p: FormFieldPlan<'a>| class_view(p.class)) =~= before.map_values(
                |p: FormFieldPlan<'a>| class_view(p.class),
            ).push(class_view(p.class)));
            assert forall|k: int| 0 <= k < out@.len() implies schema_view((#[trigger] out@[k]).schema) == schema_of(
                class_view(out@[k].class),
            ) by {
                if k < before.len() {
                    assert(out@[k] == before[k]);
                }
            }
        }
        i = i + 1;
    }
    proof {
        assert(fields@.take(i as int) =~= fields@);
    }
    Ok(out)
}

// ── laws ────────────────────────────────────────────────────────────────

/// The schema requires a field exactly when its reading fails on an
/// absent field: neither an `Option` nor a list of files is required; and
/// a field read as bytes or files is described as binary.
pub proof fn lemma_required_matches_reading(c: ClassSpec)
    ensures
        schema_of(c).required <==> !(c is Optional || c is Files),
        (c is File || c is Bytes || c is Files) ==> schema_of(c).binary,
{
}

/// Every accepted reading nests `Option` at most once, and never around a
/// list of files.
pub proof fn lemma_option_nests_once(t: Ty)
    ensures
        class_of(t) matches Ok(ClassSpec::Optional(inner)) ==> !(*inner is Optional) && !(*inner is Files),
{
}

} // verus!
