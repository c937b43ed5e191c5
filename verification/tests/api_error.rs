use r2e_macros::api_error::{
    interpolated_format, message_source, parse_status_expr, parse_variant, parse_variants,
    variant_has_from, ApiErrorFault, ErrorAttr, FieldInput, FieldsInput, MessageSource, NestedMeta,
    StatusExpr, ValueExpr, VariantFields, VariantInput,
};
use r2e_macros::attrs::{Attr, AttrForm};
use r2e_macros::types::{Seg, SegArgs, Ty, TyKind};

fn marker(name: &str) -> Attr<()> {
    Attr {
        ident: Some(name.to_string()),
        form: AttrForm::Bare,
        meta: Err(String::new()),
        values: Err(String::new()),
        raw: (),
    }
}

fn path(segs: &[&str]) -> Vec<String> {
    segs.iter().map(|s| s.to_string()).collect()
}

fn nv(key: &str, v: ValueExpr) -> NestedMeta {
    NestedMeta::NameValue(path(&[key]), v)
}

fn ty(name: &str) -> Ty {
    Ty {
        kind: TyKind::Path(vec![Seg { ident: name.to_string(), args: SegArgs::Plain }]),
        tokens: name.to_string(),
    }
}

fn field(name: Option<&str>, t: &str, from: bool) -> FieldInput<()> {
    FieldInput {
        name: name.map(|n| n.to_string()),
        ty: ty(t),
        attrs: if from { vec![marker("from")] } else { vec![] },
    }
}

fn variant(args: Result<Vec<NestedMeta>, String>, fields: FieldsInput<()>) -> VariantInput<(), String> {
    VariantInput { attrs: vec![marker("error")], error_args: args, fields }
}

#[test]
fn status_from_constant_and_number() {
    assert!(matches!(parse_status_expr(&ValueExpr::Path(path(&["NOT_FOUND"]))), Ok(StatusExpr::Named(ref n)) if n == "NOT_FOUND"));
    assert!(matches!(parse_status_expr(&ValueExpr::Path(path(&["StatusCode", "CONFLICT"]))), Ok(StatusExpr::Named(ref n)) if n == "CONFLICT"));
    assert!(matches!(parse_status_expr(&ValueExpr::Int("429".to_string())), Ok(StatusExpr::Numeric(429))));
}

#[test]
fn status_refusals() {
    assert_eq!(
        parse_status_expr(&ValueExpr::Int("70000".to_string())).err(),
        Some("number too large to fit in target type".to_string())
    );
    assert_eq!(
        parse_status_expr(&ValueExpr::Str("404".to_string())).err(),
        Some("status must be a StatusCode constant (e.g. NOT_FOUND) or a numeric literal (e.g. 429)".to_string())
    );
    assert_eq!(parse_status_expr(&ValueExpr::Path(vec![])).err(), Some("invalid status code".to_string()));
}

#[test]
fn standard_variant() {
    let v = variant(
        Ok(vec![nv("status", ValueExpr::Path(path(&["NOT_FOUND"]))), nv("message", ValueExpr::Str("User {0} not found".to_string()))]),
        FieldsInput::Unnamed(vec![field(None, "u64", false)]),
    );
    let parsed = parse_variant(v).ok().unwrap();
    match &parsed.error_attr {
        ErrorAttr::Standard { status: StatusExpr::Named(n), message: Some(m) } => {
            assert_eq!(n, "NOT_FOUND");
            assert_eq!(m, "User {0} not found");
        }
        _ => panic!("expected a standard error attribute"),
    }
    assert!(!variant_has_from(&parsed));
}

#[test]
fn later_status_wins() {
    let v = variant(
        Ok(vec![nv("status", ValueExpr::Int("400".to_string())), nv("status", ValueExpr::Int("422".to_string()))]),
        FieldsInput::Unit,
    );
    let parsed = parse_variant(v).ok().unwrap();
    assert!(matches!(parsed.error_attr, ErrorAttr::Standard { status: StatusExpr::Numeric(422), message: None }));
}

#[test]
fn transparent_variant() {
    let v = variant(
        Ok(vec![NestedMeta::Path(path(&["transparent"]))]),
        FieldsInput::Unnamed(vec![field(None, "IoError", true)]),
    );
    let parsed = parse_variant(v).ok().unwrap();
    assert!(matches!(parsed.error_attr, ErrorAttr::Transparent));
    assert!(variant_has_from(&parsed));
}

#[test]
fn missing_error_attribute() {
    let v: VariantInput<(), String> = VariantInput { attrs: vec![], error_args: Ok(vec![]), fields: FieldsInput::Unit };
    let f = parse_variant(v).err().unwrap();
    assert!(matches!(f, ApiErrorFault::MissingErrorAttr));
    assert_eq!(f.message(), Some("each variant must have an #[error(...)] attribute".to_string()));
}

#[test]
fn status_is_required() {
    let v = variant(Ok(vec![nv("message", ValueExpr::Str("x".to_string()))]), FieldsInput::Unit);
    let f = parse_variant(v).err().unwrap();
    assert_eq!(f.message(), Some("#[error(...)] requires status = STATUS_CODE".to_string()));
}

#[test]
fn message_must_be_a_string() {
    let v = variant(Ok(vec![nv("status", ValueExpr::Int("400".to_string())), nv("message", ValueExpr::Int("1".to_string()))]), FieldsInput::Unit);
    let f = parse_variant(v).err().unwrap();
    assert!(matches!(f, ApiErrorFault::MessageNotString { at: 1 }));
    assert_eq!(f.message(), Some("message must be a string literal".to_string()));
}

#[test]
fn bad_status_reports_position() {
    let v = variant(Ok(vec![nv("status", ValueExpr::Other)]), FieldsInput::Unit);
    assert!(matches!(parse_variant(v).err().unwrap(), ApiErrorFault::Status { at: 0, .. }));
}

#[test]
fn transparent_needs_one_field() {
    let v = variant(Ok(vec![NestedMeta::Path(path(&["transparent"]))]), FieldsInput::Unit);
    let f = parse_variant(v).err().unwrap();
    assert_eq!(f.message(), Some("#[error(transparent)] requires exactly one field".to_string()));
}

#[test]
fn one_from_per_variant() {
    let v = variant(
        Ok(vec![nv("status", ValueExpr::Int("500".to_string()))]),
        FieldsInput::Unnamed(vec![field(None, "A", true), field(None, "B", true)]),
    );
    let f = parse_variant(v).err().unwrap();
    assert_eq!(f.message(), Some("only one #[from] per variant".to_string()));
}

#[test]
fn unparsable_arguments_pass_the_parser_error() {
    let v = variant(Err("expected `,`".to_string()), FieldsInput::Unit);
    match parse_variant(v).err().unwrap() {
        ApiErrorFault::Args(e) => assert_eq!(e, "expected `,`"),
        _ => panic!("expected the parser error"),
    }
}

#[test]
fn variants_stop_at_first_refusal() {
    let good = variant(Ok(vec![nv("status", ValueExpr::Int("400".to_string()))]), FieldsInput::Unit);
    let bad: VariantInput<(), String> = VariantInput { attrs: vec![], error_args: Ok(vec![]), fields: FieldsInput::Unit };
    let r = parse_variants(vec![good, bad]);
    assert!(matches!(r, Err((1, ApiErrorFault::MissingErrorAttr))));
}

#[test]
fn positional_placeholders_become_captures() {
    let fields = VariantFields::Tuple(vec![]);
    assert_eq!(interpolated_format("no fields {0}", &fields), "no fields {0}");
    let v = variant(
        Ok(vec![nv("status", ValueExpr::Int("400".to_string()))]),
        FieldsInput::Unnamed((0..12).map(|_| field(None, "u8", false)).collect()),
    );
    let parsed = parse_variant(v).ok().unwrap();
    assert_eq!(interpolated_format("{0} and {1} then {11}", &parsed.fields), "{_0} and {_1} then {_11}");
    assert_eq!(interpolated_format("plain text", &parsed.fields), "plain text");
    assert_eq!(interpolated_format("{12} stays", &parsed.fields), "{12} stays");
}

#[test]
fn named_placeholders_are_kept() {
    let v = variant(
        Ok(vec![nv("status", ValueExpr::Int("400".to_string()))]),
        FieldsInput::Named(vec![field(Some("id"), "u64", false)]),
    );
    let parsed = parse_variant(v).ok().unwrap();
    assert_eq!(interpolated_format("missing {id}", &parsed.fields), "missing {id}");
}

#[test]
fn message_sources() {
    let unit = parse_variant(variant(Ok(vec![nv("status", ValueExpr::Int("404".to_string()))]), FieldsInput::Unit)).ok().unwrap();
    assert!(matches!(message_source("UserNotFound", &unit), MessageSource::Humanized(ref h) if h == "User not found"));
    let from = parse_variant(variant(
        Ok(vec![nv("status", ValueExpr::Int("500".to_string()))]),
        FieldsInput::Unnamed(vec![field(None, "u8", false), field(None, "IoError", true)]),
    ))
    .ok()
    .unwrap();
    assert!(matches!(message_source("Io", &from), MessageSource::Source(1)));
    let single = parse_variant(variant(
        Ok(vec![nv("status", ValueExpr::Int("400".to_string()))]),
        FieldsInput::Unnamed(vec![field(None, "String", false)]),
    ))
    .ok()
    .unwrap();
    assert!(matches!(message_source("BadInput", &single), MessageSource::SingleString));
    let transparent = parse_variant(variant(
        Ok(vec![NestedMeta::Path(path(&["transparent"]))]),
        FieldsInput::Unnamed(vec![field(None, "Inner", false)]),
    ))
    .ok()
    .unwrap();
    assert!(matches!(message_source("Wrapped", &transparent), MessageSource::Delegate));
    let explicit = parse_variant(variant(
        Ok(vec![nv("status", ValueExpr::Int("400".to_string())), nv("message", ValueExpr::Str("bad {0}".to_string()))]),
        FieldsInput::Unnamed(vec![field(None, "u8", false)]),
    ))
    .ok()
    .unwrap();
    assert!(matches!(message_source("Bad", &explicit), MessageSource::Format(ref f) if f == "bad {_0}"));
}
