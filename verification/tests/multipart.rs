use r2e_macros::derives::{DeriveSite, ItemShape};
use r2e_macros::multipart::{classify, plan_multipart, schema, FieldClass, FormField};
use r2e_macros::types::{GenArg, Seg, SegArgs, Ty, TyKind};

fn ty(name: &str) -> Ty {
    Ty { kind: TyKind::Path(vec![Seg { ident: name.to_string(), args: SegArgs::Plain }]), tokens: name.to_string() }
}

fn wrap(outer: &str, inner: Ty) -> Ty {
    let tokens = format!("{outer} < {} >", inner.tokens);
    Ty { kind: TyKind::Path(vec![Seg { ident: outer.to_string(), args: SegArgs::Angle(vec![GenArg::Type(inner)]) }]), tokens }
}

fn err_of(t: &Ty) -> String {
    match classify(t) {
        Err(e) => e,
        Ok(_) => panic!("expected a refusal"),
    }
}

#[test]
fn field_types_are_classified() {
    assert!(matches!(classify(&ty("String")), Ok(FieldClass::Text)));
    assert!(matches!(classify(&ty("UploadedFile")), Ok(FieldClass::File)));
    assert!(matches!(classify(&wrap("Vec", ty("UploadedFile"))), Ok(FieldClass::Files)));
    assert!(matches!(classify(&ty("Bytes")), Ok(FieldClass::Bytes)));
    assert!(matches!(classify(&ty("u32")), Ok(FieldClass::Parse(t)) if t.tokens == "u32"));
    match classify(&wrap("Option", ty("String"))) {
        Ok(FieldClass::Optional(inner)) => assert!(matches!(*inner, FieldClass::Text)),
        _ => panic!("expected an optional text field"),
    }
}

#[test]
fn refused_field_types() {
    assert_eq!(err_of(&wrap("Vec", ty("String"))), "FromMultipart: Vec<T> is only supported for Vec<UploadedFile>");
    assert_eq!(
        err_of(&wrap("Option", wrap("Vec", ty("UploadedFile")))),
        "FromMultipart: Option<Vec<UploadedFile>> is not supported — use Vec<UploadedFile>; an absent field yields an empty Vec"
    );
    assert_eq!(err_of(&wrap("Option", wrap("Option", ty("u8")))), "FromMultipart: nested Option is not supported");
    assert_eq!(err_of(&ty("Option")), "Option must have a type argument");
    assert_eq!(
        err_of(&wrap("Option", wrap("Option", wrap("Vec", ty("u8"))))),
        "FromMultipart: Vec<T> is only supported for Vec<UploadedFile>"
    );
}

#[test]
fn schemas_follow_the_reading() {
    let s = schema(&classify(&ty("String")).unwrap());
    assert_eq!((s.openapi_type, s.binary, s.array, s.required), ("string", false, false, true));
    let s = schema(&classify(&wrap("Vec", ty("UploadedFile"))).unwrap());
    assert_eq!((s.openapi_type, s.binary, s.array, s.required), ("string", true, true, false));
    let s = schema(&classify(&wrap("Option", ty("Bytes"))).unwrap());
    assert_eq!((s.openapi_type, s.binary, s.array, s.required), ("string", true, false, false));
    let s = schema(&classify(&ty("i64")).unwrap());
    assert_eq!((s.openapi_type, s.required), ("integer", true));
}

#[test]
fn form_struct_plan() {
    let fields = vec![
        FormField { name: "title".to_string(), ty: ty("String") },
        FormField { name: "count".to_string(), ty: wrap("Option", ty("u32")) },
        FormField { name: "files".to_string(), ty: wrap("Vec", ty("UploadedFile")) },
    ];
    let plan = plan_multipart(ItemShape::NamedStruct, &fields).ok().unwrap();
    assert_eq!(plan.iter().map(|p| p.schema.required).collect::<Vec<_>>(), vec![true, false, false]);
    let bad = vec![FormField { name: "a".to_string(), ty: ty("String") }, FormField { name: "b".to_string(), ty: wrap("Vec", ty("u8")) }];
    assert!(matches!(plan_multipart(ItemShape::NamedStruct, &bad), Err((DeriveSite::Field(1), _))));
    assert!(matches!(plan_multipart(ItemShape::NotStruct, &fields), Err((DeriveSite::Name, ref m)) if m == "FromMultipart can only be derived on structs"));
    assert!(matches!(plan_multipart(ItemShape::TupleStruct, &fields), Err((DeriveSite::Name, ref m)) if m == "FromMultipart can only be derived on structs with named fields"));
}
