use std::marker::PhantomData;
use std::mem::ManuallyDrop;

use hash_graph::reflection::{
    deserialize_marker, DeserializeError, Document, PhantomDataReflection, PhantomDataVisitor,
    Reflection, Schema,
};
use hash_graph::wire::JsonValue;

#[test]
fn a_marker_reflects_null() {
    let mut document = Document { schemas: vec![Schema::new("string")] };
    let schema = PhantomDataReflection::schema(&mut document);
    assert_eq!(schema, Schema::new("null"));
    assert_eq!(schema.ty(), "null");
    assert_eq!(document, Document { schemas: vec![Schema::new("string")] });
}

#[test]
fn what_is_kept_from_being_dropped_reflects_what_it_holds() {
    let mut document = Document { schemas: vec![] };
    let schema = <ManuallyDrop<PhantomDataReflection> as Reflection>::schema(&mut document);
    assert_eq!(schema, Schema::new("null"));
    assert_eq!(document, Document { schemas: vec![] });
}

#[test]
fn a_marker_is_read_from_null_and_from_nothing() {
    let visitor = || PhantomDataVisitor::<u8>(PhantomData);
    assert_eq!(visitor().expecting(), Schema::new("null"));
    assert_eq!(visitor().visit_none(), Ok(PhantomData));
    assert_eq!(visitor().visit_null(), Ok(PhantomData));
    assert_eq!(deserialize_marker::<u8>(&JsonValue::Null), Ok(PhantomData));
    assert_eq!(deserialize_marker::<u8>(&JsonValue::Bool(false)), Err(DeserializeError));
    assert_eq!(
        deserialize_marker::<u8>(&JsonValue::String("null".to_owned())),
        Err(DeserializeError)
    );
    assert_eq!(deserialize_marker::<u8>(&JsonValue::Array(vec![])), Err(DeserializeError));
}
