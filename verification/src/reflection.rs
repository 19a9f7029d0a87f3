//! What a type looks like to whoever reads values of it: the schema that the
//! type reflects, and how a marker that holds no value is read.

use crate::wire::JsonValue;
use core::marker::PhantomData;
use core::mem::ManuallyDrop;
use vstd::prelude::*;

verus! {

/// The schema of a type: the name of the kind of value that it is read
/// from.
#[derive(Debug, PartialEq, Eq)]
pub struct Schema {
    ty: String,
}

impl View for Schema {
    type V = Seq<char>;

    closed spec fn view(&self) -> Seq<char> {
        self.ty@
    }
}

impl Schema {
    /// The schema of the values of the kind `ty`.
    pub fn new(ty: &str) -> (schema: Schema)
        ensures
            schema@ == ty@,
    {
        Schema { ty: ty.to_owned() }
    }

    /// The name of the kind of value.
    pub fn ty(&self) -> (ty: &str)
        ensures
            ty@ == self@,
    {
        self.ty.as_str()
    }
}

/// The schemas that have been collected for a document.
#[derive(Debug, PartialEq, Eq)]
pub struct Document {
    pub schemas: Vec<Schema>,
}

/// A type that can say which schema it reflects.
pub trait Reflection {
    /// The name of the kind of value that the type is read from.
    spec fn reflected() -> Seq<char>;

    /// The schema of the type. Schemas that it refers to may be entered
    /// into the document.
    fn schema(document: &mut Document) -> (schema: Schema)
        ensures
            schema@ == Self::reflected(),
    ;
}

/// The reflection of a marker that holds no value: it is read from `null`
/// and refers to no other schema.
pub struct PhantomDataReflection;

impl Reflection for PhantomDataReflection {
    open spec fn reflected() -> Seq<char> {
        "null"@
    }

    fn schema(document: &mut Document) -> (schema: Schema)
        ensures
            *final(document) == *old(document),
    {
        Schema::new("null")
    }
}

/// What is kept from being dropped reflects what it holds.
impl<T: Reflection> Reflection for ManuallyDrop<T> {
    open spec fn reflected() -> Seq<char> {
        T::reflected()
    }

    fn schema(document: &mut Document) -> (schema: Schema) {
        T::schema(document)
    }
}

/// A value was met where none of its kind is expected.
#[derive(Clone, Copy, Debug, PartialEq, Eq, Structural)]
pub struct VisitorError;

/// A value could not be read as the type asked for.
#[derive(Clone, Copy, Debug, PartialEq, Eq, Structural)]
pub struct DeserializeError;

/// Reads a marker that holds no value: it accepts the absence of a value and
/// `null`, and makes the marker of either.
pub struct PhantomDataVisitor<T>(pub PhantomData<T>);

impl<T> PhantomDataVisitor<T> {
    /// The schema of what the visitor expects to meet.
    pub fn expecting(&self) -> (schema: Schema)
        ensures
            schema@ == PhantomDataReflection::reflected(),
    {
        Schema::new("null")
    }

    /// Meets the absence of a value.
    pub fn visit_none(self) -> (outcome: Result<PhantomData<T>, VisitorError>)
        ensures
            outcome is Ok,
    {
        Ok(PhantomData)
    }

    /// Meets `null`.
    pub fn visit_null(self) -> (outcome: Result<PhantomData<T>, VisitorError>)
        ensures
            outcome is Ok,
    {
        Ok(PhantomData)
    }
}

/// Reads a marker that holds no value: from `null`, and from nothing else.
pub fn deserialize_marker<T>(value: &JsonValue) -> (outcome: Result<
    PhantomData<T>,
    DeserializeError,
>)
    ensures
        value@ is Null <==> outcome is Ok,
        !(value@ is Null) ==> outcome == Err::<PhantomData<T>, DeserializeError>(DeserializeError),
{
    match value {
        JsonValue::Null => match PhantomDataVisitor::<T>(PhantomData).visit_null() {
            Ok(marker) => Ok(marker),
            Err(_) => Err(DeserializeError),
        },
        _ => Err(DeserializeError),
    }
}

} // verus!
