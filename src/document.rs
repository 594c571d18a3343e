//! The parts of an API document that schema generation reads, as plain
//! values: paths, operations, parameters, schemas and components, any of
//! which may stand behind a reference.

use vstd::prelude::*;

verus! {

/// A fragment given inline or by a reference token.
pub enum ReferenceOr<T> {
    Reference { reference: String },
    Item(T),
}

/// A fragment under a name: a component, or a property of an object.
pub struct Named<T> {
    pub name: String,
    pub value: ReferenceOr<T>,
}

/// One entry of the document's `paths`.
pub struct NamedPathItem {
    pub path: String,
    pub item: ReferenceOr<PathItemObject>,
}

/// A whole document.
pub struct Document {
    pub paths: Vec<NamedPathItem>,
    pub components: Components,
}

/// The reusable fragments of a document.
pub struct Components {
    pub parameters: Vec<Named<ParameterObject>>,
    pub schemas: Vec<Named<SchemaObject>>,
}

/// The operations of one path, by verb.
pub struct PathItemObject {
    pub get: Option<OperationObject>,
    pub post: Option<OperationObject>,
    pub patch: Option<OperationObject>,
    pub put: Option<OperationObject>,
    pub delete: Option<OperationObject>,
}

pub struct OperationObject {
    pub operation_id: Option<String>,
    pub parameters: Vec<ReferenceOr<ParameterObject>>,
}

/// Where a parameter is carried.
#[derive(Clone, Copy, PartialEq, Eq, Structural, Debug)]
pub enum ParameterLocation {
    Query,
    Header,
    Path,
    Cookie,
}

pub struct ParameterObject {
    pub location: ParameterLocation,
    pub name: String,
    pub required: bool,
    pub format: ParameterFormat,
}

/// A parameter's value is described by one schema or by a map of media
/// types.
pub enum ParameterFormat {
    Schema(ReferenceOr<SchemaObject>),
    Content,
}

/// A schema. The composition keywords and the free-form schema are kept as
/// bare markers: they are rejected, not converted.
pub enum SchemaObject {
    Integer(IntegerSchema),
    Number,
    String(StringSchema),
    Boolean,
    Array(ArraySchema),
    Object(ObjectSchema),
    AllOf,
    OneOf,
    AnyOf,
    Not,
    Any,
}

#[derive(Clone, Copy, PartialEq, Eq, Structural, Debug)]
pub struct IntegerSchema {
    pub minimum: Option<i64>,
    pub maximum: Option<i64>,
    pub exclusive_minimum: bool,
    pub exclusive_maximum: bool,
}

#[derive(Clone, Copy, PartialEq, Eq, Structural, Debug)]
pub struct StringSchema {
    pub min_length: Option<usize>,
    pub max_length: Option<usize>,
}

pub struct ArraySchema {
    pub min_items: Option<usize>,
    pub max_items: Option<usize>,
    pub items: Option<Box<ReferenceOr<SchemaObject>>>,
}

/// An object schema: its properties in declaration order and the names of
/// the required ones.
pub struct ObjectSchema {
    pub properties: Vec<Named<SchemaObject>>,
    pub required: Vec<String>,
}

} // verus!
