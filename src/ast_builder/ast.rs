//! The schema tree: query parameters and the shapes of their values, with
//! validation constraints already normalized (no exclusivity flags).

use vstd::prelude::*;

verus! {

/// The tree built from one document: its path items in document order.
pub struct RootSchema {
    pub path_items: Vec<PathItem>,
}

/// One path of the document with its operations, in the verb order
/// get, post, patch, put, delete.
pub struct PathItem {
    pub url: String,
    pub operations: Vec<Operation>,
}

/// One operation: its id, when the document gives one, and its query
/// parameters.
pub struct Operation {
    pub id: Option<String>,
    pub queries: Vec<Schema>,
}

/// One query parameter.
pub struct Schema {
    pub ty: Type,
    pub required: bool,
    pub name: String,
}

/// A validation constraint. Numeric bounds are inclusive: an exclusive bound
/// of the document has already been moved by one.
#[derive(Clone, Copy, PartialEq, Eq, Structural, Debug)]
pub enum Validate {
    Max(i128),
    Min(i128),
    MaxLength(usize),
    MinLength(usize),
    MaxItems(usize),
    MinItems(usize),
}

/// The shape of a value. Bounds of `number` values are floating point and
/// are not carried.
pub enum Type {
    Integer { validates: Vec<Validate> },
    Number { validates: Vec<Validate> },
    String { validates: Vec<Validate> },
    Boolean,
    Array { validates: Vec<Validate>, item_ty: Option<Box<Type>> },
    Object { validates: Vec<Validate>, properties: Vec<Property> },
}

/// One property of an object, in declaration order.
pub struct Property {
    pub required: bool,
    pub key: String,
    pub value: Type,
}

/// The mathematical value of a [`Type`].
pub enum TypeModel {
    Integer { validates: Seq<Validate> },
    Number { validates: Seq<Validate> },
    String { validates: Seq<Validate> },
    Boolean,
    Array { validates: Seq<Validate>, item: Option<Box<TypeModel>> },
    Object { validates: Seq<Validate>, properties: Seq<PropertyModel> },
}

/// The mathematical value of a [`Property`].
pub struct PropertyModel {
    pub required: bool,
    pub key: Seq<char>,
    pub value: TypeModel,
}

/// The mathematical value of a [`Schema`].
pub struct SchemaModel {
    pub name: Seq<char>,
    pub required: bool,
    pub ty: TypeModel,
}

/// The mathematical value of an [`Operation`].
pub struct OperationModel {
    pub id: Option<Seq<char>>,
    pub queries: Seq<SchemaModel>,
}

/// The mathematical value of a [`PathItem`].
pub struct PathItemModel {
    pub url: Seq<char>,
    pub operations: Seq<OperationModel>,
}

pub open spec fn type_model(t: Type) -> TypeModel
    decreases t,
{
    match t {
        Type::Integer { validates } => TypeModel::Integer { validates: validates@ },
        Type::Number { validates } => TypeModel::Number { validates: validates@ },
        Type::String { validates } => TypeModel::String { validates: validates@ },
        Type::Boolean => TypeModel::Boolean,
        Type::Array { validates, item_ty } => TypeModel::Array {
            validates: validates@,
            item: match item_ty {
                Some(b) => Some(Box::new(type_model(*b))),
                None => None,
            },
        },
        Type::Object { validates, properties } => TypeModel::Object {
            validates: validates@,
            properties: properties_model(properties@),
        },
    }
}

pub open spec fn property_model(p: Property) -> PropertyModel
    decreases p,
{
    PropertyModel { required: p.required, key: p.key@, value: type_model(p.value) }
}

pub open spec fn properties_model(ps: Seq<Property>) -> Seq<PropertyModel>
    decreases ps,
{
    if ps.len() == 0 {
        Seq::empty()
    } else {
        properties_model(ps.drop_last()).push(property_model(ps.last()))
    }
}

pub open spec fn schemas_model(qs: Seq<Schema>) -> Seq<SchemaModel> {
    qs.map_values(|q: Schema| SchemaModel { name: q.name@, required: q.required, ty: q.ty@ })
}

pub open spec fn operations_model(os: Seq<Operation>) -> Seq<OperationModel> {
    os.map_values(|o: Operation| o@)
}

pub open spec fn path_items_model(ps: Seq<PathItem>) -> Seq<PathItemModel> {
    ps.map_values(|p: PathItem| p@)
}

impl View for Type {
    type V = TypeModel;

    open spec fn view(&self) -> TypeModel {
        type_model(*self)
    }
}

impl View for Property {
    type V = PropertyModel;

    open spec fn view(&self) -> PropertyModel {
        property_model(*self)
    }
}

impl View for Schema {
    type V = SchemaModel;

    open spec fn view(&self) -> SchemaModel {
        SchemaModel { name: self.name@, required: self.required, ty: self.ty@ }
    }
}

impl View for Operation {
    type V = OperationModel;

    open spec fn view(&self) -> OperationModel {
        OperationModel {
            id: match self.id {
                Some(s) => Some(s@),
                None => None,
            },
            queries: schemas_model(self.queries@),
        }
    }
}

impl View for PathItem {
    type V = PathItemModel;

    open spec fn view(&self) -> PathItemModel {
        PathItemModel { url: self.url@, operations: operations_model(self.operations@) }
    }
}

impl View for RootSchema {
    type V = Seq<PathItemModel>;

    open spec fn view(&self) -> Seq<PathItemModel> {
        path_items_model(self.path_items@)
    }
}

} // verus!
