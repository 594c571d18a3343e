//! Builds the schema tree from a document.
//!
//! Parameters, path items and schemas given by reference are resolved
//! through a [`ReferenceDatabase`]. Constructs that cannot be represented
//! (composition keywords, free-form schemas, content-typed parameters) are
//! left out with a diagnostic; a resolution that cannot go on stops the
//! whole build with an [`Interrupt`].

pub mod ast;
pub mod reference_db;

use vstd::prelude::*;
use vstd::string::*;

use crate::document::{
    ArraySchema, Document, IntegerSchema, Named, NamedPathItem, ObjectSchema, OperationObject,
    ParameterFormat, ParameterLocation, ParameterObject, PathItemObject, ReferenceOr, SchemaObject,
    StringSchema,
};
use crate::text::text_eq;
use ast::{OperationModel, PathItemModel, PropertyModel, SchemaModel, TypeModel};
use reference_db::{
    resolve_parameter_spec, resolve_path_item_spec, resolve_schema_spec, Followed, Interrupt,
    InterruptModel, ReferenceDatabase,
};

verus! {

/// The tree built from a document, with the diagnostics of what was left
/// out.
pub struct AstResult {
    pub ast: ast::RootSchema,
    pub errors: Vec<String>,
}

/// The outcome of a building step: a value with the diagnostics raised
/// on the way, or an interrupt.
pub enum Built<T> {
    Done(T, Seq<Seq<char>>),
    Halted(InterruptModel),
}

pub open spec fn texts(v: Seq<String>) -> Seq<Seq<char>> {
    v.map_values(|s: String| s@)
}

/// Where a diagnostic was raised: ` (path: <path>, operation: <id>)`, the
/// operation part only when the operation has an id.
pub open spec fn location_text(path: Seq<char>, id: Option<Seq<char>>) -> Seq<char> {
    " (path: "@ + path + match id {
        Some(i) => ", operation: "@ + i,
        None => Seq::empty(),
    } + ")"@
}

/// The diagnostic of an unsupported construct met in a parameter.
pub open spec fn unsupported_text(target: Seq<char>, param: Seq<char>, location: Seq<char>) -> Seq<char> {
    "`"@ + target + "` is not supported in "@ + param + location
}

/// The diagnostic of an operation without an id.
pub open spec fn missing_id_text(path: Seq<char>) -> Seq<char> {
    "operation_id is not found"@ + location_text(path, None)
}

/// Integer bounds, exclusive ones moved by one: the maximum first.
pub open spec fn integer_validates(i: IntegerSchema) -> Seq<ast::Validate> {
    (match i.maximum {
        Some(m) => seq![ast::Validate::Max((if i.exclusive_maximum { m - 1 } else { m as int }) as i128)],
        None => Seq::empty(),
    }) + (match i.minimum {
        Some(m) => seq![ast::Validate::Min((if i.exclusive_minimum { m + 1 } else { m as int }) as i128)],
        None => Seq::empty(),
    })
}

/// String length bounds: the maximum first.
pub open spec fn string_validates(s: StringSchema) -> Seq<ast::Validate> {
    (match s.max_length {
        Some(m) => seq![ast::Validate::MaxLength(m)],
        None => Seq::empty(),
    }) + (match s.min_length {
        Some(m) => seq![ast::Validate::MinLength(m)],
        None => Seq::empty(),
    })
}

/// Array item count bounds: the maximum first.
pub open spec fn array_validates(a: ArraySchema) -> Seq<ast::Validate> {
    (match a.max_items {
        Some(m) => seq![ast::Validate::MaxItems(m)],
        None => Seq::empty(),
    }) + (match a.min_items {
        Some(m) => seq![ast::Validate::MinItems(m)],
        None => Seq::empty(),
    })
}

/// Whether `name` is among the required names, by exact match.
pub open spec fn is_required_name(required: Seq<String>, name: Seq<char>) -> bool {
    exists|i: int| 0 <= i < required.len() && required[i]@ == name
}

/// How deep references may nest inside one parameter's schema: one more
/// than the schemas they could reach, so that a deeper nesting has
/// expanded some schema inside itself.
pub open spec fn schema_fuel(doc: Document, db: ReferenceDatabase) -> nat {
    doc.components.schemas@.len() + db.schema_by_file@.len() + 1
}

/// The type a schema is built into; `None` where it is unsupported.
pub open spec fn schema_outcome(
    doc: Document,
    db: ReferenceDatabase,
    s: SchemaObject,
    fuel: nat,
    param: Seq<char>,
    location: Seq<char>,
) -> Built<Option<TypeModel>>
    decreases fuel, s,
{
    match s {
        SchemaObject::Integer(i) => Built::Done(
            Some(TypeModel::Integer { validates: integer_validates(i) }),
            Seq::empty(),
        ),
        SchemaObject::Number => Built::Done(
            Some(TypeModel::Number { validates: Seq::empty() }),
            Seq::empty(),
        ),
        SchemaObject::String(st) => Built::Done(
            Some(TypeModel::String { validates: string_validates(st) }),
            Seq::empty(),
        ),
        SchemaObject::Boolean => Built::Done(Some(TypeModel::Boolean), Seq::empty()),
        SchemaObject::Array(a) => match a.items {
            None => Built::Done(
                Some(TypeModel::Array { validates: array_validates(a), item: None }),
                Seq::empty(),
            ),
            Some(r) => match schema_ref_outcome(doc, db, *r, fuel, param, location) {
                Built::Halted(e) => Built::Halted(e),
                Built::Done(item, d) => Built::Done(
                    Some(
                        TypeModel::Array {
                            validates: array_validates(a),
                            item: match item {
                                Some(t) => Some(Box::new(t)),
                                None => None,
                            },
                        },
                    ),
                    d,
                ),
            },
        },
        SchemaObject::Object(o) => match properties_outcome(
            doc,
            db,
            o.properties@,
            o.required@,
            fuel,
            param,
            location,
        ) {
            Built::Halted(e) => Built::Halted(e),
            Built::Done(ps, d) => Built::Done(
                Some(TypeModel::Object { validates: Seq::empty(), properties: ps }),
                d,
            ),
        },
        SchemaObject::AllOf => Built::Done(None, seq![unsupported_text("AllOf"@, param, location)]),
        SchemaObject::OneOf => Built::Done(None, seq![unsupported_text("OneOf"@, param, location)]),
        SchemaObject::AnyOf => Built::Done(None, seq![unsupported_text("AnyOf"@, param, location)]),
        SchemaObject::Not => Built::Done(None, seq![unsupported_text("Not"@, param, location)]),
        SchemaObject::Any => Built::Done(None, seq![unsupported_text("Any"@, param, location)]),
    }
}

/// The type of a schema given inline or by reference. Each reference
/// followed uses one unit of `fuel`.
pub open spec fn schema_ref_outcome(
    doc: Document,
    db: ReferenceDatabase,
    r: ReferenceOr<SchemaObject>,
    fuel: nat,
    param: Seq<char>,
    location: Seq<char>,
) -> Built<Option<TypeModel>>
    decreases fuel, r,
{
    match r {
        ReferenceOr::Item(s) => schema_outcome(doc, db, s, fuel, param, location),
        ReferenceOr::Reference { reference } => if fuel == 0 {
            Built::Halted(InterruptModel::ReferenceCycle(reference@))
        } else {
            match resolve_schema_spec(doc, db, reference@) {
                Followed::Halted(e) => Built::Halted(e),
                Followed::Found(s) => schema_outcome(doc, db, s, (fuel - 1) as nat, param, location),
            }
        },
    }
}

/// The properties of an object, in order, without those whose schema is
/// unsupported.
pub open spec fn properties_outcome(
    doc: Document,
    db: ReferenceDatabase,
    ps: Seq<Named<SchemaObject>>,
    required: Seq<String>,
    fuel: nat,
    param: Seq<char>,
    location: Seq<char>,
) -> Built<Seq<PropertyModel>>
    decreases fuel, ps,
{
    if ps.len() == 0 {
        Built::Done(Seq::empty(), Seq::empty())
    } else {
        match properties_outcome(doc, db, ps.drop_last(), required, fuel, param, location) {
            Built::Halted(e) => Built::Halted(e),
            Built::Done(props, d) => match schema_ref_outcome(
                doc,
                db,
                ps.last().value,
                fuel,
                param,
                location,
            ) {
                Built::Halted(e) => Built::Halted(e),
                Built::Done(None, d2) => Built::Done(props, d + d2),
                Built::Done(Some(t), d2) => Built::Done(
                    props.push(
                        PropertyModel {
                            required: is_required_name(required, ps.last().name@),
                            key: ps.last().name@,
                            value: t,
                        },
                    ),
                    d + d2,
                ),
            },
        }
    }
}

/// The node of a parameter: only query parameters are kept.
pub open spec fn param_outcome(
    doc: Document,
    db: ReferenceDatabase,
    p: ParameterObject,
    location: Seq<char>,
) -> Built<Option<SchemaModel>> {
    if p.location != ParameterLocation::Query {
        Built::Done(None, Seq::empty())
    } else {
        match p.format {
            ParameterFormat::Content => Built::Done(
                None,
                seq![unsupported_text("Content"@, p.name@, location)],
            ),
            ParameterFormat::Schema(r) => match schema_ref_outcome(
                doc,
                db,
                r,
                schema_fuel(doc, db),
                p.name@,
                location,
            ) {
                Built::Halted(e) => Built::Halted(e),
                Built::Done(None, d) => Built::Done(None, d),
                Built::Done(Some(t), d) => Built::Done(
                    Some(SchemaModel { name: p.name@, required: p.required, ty: t }),
                    d,
                ),
            },
        }
    }
}

pub open spec fn param_ref_outcome(
    doc: Document,
    db: ReferenceDatabase,
    r: ReferenceOr<ParameterObject>,
    location: Seq<char>,
) -> Built<Option<SchemaModel>> {
    match r {
        ReferenceOr::Item(p) => param_outcome(doc, db, p, location),
        ReferenceOr::Reference { reference } => match resolve_parameter_spec(doc, db, reference@) {
            Followed::Halted(e) => Built::Halted(e),
            Followed::Found(p) => param_outcome(doc, db, p, location),
        },
    }
}

/// The query parameters of an operation, in order.
pub open spec fn params_outcome(
    doc: Document,
    db: ReferenceDatabase,
    ps: Seq<ReferenceOr<ParameterObject>>,
    location: Seq<char>,
) -> Built<Seq<SchemaModel>>
    decreases ps.len(),
{
    if ps.len() == 0 {
        Built::Done(Seq::empty(), Seq::empty())
    } else {
        match params_outcome(doc, db, ps.drop_last(), location) {
            Built::Halted(e) => Built::Halted(e),
            Built::Done(qs, d) => match param_ref_outcome(doc, db, ps.last(), location) {
                Built::Halted(e) => Built::Halted(e),
                Built::Done(None, d2) => Built::Done(qs, d + d2),
                Built::Done(Some(q), d2) => Built::Done(qs.push(q), d + d2),
            },
        }
    }
}

pub open spec fn id_view(id: Option<String>) -> Option<Seq<char>> {
    match id {
        Some(s) => Some(s@),
        None => None,
    }
}

pub open spec fn operation_outcome(
    doc: Document,
    db: ReferenceDatabase,
    o: OperationObject,
    path: Seq<char>,
) -> Built<OperationModel> {
    let d0 = if o.operation_id is None {
        seq![missing_id_text(path)]
    } else {
        Seq::empty()
    };
    match params_outcome(
        doc,
        db,
        o.parameters@,
        location_text(path, id_view(o.operation_id)),
    ) {
        Built::Halted(e) => Built::Halted(e),
        Built::Done(qs, d) => Built::Done(
            OperationModel { id: id_view(o.operation_id), queries: qs },
            d0 + d,
        ),
    }
}

/// One more verb of a path item: appends its operation, when present.
pub open spec fn verb_step(
    doc: Document,
    db: ReferenceDatabase,
    acc: Built<Seq<OperationModel>>,
    op: Option<OperationObject>,
    path: Seq<char>,
) -> Built<Seq<OperationModel>> {
    match acc {
        Built::Halted(e) => Built::Halted(e),
        Built::Done(os, d) => match op {
            None => Built::Done(os, d),
            Some(o) => match operation_outcome(doc, db, o, path) {
                Built::Halted(e) => Built::Halted(e),
                Built::Done(om, d2) => Built::Done(os.push(om), d + d2),
            },
        },
    }
}

/// The operations of a path item in the verb order get, post, patch, put,
/// delete.
pub open spec fn item_operations_outcome(
    doc: Document,
    db: ReferenceDatabase,
    item: PathItemObject,
    path: Seq<char>,
) -> Built<Seq<OperationModel>> {
    let s0 = Built::Done(Seq::empty(), Seq::empty());
    let s1 = verb_step(doc, db, s0, item.get, path);
    let s2 = verb_step(doc, db, s1, item.post, path);
    let s3 = verb_step(doc, db, s2, item.patch, path);
    let s4 = verb_step(doc, db, s3, item.put, path);
    verb_step(doc, db, s4, item.delete, path)
}

pub open spec fn path_item_outcome(doc: Document, db: ReferenceDatabase, np: NamedPathItem) -> Built<PathItemModel> {
    let resolved = match np.item {
        ReferenceOr::Item(i) => Followed::Found(i),
        ReferenceOr::Reference { reference } => resolve_path_item_spec(db, reference@),
    };
    match resolved {
        Followed::Halted(e) => Built::Halted(e),
        Followed::Found(item) => match item_operations_outcome(doc, db, item, np.path@) {
            Built::Halted(e) => Built::Halted(e),
            Built::Done(os, d) => Built::Done(PathItemModel { url: np.path@, operations: os }, d),
        },
    }
}

/// The path items of a document, in order.
pub open spec fn paths_outcome(doc: Document, db: ReferenceDatabase, ps: Seq<NamedPathItem>) -> Built<Seq<PathItemModel>>
    decreases ps.len(),
{
    if ps.len() == 0 {
        Built::Done(Seq::empty(), Seq::empty())
    } else {
        match paths_outcome(doc, db, ps.drop_last()) {
            Built::Halted(e) => Built::Halted(e),
            Built::Done(items, d) => match path_item_outcome(doc, db, ps.last()) {
                Built::Halted(e) => Built::Halted(e),
                Built::Done(item, d2) => Built::Done(items.push(item), d + d2),
            },
        }
    }
}

/// The tree of a document, given what the database holds.
pub open spec fn build_outcome(doc: Document, db: ReferenceDatabase) -> Built<Seq<PathItemModel>> {
    paths_outcome(doc, db, doc.paths@)
}

/// Whether an outcome is done with value `v`, its diagnostics being what
/// was appended to `before` to give `after`.
pub open spec fn done_as<T>(o: Built<T>, v: T, before: Seq<String>, after: Seq<String>) -> bool {
    match o {
        Built::Done(x, d) => x == v && texts(after) == texts(before) + d,
        Built::Halted(_) => false,
    }
}

pub open spec fn opt_type_model(t: Option<ast::Type>) -> Option<TypeModel> {
    match t {
        Some(x) => Some(x@),
        None => None,
    }
}

pub open spec fn opt_schema_model(q: Option<ast::Schema>) -> Option<SchemaModel> {
    match q {
        Some(x) => Some(x@),
        None => None,
    }
}

/// Builds the schema tree of a document. On success the result is the
/// tree that [`build_outcome`] describes, with its diagnostics in order;
/// otherwise the interrupt that stopped it.
pub fn build(openapi: &Document, db: &ReferenceDatabase) -> (r: Result<AstResult, Interrupt>)
    ensures
        match r {
            Ok(res) => build_outcome(*openapi, *db) == Built::Done(res.ast@, texts(res.errors@)),
            Err(e) => build_outcome(*openapi, *db) == Built::<Seq<PathItemModel>>::Halted(e@),
        },
{
    let builder = AstBuilder::new(openapi, db);
    builder.build()
}

struct AstBuilder<'a> {
    openapi: &'a Document,
    db: &'a ReferenceDatabase,
}

impl<'a> AstBuilder<'a> {
    fn new(openapi: &'a Document, db: &'a ReferenceDatabase) -> (r: Self)
        ensures
            r.openapi == openapi,
            r.db == db,
    {
        AstBuilder { openapi, db }
    }

    fn build(&self) -> (r: Result<AstResult, Interrupt>)
        ensures
            match r {
                Ok(res) => build_outcome(*self.openapi, *self.db) == Built::Done(
                    res.ast@,
                    texts(res.errors@),
                ),
                Err(e) => build_outcome(*self.openapi, *self.db) == Built::<
                    Seq<PathItemModel>,
                >::Halted(e@),
            },
    {
        let mut errors: Vec<String> = Vec::new();
        let path_items = match self.build_paths(&mut errors) {
            Ok(items) => items,
            Err(e) => return Err(e),
        };
        assert(texts(Seq::<String>::empty()) =~= Seq::<Seq<char>>::empty());
        assert(texts(errors@) =~= Seq::<Seq<char>>::empty() + texts(errors@));
        Ok(AstResult { ast: ast::RootSchema { path_items }, errors })
    }

    fn build_paths(&self, errors: &mut Vec<String>) -> (r: Result<Vec<ast::PathItem>, Interrupt>)
        ensures
            match r {
                Ok(items) => done_as(
                    build_outcome(*self.openapi, *self.db),
                    ast::path_items_model(items@),
                    old(errors)@,
                    final(errors)@,
                ),
                Err(e) => build_outcome(*self.openapi, *self.db) == Built::<
                    Seq<PathItemModel>,
                >::Halted(e@),
            },
    {
        let ghost doc = *self.openapi;
        let ghost db = *self.db;
        let ghost start = errors@;
        let paths = &self.openapi.paths;
        let mut items: Vec<ast::PathItem> = Vec::new();
        let mut i: usize = 0;
        assert(texts(errors@) =~= texts(start) + Seq::<Seq<char>>::empty());
        assert(paths@.subrange(0, 0) =~= Seq::<NamedPathItem>::empty());
        assert(ast::path_items_model(items@) =~= Seq::<PathItemModel>::empty());
        while i < paths.len()
            invariant
                i <= paths@.len(),
                paths@ == doc.paths@,
                doc == *self.openapi,
                db == *self.db,
                done_as(
                    paths_outcome(doc, db, paths@.subrange(0, i as int)),
                    ast::path_items_model(items@),
                    start,
                    errors@,
                ),
            decreases paths@.len() - i,
        {
            let np = &paths[i];
            let ghost prefix = paths@.subrange(0, i as int);
            let ghost next = paths@.subrange(0, i + 1);
            assert(next.drop_last() =~= prefix);
            assert(next.last() == *np);
            let ghost model_before = ast::path_items_model(items@);
            let path_item = match self.build_path_item(np, errors) {
                Ok(p) => p,
                Err(e) => {
                    proof {
                        lemma_paths_halted(doc, db, paths@, i + 1);
                        assert(paths@.subrange(0, paths@.len() as int) =~= paths@);
                    }
                    return Err(e);
                },
            };
            items.push(path_item);
            proof {
                assert(ast::path_items_model(items@) =~= model_before.push(path_item@));
                if let Built::Done(_, d) = paths_outcome(doc, db, prefix) {
                    if let Built::Done(_, d2) = path_item_outcome(doc, db, *np) {
                        assert(texts(errors@) =~= texts(start) + (d + d2));
                    }
                }
            }
            i = i + 1;
        }
        assert(paths@.subrange(0, paths@.len() as int) =~= paths@);
        Ok(items)
    }

    fn build_path_item(&self, np: &NamedPathItem, errors: &mut Vec<String>) -> (r: Result<ast::PathItem, Interrupt>)
        ensures
            match r {
                Ok(p) => done_as(path_item_outcome(*self.openapi, *self.db, *np), p@, old(errors)@, final(errors)@),
                Err(e) => path_item_outcome(*self.openapi, *self.db, *np) == Built::<PathItemModel>::Halted(e@),
            },
    {
        let ghost doc = *self.openapi;
        let ghost db = *self.db;
        let item: &PathItemObject = match &np.item {
            ReferenceOr::Item(item) => item,
            ReferenceOr::Reference { reference } => match self.db.resolve_path_item(reference.as_str()) {
                Ok(item) => item,
                Err(e) => return Err(e),
            },
        };
        let ghost before_item = errors@;
        let mut ops: Vec<ast::Operation> = Vec::new();
        let ghost acc0 = Built::<Seq<OperationModel>>::Done(Seq::empty(), Seq::empty());
        assert(ast::operations_model(ops@) =~= Seq::<OperationModel>::empty());
        assert(texts(errors@) =~= texts(before_item) + Seq::<Seq<char>>::empty());
        let path = np.path.as_str();
        let ghost acc1 = verb_step(doc, db, acc0, item.get, path@);
        let ghost acc2 = verb_step(doc, db, acc1, item.post, path@);
        let ghost acc3 = verb_step(doc, db, acc2, item.patch, path@);
        let ghost acc4 = verb_step(doc, db, acc3, item.put, path@);
        let ghost acc5 = verb_step(doc, db, acc4, item.delete, path@);
        assert(item_operations_outcome(doc, db, *item, path@) == acc5);
        match self.push_operation(&item.get, path, &mut ops, errors, Ghost(acc0), Ghost(before_item)) {
            Ok(()) => {},
            Err(e) => return Err(e),
        }
        match self.push_operation(&item.post, path, &mut ops, errors, Ghost(acc1), Ghost(before_item)) {
            Ok(()) => {},
            Err(e) => return Err(e),
        }
        match self.push_operation(&item.patch, path, &mut ops, errors, Ghost(acc2), Ghost(before_item)) {
            Ok(()) => {},
            Err(e) => return Err(e),
        }
        match self.push_operation(&item.put, path, &mut ops, errors, Ghost(acc3), Ghost(before_item)) {
            Ok(()) => {},
            Err(e) => return Err(e),
        }
        match self.push_operation(&item.delete, path, &mut ops, errors, Ghost(acc4), Ghost(before_item)) {
            Ok(()) => {},
            Err(e) => return Err(e),
        }
        Ok(ast::PathItem { url: np.path.clone(), operations: ops })
    }

    fn push_operation(
        &self,
        op: &Option<OperationObject>,
        path: &str,
        ops: &mut Vec<ast::Operation>,
        errors: &mut Vec<String>,
        acc: Ghost<Built<Seq<OperationModel>>>,
        start: Ghost<Seq<String>>,
    ) -> (r: Result<(), Interrupt>)
        requires
            done_as(acc@, ast::operations_model(old(ops)@), start@, old(errors)@),
        ensures
            match r {
                Ok(()) => done_as(
                    verb_step(*self.openapi, *self.db, acc@, *op, path@),
                    ast::operations_model(final(ops)@),
                    start@,
                    final(errors)@,
                ),
                Err(e) => verb_step(*self.openapi, *self.db, acc@, *op, path@) == Built::<
                    Seq<OperationModel>,
                >::Halted(e@),
            },
    {
        match op {
            None => Ok(()),
            Some(o) => {
                let ghost before = errors@;
                let operation = match self.build_operation(o, path, errors) {
                    Ok(x) => x,
                    Err(e) => return Err(e),
                };
                let ghost old_ops = ops@;
                ops.push(operation);
                proof {
                    assert(ast::operations_model(ops@) =~= ast::operations_model(old_ops).push(
                        operation@,
                    ));
                    if let Built::Done(_, d) = acc@ {
                        if let Built::Done(_, d2) = operation_outcome(*self.openapi, *self.db, *o, path@) {
                            assert(texts(errors@) =~= texts(start@) + (d + d2));
                        }
                    }
                }
                Ok(())
            },
        }
    }

    fn build_operation(&self, operation: &OperationObject, path: &str, errors: &mut Vec<String>) -> (r: Result<ast::Operation, Interrupt>)
        ensures
            match r {
                Ok(o) => done_as(
                    operation_outcome(*self.openapi, *self.db, *operation, path@),
                    o@,
                    old(errors)@,
                    final(errors)@,
                ),
                Err(e) => operation_outcome(*self.openapi, *self.db, *operation, path@) == Built::<
                    OperationModel,
                >::Halted(e@),
            },
    {
        let ghost doc = *self.openapi;
        let ghost db = *self.db;
        let ghost start = errors@;
        let ope_id = match &operation.operation_id {
            Some(id) => Some(id.clone()),
            None => {
                self.add_error(errors, missing_id_message(path));
                None
            },
        };
        let ghost d0 = if operation.operation_id is None {
            seq![missing_id_text(path@)]
        } else {
            Seq::<Seq<char>>::empty()
        };
        assert(texts(errors@) =~= texts(start) + d0);
        let ghost after_id = errors@;
        let location = location_message(path, &operation.operation_id);
        let params = &operation.parameters;
        let mut queries: Vec<ast::Schema> = Vec::new();
        let mut i: usize = 0;
        assert(ast::schemas_model(queries@) =~= Seq::<SchemaModel>::empty());
        assert(texts(errors@) =~= texts(after_id) + Seq::<Seq<char>>::empty());
        while i < params.len()
            invariant
                i <= params@.len(),
                params@ == operation.parameters@,
                doc == *self.openapi,
                db == *self.db,
                location@ == location_text(path@, id_view(operation.operation_id)),
                done_as(
                    params_outcome(doc, db, params@.subrange(0, i as int), location@),
                    ast::schemas_model(queries@),
                    after_id,
                    errors@,
                ),
            decreases params@.len() - i,
        {
            let ghost prefix = params@.subrange(0, i as int);
            let ghost next = params@.subrange(0, i + 1);
            assert(next.drop_last() =~= prefix);
            let ghost before = errors@;
            let ghost qmodel = ast::schemas_model(queries@);
            let built = match self.build_param_ref(&params[i], location.as_str(), errors) {
                Ok(b) => b,
                Err(e) => {
                    proof {
                        lemma_params_halted(doc, db, params@, location@, i + 1);
                        assert(params@.subrange(0, params@.len() as int) =~= params@);
                    }
                    return Err(e);
                },
            };
            let ghost old_queries = queries@;
            match built {
                Some(q) => {
                    queries.push(q);
                    assert(ast::schemas_model(queries@) =~= qmodel.push(q@));
                },
                None => {},
            }
            proof {
                if let Built::Done(_, d) = params_outcome(doc, db, prefix, location@) {
                    if let Built::Done(_, d2) = param_ref_outcome(doc, db, params@[i as int], location@) {
                        assert(texts(errors@) =~= texts(after_id) + (d + d2));
                    }
                }
            }
            i = i + 1;
        }
        assert(params@.subrange(0, params@.len() as int) =~= params@);
        let r = ast::Operation { id: ope_id, queries };
        proof {
            if let Built::Done(_, d) = params_outcome(doc, db, params@, location@) {
                assert(texts(errors@) =~= texts(start) + (d0 + d));
            }
        }
        Ok(r)
    }

    fn build_param_ref(&self, param: &ReferenceOr<ParameterObject>, location: &str, errors: &mut Vec<String>) -> (r: Result<Option<ast::Schema>, Interrupt>)
        ensures
            match r {
                Ok(q) => done_as(
                    param_ref_outcome(*self.openapi, *self.db, *param, location@),
                    opt_schema_model(q),
                    old(errors)@,
                    final(errors)@,
                ),
                Err(e) => param_ref_outcome(*self.openapi, *self.db, *param, location@)
                    == Built::<Option<SchemaModel>>::Halted(e@),
            },
    {
        match param {
            ReferenceOr::Item(p) => self.build_param(p, location, errors),
            ReferenceOr::Reference { reference } => match self.db.resolve_parameter(
                self.openapi,
                reference.as_str(),
            ) {
                Ok(p) => self.build_param(p, location, errors),
                Err(e) => Err(e),
            },
        }
    }

    fn build_param(&self, param: &ParameterObject, location: &str, errors: &mut Vec<String>) -> (r: Result<Option<ast::Schema>, Interrupt>)
        ensures
            match r {
                Ok(q) => done_as(
                    param_outcome(*self.openapi, *self.db, *param, location@),
                    opt_schema_model(q),
                    old(errors)@,
                    final(errors)@,
                ),
                Err(e) => param_outcome(*self.openapi, *self.db, *param, location@) == Built::<
                    Option<SchemaModel>,
                >::Halted(e@),
            },
    {
        match param.location {
            ParameterLocation::Query => {},
            _ => {
                assert(texts(errors@) =~= texts(errors@) + Seq::<Seq<char>>::empty());
                return Ok(None);
            },
        }
        match &param.format {
            ParameterFormat::Content => {
                self.add_unsupported_error_by_param(errors, "Content", param.name.as_str(), location);
                Ok(None)
            },
            ParameterFormat::Schema(schema) => {
                let fuel = self.openapi.components.schemas.len() as u128
                    + self.db.schema_by_file.len() as u128 + 1;
                match self.build_schema_ref(schema, fuel, param.name.as_str(), location, errors) {
                    Err(e) => Err(e),
                    Ok(None) => Ok(None),
                    Ok(Some(ty)) => Ok(
                        Some(ast::Schema { ty, required: param.required, name: param.name.clone() }),
                    ),
                }
            },
        }
    }

    fn build_schema_ref(
        &self,
        schema: &ReferenceOr<SchemaObject>,
        fuel: u128,
        param: &str,
        location: &str,
        errors: &mut Vec<String>,
    ) -> (r: Result<Option<ast::Type>, Interrupt>)
        ensures
            match r {
                Ok(t) => done_as(
                    schema_ref_outcome(*self.openapi, *self.db, *schema, fuel as nat, param@, location@),
                    opt_type_model(t),
                    old(errors)@,
                    final(errors)@,
                ),
                Err(e) => schema_ref_outcome(*self.openapi, *self.db, *schema, fuel as nat, param@, location@)
                    == Built::<Option<TypeModel>>::Halted(e@),
            },
        decreases fuel, schema,
    {
        match schema {
            ReferenceOr::Item(s) => self.build_schema(s, fuel, param, location, errors),
            ReferenceOr::Reference { reference } => {
                if fuel == 0 {
                    return Err(Interrupt::ReferenceCycle { reference: reference.clone() });
                }
                match self.db.resolve_schema(self.openapi, reference.as_str()) {
                    Ok(s) => self.build_schema(s, fuel - 1, param, location, errors),
                    Err(e) => Err(e),
                }
            },
        }
    }

    fn build_schema(
        &self,
        schema: &SchemaObject,
        fuel: u128,
        param: &str,
        location: &str,
        errors: &mut Vec<String>,
    ) -> (r: Result<Option<ast::Type>, Interrupt>)
        ensures
            match r {
                Ok(t) => done_as(
                    schema_outcome(*self.openapi, *self.db, *schema, fuel as nat, param@, location@),
                    opt_type_model(t),
                    old(errors)@,
                    final(errors)@,
                ),
                Err(e) => schema_outcome(*self.openapi, *self.db, *schema, fuel as nat, param@, location@)
                    == Built::<Option<TypeModel>>::Halted(e@),
            },
        decreases fuel, schema,
    {
        assert(texts(errors@) =~= texts(errors@) + Seq::<Seq<char>>::empty());
        match schema {
            SchemaObject::Integer(integer) => Ok(
                Some(ast::Type::Integer { validates: build_integer_validates(integer) }),
            ),
            SchemaObject::Number => Ok(Some(ast::Type::Number { validates: Vec::new() })),
            SchemaObject::String(string) => Ok(
                Some(ast::Type::String { validates: build_string_validates(string) }),
            ),
            SchemaObject::Boolean => Ok(Some(ast::Type::Boolean)),
            SchemaObject::Array(array) => {
                let item_ty = match &array.items {
                    None => None,
                    Some(item) => match self.build_schema_ref(&**item, fuel, param, location, errors) {
                        Ok(t) => t,
                        Err(e) => return Err(e),
                    },
                };
                let validates = build_array_validates(array);
                Ok(
                    Some(
                        ast::Type::Array {
                            validates,
                            item_ty: match item_ty {
                                Some(t) => Some(Box::new(t)),
                                None => None,
                            },
                        },
                    ),
                )
            },
            SchemaObject::Object(object) => {
                let properties = match self.build_properties(object, fuel, param, location, errors) {
                    Ok(ps) => ps,
                    Err(e) => return Err(e),
                };
                Ok(Some(ast::Type::Object { validates: Vec::new(), properties }))
            },
            SchemaObject::AllOf => {
                self.add_unsupported_error_by_param(errors, "AllOf", param, location);
                Ok(None)
            },
            SchemaObject::OneOf => {
                self.add_unsupported_error_by_param(errors, "OneOf", param, location);
                Ok(None)
            },
            SchemaObject::AnyOf => {
                self.add_unsupported_error_by_param(errors, "AnyOf", param, location);
                Ok(None)
            },
            SchemaObject::Not => {
                self.add_unsupported_error_by_param(errors, "Not", param, location);
                Ok(None)
            },
            SchemaObject::Any => {
                self.add_unsupported_error_by_param(errors, "Any", param, location);
                Ok(None)
            },
        }
    }

    fn build_properties(
        &self,
        object: &ObjectSchema,
        fuel: u128,
        param: &str,
        location: &str,
        errors: &mut Vec<String>,
    ) -> (r: Result<Vec<ast::Property>, Interrupt>)
        ensures
            match r {
                Ok(ps) => done_as(
                    properties_outcome(
                        *self.openapi,
                        *self.db,
                        object.properties@,
                        object.required@,
                        fuel as nat,
                        param@,
                        location@,
                    ),
                    ast::properties_model(ps@),
                    old(errors)@,
                    final(errors)@,
                ),
                Err(e) => properties_outcome(
                    *self.openapi,
                    *self.db,
                    object.properties@,
                    object.required@,
                    fuel as nat,
                    param@,
                    location@,
                ) == Built::<Seq<PropertyModel>>::Halted(e@),
            },
        decreases fuel, object,
    {
        let ghost doc = *self.openapi;
        let ghost db = *self.db;
        let ghost start = errors@;
        let props = &object.properties;
        let mut properties: Vec<ast::Property> = Vec::new();
        let mut i: usize = 0;
        assert(texts(errors@) =~= texts(start) + Seq::<Seq<char>>::empty());
        while i < props.len()
            invariant
                i <= props@.len(),
                props@ == object.properties@,
                doc == *self.openapi,
                db == *self.db,
                done_as(
                    properties_outcome(
                        doc,
                        db,
                        props@.subrange(0, i as int),
                        object.required@,
                        fuel as nat,
                        param@,
                        location@,
                    ),
                    ast::properties_model(properties@),
                    start,
                    errors@,
                ),
            decreases props@.len() - i,
        {
            let ghost prefix = props@.subrange(0, i as int);
            let ghost next = props@.subrange(0, i + 1);
            assert(next.drop_last() =~= prefix);
            let property = &props[i];
            assert(next.last() == *property);
            let built = match self.build_schema_ref(&property.value, fuel, param, location, errors) {
                Ok(b) => b,
                Err(e) => {
                    proof {
                        lemma_properties_halted(
                            doc,
                            db,
                            props@,
                            object.required@,
                            fuel as nat,
                            param@,
                            location@,
                            i + 1,
                        );
                        assert(props@.subrange(0, props@.len() as int) =~= props@);
                    }
                    return Err(e);
                },
            };
            let ghost old_properties = properties@;
            match built {
                Some(value) => {
                    let required = is_required(&object.required, property.name.as_str());
                    let p = ast::Property { required, key: property.name.clone(), value };
                    properties.push(p);
                    assert(properties@.drop_last() =~= old_properties);
                    assert(ast::properties_model(properties@) == ast::properties_model(old_properties).push(
                        ast::property_model(p),
                    ));
                },
                None => {},
            }
            proof {
                if let Built::Done(_, d) = properties_outcome(
                    doc,
                    db,
                    prefix,
                    object.required@,
                    fuel as nat,
                    param@,
                    location@,
                ) {
                    if let Built::Done(_, d2) = schema_ref_outcome(
                        doc,
                        db,
                        property.value,
                        fuel as nat,
                        param@,
                        location@,
                    ) {
                        assert(texts(errors@) =~= texts(start) + (d + d2));
                    }
                }
            }
            i = i + 1;
        }
        assert(props@.subrange(0, props@.len() as int) =~= props@);
        Ok(properties)
    }

    fn add_unsupported_error_by_param(&self, errors: &mut Vec<String>, target: &str, param: &str, location: &str)
        ensures
            texts(final(errors)@) == texts(old(errors)@) + seq![unsupported_text(target@, param@, location@)],
    {
        let mut message = String::from_str("`");
        message.append(target);
        message.append("` is not supported in ");
        message.append(param);
        message.append(location);
        self.add_error(errors, message);
    }

    fn add_error(&self, errors: &mut Vec<String>, message: String)
        ensures
            texts(final(errors)@) == texts(old(errors)@) + seq![message@],
    {
        errors.push(message);
        assert(texts(errors@) =~= texts(old(errors)@) + seq![message@]);
    }
}

fn location_message(path: &str, id: &Option<String>) -> (r: String)
    ensures
        r@ == location_text(path@, id_view(*id)),
{
    let mut out = String::from_str(" (path: ");
    out.append(path);
    match id {
        Some(i) => {
            out.append(", operation: ");
            out.append(i.as_str());
        },
        None => {
            assert(out@ =~= out@ + Seq::<char>::empty());
        },
    }
    out.append(")");
    out
}

fn missing_id_message(path: &str) -> (r: String)
    ensures
        r@ == missing_id_text(path@),
{
    let location = location_message(path, &None);
    String::from_str("operation_id is not found").concat(location.as_str())
}

fn is_required(required: &Vec<String>, name: &str) -> (r: bool)
    ensures
        r == is_required_name(required@, name@),
{
    let mut i: usize = 0;
    while i < required.len()
        invariant
            i <= required@.len(),
            forall|j: int| 0 <= j < i ==> required@[j]@ != name@,
        decreases required@.len() - i,
    {
        if text_eq(required[i].as_str(), name) {
            return true;
        }
        i = i + 1;
    }
    false
}

fn build_integer_validates(integer: &IntegerSchema) -> (r: Vec<ast::Validate>)
    ensures
        r@ == integer_validates(*integer),
{
    let mut validates: Vec<ast::Validate> = Vec::new();
    if let Some(max) = integer.maximum {
        let max: i128 = if integer.exclusive_maximum {
            max as i128 - 1
        } else {
            max as i128
        };
        validates.push(ast::Validate::Max(max));
    }
    if let Some(min) = integer.minimum {
        let min: i128 = if integer.exclusive_minimum {
            min as i128 + 1
        } else {
            min as i128
        };
        validates.push(ast::Validate::Min(min));
    }
    assert(validates@ =~= integer_validates(*integer));
    validates
}

fn build_string_validates(string: &StringSchema) -> (r: Vec<ast::Validate>)
    ensures
        r@ == string_validates(*string),
{
    let mut validates: Vec<ast::Validate> = Vec::new();
    if let Some(max) = string.max_length {
        validates.push(ast::Validate::MaxLength(max));
    }
    if let Some(min) = string.min_length {
        validates.push(ast::Validate::MinLength(min));
    }
    assert(validates@ =~= string_validates(*string));
    validates
}

fn build_array_validates(array: &ArraySchema) -> (r: Vec<ast::Validate>)
    ensures
        r@ == array_validates(*array),
{
    let mut validates: Vec<ast::Validate> = Vec::new();
    if let Some(max) = array.max_items {
        validates.push(ast::Validate::MaxItems(max));
    }
    if let Some(min) = array.min_items {
        validates.push(ast::Validate::MinItems(min));
    }
    assert(validates@ =~= array_validates(*array));
    validates
}

proof fn lemma_properties_halted(
    doc: Document,
    db: ReferenceDatabase,
    ps: Seq<Named<SchemaObject>>,
    required: Seq<String>,
    fuel: nat,
    param: Seq<char>,
    location: Seq<char>,
    k: int,
)
    requires
        0 <= k <= ps.len(),
        properties_outcome(doc, db, ps.subrange(0, k), required, fuel, param, location) is Halted,
    ensures
        properties_outcome(doc, db, ps, required, fuel, param, location) == properties_outcome(
            doc,
            db,
            ps.subrange(0, k),
            required,
            fuel,
            param,
            location,
        ),
    decreases ps.len() - k,
{
    if k < ps.len() {
        assert(ps.subrange(0, k + 1).drop_last() =~= ps.subrange(0, k));
        lemma_properties_halted(doc, db, ps, required, fuel, param, location, k + 1);
    } else {
        assert(ps.subrange(0, k) =~= ps);
    }
}

proof fn lemma_params_halted(
    doc: Document,
    db: ReferenceDatabase,
    ps: Seq<ReferenceOr<ParameterObject>>,
    location: Seq<char>,
    k: int,
)
    requires
        0 <= k <= ps.len(),
        params_outcome(doc, db, ps.subrange(0, k), location) is Halted,
    ensures
        params_outcome(doc, db, ps, location) == params_outcome(doc, db, ps.subrange(0, k), location),
    decreases ps.len() - k,
{
    if k < ps.len() {
        assert(ps.subrange(0, k + 1).drop_last() =~= ps.subrange(0, k));
        lemma_params_halted(doc, db, ps, location, k + 1);
    } else {
        assert(ps.subrange(0, k) =~= ps);
    }
}

proof fn lemma_paths_halted(doc: Document, db: ReferenceDatabase, ps: Seq<NamedPathItem>, k: int)
    requires
        0 <= k <= ps.len(),
        paths_outcome(doc, db, ps.subrange(0, k)) is Halted,
    ensures
        paths_outcome(doc, db, ps) == paths_outcome(doc, db, ps.subrange(0, k)),
    decreases ps.len() - k,
{
    if k < ps.len() {
        assert(ps.subrange(0, k + 1).drop_last() =~= ps.subrange(0, k));
        lemma_paths_halted(doc, db, ps, k + 1);
    } else {
        assert(ps.subrange(0, k) =~= ps);
    }
}

} // verus!
