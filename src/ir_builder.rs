//! Normalizes the schema tree into statements and blocks.

pub mod ir;

use vstd::prelude::*;

use crate::ast_builder::ast;
use crate::ast_builder::ast::{OperationModel, PathItemModel, PropertyModel, SchemaModel, TypeModel};
use ir::{DefModel, MacroModel, NestedModel, StmtModel};

verus! {

/// The definitions built from a schema tree.
pub struct IrResult {
    pub ir: ir::Defs,
}

/// The output vocabulary of a tree constraint: lengths and item counts
/// both become sizes.
pub open spec fn ir_validate(v: ast::Validate) -> ir::Validate {
    match v {
        ast::Validate::Max(n) => ir::Validate::Max(n),
        ast::Validate::Min(n) => ir::Validate::Min(n),
        ast::Validate::MaxLength(n) => ir::Validate::MaxSize(n),
        ast::Validate::MinLength(n) => ir::Validate::MinSize(n),
        ast::Validate::MaxItems(n) => ir::Validate::MaxSize(n),
        ast::Validate::MinItems(n) => ir::Validate::MinSize(n),
    }
}

/// Position of a constraint in the canonical order: minimum-style keys
/// first, then maximum-style keys.
pub open spec fn rank(v: ir::Validate) -> nat {
    match v {
        ir::Validate::Min(_) => 0,
        ir::Validate::MinSize(_) => 1,
        ir::Validate::Max(_) => 2,
        ir::Validate::MaxSize(_) => 3,
    }
}

/// Whether a constraint is a lower bound.
pub open spec fn is_min_style(v: ir::Validate) -> bool {
    rank(v) < 2
}

/// The converted constraints of rank `r`, in their original order.
pub open spec fn of_rank(vs: Seq<ast::Validate>, r: nat) -> Seq<ir::Validate>
    decreases vs.len(),
{
    if vs.len() == 0 {
        Seq::empty()
    } else {
        let rest = of_rank(vs.drop_last(), r);
        let v = ir_validate(vs.last());
        if rank(v) == r {
            rest.push(v)
        } else {
            rest
        }
    }
}

/// The constraints of a node in canonical order: a stable sort by rank.
pub open spec fn canonical_validates(vs: Seq<ast::Validate>) -> Seq<ir::Validate> {
    of_rank(vs, 0) + of_rank(vs, 1) + of_rank(vs, 2) + of_rank(vs, 3)
}

/// The macro of a parameter or property of the given type.
pub open spec fn value_macro(t: TypeModel) -> MacroModel
    decreases t, 0nat,
{
    match t {
        TypeModel::Integer { validates } => MacroModel::Value {
            ty: ir::Type::Integer,
            validates: canonical_validates(validates),
            nested: None,
        },
        TypeModel::Number { validates } => MacroModel::Value {
            ty: ir::Type::Float,
            validates: canonical_validates(validates),
            nested: None,
        },
        TypeModel::String { validates } => MacroModel::Value {
            ty: ir::Type::String,
            validates: canonical_validates(validates),
            nested: None,
        },
        TypeModel::Boolean => MacroModel::Value {
            ty: ir::Type::Boolean,
            validates: Seq::empty(),
            nested: None,
        },
        TypeModel::Array { validates, item } => MacroModel::Value {
            ty: ir::Type::Array,
            validates: canonical_validates(validates),
            nested: match item {
                Some(i) => Some(Box::new(NestedModel::Macro(each_macro(*i)))),
                None => None,
            },
        },
        TypeModel::Object { validates, properties } => MacroModel::Value {
            ty: ir::Type::Hash,
            validates: canonical_validates(validates),
            nested: if properties.len() == 0 {
                None
            } else {
                Some(Box::new(NestedModel::Block(property_stmts(properties))))
            },
        },
    }
}

/// The macro of an array item of the given type.
pub open spec fn each_macro(t: TypeModel) -> MacroModel
    decreases t, 0nat,
{
    match t {
        TypeModel::Integer { validates } => MacroModel::Each {
            ty: ir::Type::Integer,
            validates: canonical_validates(validates),
            block: None,
        },
        TypeModel::Number { validates } => MacroModel::Each {
            ty: ir::Type::Float,
            validates: canonical_validates(validates),
            block: None,
        },
        TypeModel::String { validates } => MacroModel::Each {
            ty: ir::Type::String,
            validates: canonical_validates(validates),
            block: None,
        },
        TypeModel::Boolean => MacroModel::Each {
            ty: ir::Type::Boolean,
            validates: Seq::empty(),
            block: None,
        },
        TypeModel::Array { validates, item } => MacroModel::Each {
            ty: ir::Type::Array,
            validates: canonical_validates(validates),
            block: match item {
                Some(i) => Some(
                    seq![StmtModel::Schema { ty: ir::Type::Array, call: each_macro(*i) }],
                ),
                None => None,
            },
        },
        TypeModel::Object { validates, properties } => MacroModel::Each {
            ty: ir::Type::Hash,
            validates: canonical_validates(validates),
            block: if properties.len() == 0 {
                None
            } else {
                Some(property_stmts(properties))
            },
        },
    }
}

/// The statement of one parameter or property.
pub open spec fn property_stmt(name: Seq<char>, required: bool, t: TypeModel) -> StmtModel
    decreases t, 1nat,
{
    if required {
        StmtModel::Required { name, call: value_macro(t) }
    } else {
        StmtModel::Optional { name, call: value_macro(t) }
    }
}

/// One statement per property, in order.
pub open spec fn property_stmts(ps: Seq<PropertyModel>) -> Seq<StmtModel>
    decreases ps, 0nat,
{
    if ps.len() == 0 {
        Seq::empty()
    } else {
        let p = ps.last();
        property_stmts(ps.drop_last()).push(property_stmt(p.key, p.required, p.value))
    }
}

/// One statement per query parameter, in order.
pub open spec fn query_stmts(qs: Seq<SchemaModel>) -> Seq<StmtModel> {
    qs.map_values(|q: SchemaModel| property_stmt(q.name, q.required, q.ty))
}

/// One definition per operation that has an id, in order.
pub open spec fn operation_defs(os: Seq<OperationModel>) -> Seq<DefModel>
    decreases os.len(),
{
    if os.len() == 0 {
        Seq::empty()
    } else {
        let o = os.last();
        operation_defs(os.drop_last()) + match o.id {
            Some(id) => seq![
                DefModel {
                    name: id,
                    class: ir::SchemaClass::Params,
                    block: query_stmts(o.queries),
                },
            ],
            None => Seq::empty(),
        }
    }
}

/// The definitions of a whole tree, path item by path item.
pub open spec fn tree_defs(ps: Seq<PathItemModel>) -> Seq<DefModel>
    decreases ps.len(),
{
    if ps.len() == 0 {
        Seq::empty()
    } else {
        tree_defs(ps.drop_last()) + operation_defs(ps.last().operations)
    }
}

/// Normalizes a schema tree: one definition per operation with an id.
pub fn build(root_schema: &ast::RootSchema) -> (r: IrResult)
    ensures
        r.ir@ == tree_defs(root_schema@),
{
    let builder = IrBuilder::new();
    builder.build(root_schema)
}

struct IrBuilder {}

impl IrBuilder {
    fn new() -> Self {
        IrBuilder {}
    }

    fn build(&self, tree: &ast::RootSchema) -> (r: IrResult)
        ensures
            r.ir@ == tree_defs(tree@),
    {
        let mut defs: Vec<ir::Def> = Vec::new();
        let mut p: usize = 0;
        while p < tree.path_items.len()
            invariant
                p <= tree.path_items@.len(),
                defs@.map_values(|d: ir::Def| d@) == tree_defs(
                    ast::path_items_model(tree.path_items@.subrange(0, p as int)),
                ),
            decreases tree.path_items@.len() - p,
        {
            let path_item = &tree.path_items[p];
            let ghost before = defs@;
            let mut o: usize = 0;
            while o < path_item.operations.len()
                invariant
                    o <= path_item.operations@.len(),
                    defs@.map_values(|d: ir::Def| d@) == before.map_values(|d: ir::Def| d@)
                        + operation_defs(
                        ast::operations_model(path_item.operations@.subrange(0, o as int)),
                    ),
                decreases path_item.operations@.len() - o,
            {
                let operation = &path_item.operations[o];
                let ghost mid = defs@;
                match &operation.id {
                    Some(id) => {
                        let stmts = self.build_queries(&operation.queries);
                        let def = ir::Def {
                            name: id.clone(),
                            class: ir::SchemaClass::Params,
                            block: ir::Block::new(stmts),
                        };
                        defs.push(def);
                    },
                    None => {},
                }
                proof {
                    let prefix = path_item.operations@.subrange(0, o as int);
                    let next = path_item.operations@.subrange(0, o + 1);
                    assert(next.drop_last() =~= prefix);
                    let nm = ast::operations_model(next);
                    assert(nm.drop_last() =~= ast::operations_model(prefix));
                    assert(nm.last() == operation@);
                    assert(defs@.map_values(|d: ir::Def| d@) =~= mid.map_values(|d: ir::Def| d@)
                        + operation_defs(nm).subrange(
                        operation_defs(ast::operations_model(prefix)).len() as int,
                        operation_defs(nm).len() as int,
                    )) by {
                        if operation.id.is_some() {
                            assert(defs@ == mid.push(defs@.last()));
                        } else {
                            assert(defs@ == mid);
                        }
                    }
                }
                o = o + 1;
            }
            proof {
                let prefix = tree.path_items@.subrange(0, p as int);
                let next = tree.path_items@.subrange(0, p + 1);
                assert(next.drop_last() =~= prefix);
                let nm = ast::path_items_model(next);
                assert(nm.drop_last() =~= ast::path_items_model(prefix));
                assert(path_item.operations@.subrange(0, path_item.operations@.len() as int)
                    =~= path_item.operations@);
                assert(nm.last() == path_item@);
                assert(defs@.map_values(|d: ir::Def| d@) =~= tree_defs(nm));
            }
            p = p + 1;
        }
        assert(tree.path_items@.subrange(0, tree.path_items@.len() as int) =~= tree.path_items@);
        IrResult { ir: ir::Defs { defs } }
    }

    fn build_queries(&self, queries: &Vec<ast::Schema>) -> (r: Vec<ir::Stmt>)
        ensures
            ir::stmts_model(r@) == query_stmts(ast::schemas_model(queries@)),
    {
        let mut stmts: Vec<ir::Stmt> = Vec::new();
        let mut i: usize = 0;
        while i < queries.len()
            invariant
                i <= queries@.len(),
                ir::stmts_model(stmts@) == query_stmts(
                    ast::schemas_model(queries@.subrange(0, i as int)),
                ),
            decreases queries@.len() - i,
        {
            let param = &queries[i];
            let stmt = self.build_property(param.name.clone(), param.required, &param.ty);
            let ghost old_stmts = stmts@;
            stmts.push(stmt);
            proof {
                let next = queries@.subrange(0, i + 1);
                assert(stmts@.drop_last() =~= old_stmts);
                assert(query_stmts(ast::schemas_model(next)) =~= query_stmts(
                    ast::schemas_model(queries@.subrange(0, i as int)),
                ).push(stmt@));
            }
            i = i + 1;
        }
        assert(queries@.subrange(0, queries@.len() as int) =~= queries@);
        stmts
    }

    fn build_item(&self, item: &ast::Type) -> (r: ir::Macro)
        ensures
            r@ == each_macro(item@),
        decreases item,
    {
        match item {
            ast::Type::Integer { validates } => ir::Macro::Each {
                ty: ir::Type::Integer,
                validates: self.build_validates(validates),
                block: None,
            },
            ast::Type::Number { validates } => ir::Macro::Each {
                ty: ir::Type::Float,
                validates: self.build_validates(validates),
                block: None,
            },
            ast::Type::String { validates } => ir::Macro::Each {
                ty: ir::Type::String,
                validates: self.build_validates(validates),
                block: None,
            },
            ast::Type::Boolean => ir::Macro::Each {
                ty: ir::Type::Boolean,
                validates: Vec::new(),
                block: None,
            },
            ast::Type::Array { validates, item_ty } => {
                let block = match item_ty {
                    Some(inner) => {
                        let stmt = ir::Stmt::Schema {
                            ty: ir::Type::Array,
                            call: self.build_item(&**inner),
                        };
                        Some(ir::Block::new_single_stmt(stmt))
                    },
                    None => None,
                };
                proof {
                    if block.is_some() {
                        let b = block.unwrap();
                        assert(b.stmts@.drop_last() =~= Seq::<ir::Stmt>::empty());
                        assert(ir::stmts_model(b.stmts@.drop_last()) =~= Seq::<StmtModel>::empty());
                        assert(ir::block_model(b) =~= seq![
                            StmtModel::Schema { ty: ir::Type::Array, call: each_macro(
                                ast::type_model(*item_ty.unwrap()),
                            ) },
                        ]);
                    }
                }
                ir::Macro::Each {
                    ty: ir::Type::Array,
                    validates: self.build_validates(validates),
                    block,
                }
            },
            ast::Type::Object { validates, properties } => {
                let block = if properties.len() == 0 {
                    None
                } else {
                    Some(self.build_properties(properties))
                };
                proof {
                    assert(ast::properties_model(properties@).len() == properties@.len())
                        by { lemma_properties_model_len(properties@); }
                }
                ir::Macro::Each {
                    ty: ir::Type::Hash,
                    validates: self.build_validates(validates),
                    block,
                }
            },
        }
    }

    fn build_properties(&self, properties: &Vec<ast::Property>) -> (r: ir::Block)
        ensures
            r@ == property_stmts(ast::properties_model(properties@)),
        decreases properties,
    {
        let mut stmts: Vec<ir::Stmt> = Vec::new();
        let mut i: usize = 0;
        while i < properties.len()
            invariant
                i <= properties@.len(),
                ir::stmts_model(stmts@) == property_stmts(
                    ast::properties_model(properties@.subrange(0, i as int)),
                ),
            decreases properties@.len() - i,
        {
            let property = &properties[i];
            let stmt = self.build_property(property.key.clone(), property.required, &property.value);
            let ghost old_stmts = stmts@;
            stmts.push(stmt);
            proof {
                let next = properties@.subrange(0, i + 1);
                assert(next.drop_last() =~= properties@.subrange(0, i as int));
                assert(stmts@.drop_last() =~= old_stmts);
                assert(ast::properties_model(next).drop_last() =~= ast::properties_model(
                    properties@.subrange(0, i as int),
                ));
                assert(ast::properties_model(next).last() == ast::property_model(*property));
                assert(ir::stmts_model(stmts@) == ir::stmts_model(old_stmts).push(stmt@));
            }
            i = i + 1;
        }
        assert(properties@.subrange(0, properties@.len() as int) =~= properties@);
        ir::Block { stmts }
    }

    fn build_property(&self, name: String, required: bool, ty: &ast::Type) -> (r: ir::Stmt)
        ensures
            r@ == property_stmt(name@, required, ty@),
        decreases ty,
    {
        let call = match ty {
            ast::Type::Integer { validates } => ir::Macro::Value {
                ty: ir::Type::Integer,
                validates: self.build_validates(validates),
                macro_or_block: None,
            },
            ast::Type::Number { validates } => ir::Macro::Value {
                ty: ir::Type::Float,
                validates: self.build_validates(validates),
                macro_or_block: None,
            },
            ast::Type::String { validates } => ir::Macro::Value {
                ty: ir::Type::String,
                validates: self.build_validates(validates),
                macro_or_block: None,
            },
            ast::Type::Boolean => ir::Macro::Value {
                ty: ir::Type::Boolean,
                validates: Vec::new(),
                macro_or_block: None,
            },
            ast::Type::Array { validates, item_ty } => {
                let nested = match item_ty {
                    Some(item) => Some(Box::new(ir::MacroOrBlock::Macro(self.build_item(&**item)))),
                    None => None,
                };
                ir::Macro::Value {
                    ty: ir::Type::Array,
                    validates: self.build_validates(validates),
                    macro_or_block: nested,
                }
            },
            ast::Type::Object { validates, properties } => {
                let nested = if properties.len() == 0 {
                    None
                } else {
                    Some(Box::new(ir::MacroOrBlock::Block(self.build_properties(properties))))
                };
                proof {
                    lemma_properties_model_len(properties@);
                }
                ir::Macro::Value {
                    ty: ir::Type::Hash,
                    validates: self.build_validates(validates),
                    macro_or_block: nested,
                }
            },
        };
        if required {
            ir::Stmt::Required { name, call }
        } else {
            ir::Stmt::Optional { name, call }
        }
    }

    fn build_validates(&self, validates: &Vec<ast::Validate>) -> (r: Vec<ir::Validate>)
        ensures
            r@ == canonical_validates(validates@),
    {
        let mut out: Vec<ir::Validate> = Vec::new();
        push_of_rank(&mut out, validates, 0);
        push_of_rank(&mut out, validates, 1);
        push_of_rank(&mut out, validates, 2);
        push_of_rank(&mut out, validates, 3);
        out
    }
}

fn convert_validate(v: &ast::Validate) -> (r: ir::Validate)
    ensures
        r == ir_validate(*v),
{
    match v {
        ast::Validate::Max(n) => ir::Validate::Max(*n),
        ast::Validate::Min(n) => ir::Validate::Min(*n),
        ast::Validate::MaxLength(n) => ir::Validate::MaxSize(*n),
        ast::Validate::MinLength(n) => ir::Validate::MinSize(*n),
        ast::Validate::MaxItems(n) => ir::Validate::MaxSize(*n),
        ast::Validate::MinItems(n) => ir::Validate::MinSize(*n),
    }
}

fn rank_of(v: &ir::Validate) -> (r: u8)
    ensures
        r as nat == rank(*v),
{
    match v {
        ir::Validate::Min(_) => 0,
        ir::Validate::MinSize(_) => 1,
        ir::Validate::Max(_) => 2,
        ir::Validate::MaxSize(_) => 3,
    }
}

/// Appends the constraints of one rank, in their original order.
fn push_of_rank(out: &mut Vec<ir::Validate>, validates: &Vec<ast::Validate>, r: u8)
    ensures
        final(out)@ == old(out)@ + of_rank(validates@, r as nat),
{
    let ghost start = out@;
    let mut i: usize = 0;
    while i < validates.len()
        invariant
            i <= validates@.len(),
            out@ == start + of_rank(validates@.subrange(0, i as int), r as nat),
        decreases validates@.len() - i,
    {
        let v = convert_validate(&validates[i]);
        let ghost before = out@;
        if rank_of(&v) == r {
            out.push(v);
        }
        proof {
            let next = validates@.subrange(0, i + 1);
            assert(next.drop_last() =~= validates@.subrange(0, i as int));
            if rank(v) == r as nat {
                assert(out@ =~= start + of_rank(next, r as nat));
            } else {
                assert(out@ =~= start + of_rank(next, r as nat));
            }
        }
        i = i + 1;
    }
    assert(validates@.subrange(0, validates@.len() as int) =~= validates@);
}

proof fn lemma_properties_model_len(ps: Seq<ast::Property>)
    ensures
        ast::properties_model(ps).len() == ps.len(),
    decreases ps.len(),
{
    if ps.len() > 0 {
        lemma_properties_model_len(ps.drop_last());
    }
}

} // verus!
