//! The statement/block form that the generator renders.

use vstd::prelude::*;

verus! {

/// The definitions of a document, one per operation with an id.
pub struct Defs {
    pub defs: Vec<Def>,
}

/// One named schema definition.
pub struct Def {
    pub name: String,
    pub class: SchemaClass,
    pub block: Block,
}

/// The schema class a definition is made with.
#[derive(Clone, Copy, PartialEq, Eq, Structural, Debug)]
pub enum SchemaClass {
    Params,
}

/// One statement of a block.
pub enum Stmt {
    Required { name: String, call: Macro },
    Optional { name: String, call: Macro },
    /// Restates the kind of an array item inside a nested block.
    Schema { ty: Type, call: Macro },
}

/// A macro call: `.value(...)` or `.each(...)`.
pub enum Macro {
    Value { ty: Type, validates: Vec<Validate>, macro_or_block: Option<Box<MacroOrBlock>> },
    Each { ty: Type, validates: Vec<Validate>, block: Option<Block> },
}

/// What follows a `.value(...)` call.
pub enum MacroOrBlock {
    Macro(Macro),
    Block(Block),
}

/// A sequence of statements.
pub struct Block {
    pub stmts: Vec<Stmt>,
}

impl Block {
    pub fn new(stmts: Vec<Stmt>) -> (r: Self)
        ensures
            r.stmts@ == stmts@,
    {
        Block { stmts }
    }

    pub fn new_single_stmt(stmt: Stmt) -> (r: Self)
        ensures
            r.stmts@ == seq![stmt],
    {
        let mut stmts: Vec<Stmt> = Vec::new();
        stmts.push(stmt);
        Block { stmts }
    }
}

/// A validation argument, in the canonical vocabulary of the output.
#[derive(Clone, Copy, PartialEq, Eq, Structural, Debug)]
pub enum Validate {
    Max(i128),
    Min(i128),
    MaxSize(usize),
    MinSize(usize),
}

/// The type tag of a macro.
#[derive(Clone, Copy, PartialEq, Eq, Structural, Debug)]
pub enum Type {
    Integer,
    Float,
    String,
    Boolean,
    Array,
    Hash,
}

/// The mathematical value of a [`Stmt`].
pub enum StmtModel {
    Required { name: Seq<char>, call: MacroModel },
    Optional { name: Seq<char>, call: MacroModel },
    Schema { ty: Type, call: MacroModel },
}

/// The mathematical value of a [`Macro`]; a block is its sequence of
/// statements.
pub enum MacroModel {
    Value { ty: Type, validates: Seq<Validate>, nested: Option<Box<NestedModel>> },
    Each { ty: Type, validates: Seq<Validate>, block: Option<Seq<StmtModel>> },
}

/// The mathematical value of a [`MacroOrBlock`].
pub enum NestedModel {
    Macro(MacroModel),
    Block(Seq<StmtModel>),
}

/// The mathematical value of a [`Def`].
pub struct DefModel {
    pub name: Seq<char>,
    pub class: SchemaClass,
    pub block: Seq<StmtModel>,
}

pub open spec fn stmt_model(s: Stmt) -> StmtModel
    decreases s,
{
    match s {
        Stmt::Required { name, call } => StmtModel::Required { name: name@, call: macro_model(call) },
        Stmt::Optional { name, call } => StmtModel::Optional { name: name@, call: macro_model(call) },
        Stmt::Schema { ty, call } => StmtModel::Schema { ty, call: macro_model(call) },
    }
}

pub open spec fn macro_model(m: Macro) -> MacroModel
    decreases m,
{
    match m {
        Macro::Value { ty, validates, macro_or_block } => MacroModel::Value {
            ty,
            validates: validates@,
            nested: match macro_or_block {
                Some(b) => Some(Box::new(nested_model(*b))),
                None => None,
            },
        },
        Macro::Each { ty, validates, block } => MacroModel::Each {
            ty,
            validates: validates@,
            block: match block {
                Some(b) => Some(block_model(b)),
                None => None,
            },
        },
    }
}

pub open spec fn nested_model(n: MacroOrBlock) -> NestedModel
    decreases n,
{
    match n {
        MacroOrBlock::Macro(m) => NestedModel::Macro(macro_model(m)),
        MacroOrBlock::Block(b) => NestedModel::Block(block_model(b)),
    }
}

pub open spec fn block_model(b: Block) -> Seq<StmtModel>
    decreases b,
{
    stmts_model(b.stmts@)
}

pub open spec fn stmts_model(ss: Seq<Stmt>) -> Seq<StmtModel>
    decreases ss,
{
    if ss.len() == 0 {
        Seq::empty()
    } else {
        stmts_model(ss.drop_last()).push(stmt_model(ss.last()))
    }
}

impl View for Stmt {
    type V = StmtModel;

    open spec fn view(&self) -> StmtModel {
        stmt_model(*self)
    }
}

impl View for Macro {
    type V = MacroModel;

    open spec fn view(&self) -> MacroModel {
        macro_model(*self)
    }
}

impl View for Block {
    type V = Seq<StmtModel>;

    open spec fn view(&self) -> Seq<StmtModel> {
        block_model(*self)
    }
}

impl View for Def {
    type V = DefModel;

    open spec fn view(&self) -> DefModel {
        DefModel { name: self.name@, class: self.class, block: self.block@ }
    }
}

impl View for Defs {
    type V = Seq<DefModel>;

    open spec fn view(&self) -> Seq<DefModel> {
        self.defs@.map_values(|d: Def| d@)
    }
}

} // verus!
