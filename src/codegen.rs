//! Renders definitions as dry-validation source text.

use vstd::prelude::*;
use vstd::string::*;

use crate::ir_builder::ir;
use crate::ir_builder::ir::{DefModel, MacroModel, NestedModel, StmtModel};
use crate::text::{int_text, int_to_text};

verus! {

/// Names the result of `convert_case`'s conversion to Pascal case: words
/// are split on `-`, `_` and case changes, each is capitalized, and they
/// are joined without a delimiter.
pub uninterp spec fn pascal_case_of(s: Seq<char>) -> Seq<char>;

/// Relies on `convert_case::Casing::to_case` with `Case::Pascal`, a function
/// of the text alone.
#[verifier::external_body]
fn to_pascal_case(s: &str) -> (r: String)
    ensures
        r@ == pascal_case_of(s@),
{
    convert_case::Casing::to_case(&s, convert_case::Case::Pascal)
}

/// Indentation of a line at the given nesting depth: two spaces per level.
pub open spec fn indent(nesting: nat) -> Seq<char>
    decreases nesting,
{
    if nesting == 0 {
        Seq::empty()
    } else {
        indent((nesting - 1) as nat) + "  "@
    }
}

pub open spec fn schema_class_text(c: ir::SchemaClass) -> Seq<char> {
    match c {
        ir::SchemaClass::Params => "Dry::Schema::Params"@,
    }
}

/// The type name used as the argument of `.value`.
pub open spec fn type_spec(t: ir::Type) -> Seq<char> {
    match t {
        ir::Type::Integer => "integer"@,
        ir::Type::Float => "float"@,
        ir::Type::String => "string"@,
        ir::Type::Boolean => "boolean"@,
        ir::Type::Array => "array"@,
        ir::Type::Hash => "hash"@,
    }
}

/// The type predicate used as the argument of `.each` and `schema`.
pub open spec fn type_predicate(t: ir::Type) -> Seq<char> {
    match t {
        ir::Type::Integer => "int?"@,
        ir::Type::Float => "float?"@,
        ir::Type::String => "str?"@,
        ir::Type::Boolean => "bool?"@,
        ir::Type::Array => "array?"@,
        ir::Type::Hash => "hash?"@,
    }
}

/// One validation argument as `key: value`.
pub open spec fn validate_text(v: ir::Validate) -> Seq<char> {
    match v {
        ir::Validate::Max(n) => "max: "@ + int_text(n as int),
        ir::Validate::Min(n) => "min: "@ + int_text(n as int),
        ir::Validate::MaxSize(n) => "max_size: "@ + int_text(n as int),
        ir::Validate::MinSize(n) => "min_size: "@ + int_text(n as int),
    }
}

/// Validation arguments joined by `, `, in the order given.
pub open spec fn validates_text(vs: Seq<ir::Validate>) -> Seq<char>
    decreases vs.len(),
{
    if vs.len() == 0 {
        Seq::empty()
    } else if vs.len() == 1 {
        validate_text(vs[0])
    } else {
        validates_text(vs.drop_last()) + ", "@ + validate_text(vs.last())
    }
}

/// The parenthesized argument list of a macro call.
pub open spec fn args_text(tag: Seq<char>, vs: Seq<ir::Validate>) -> Seq<char> {
    if vs.len() == 0 {
        "(:"@ + tag + ")"@
    } else {
        "(:"@ + tag + ", "@ + validates_text(vs) + ")"@
    }
}

pub open spec fn macro_text(m: MacroModel, nesting: nat) -> Seq<char>
    decreases m, 0nat,
{
    match m {
        MacroModel::Value { ty, validates, nested } => ".value"@ + args_text(type_spec(ty), validates)
            + match nested {
            Some(b) => nested_text(*b, nesting),
            None => Seq::empty(),
        },
        MacroModel::Each { ty, validates, block } => ".each"@ + args_text(
            type_predicate(ty),
            validates,
        ) + match block {
            Some(b) => block_text(b, nesting),
            None => Seq::empty(),
        },
    }
}

pub open spec fn nested_text(n: NestedModel, nesting: nat) -> Seq<char>
    decreases n, 0nat,
{
    match n {
        NestedModel::Macro(m) => macro_text(m, nesting),
        NestedModel::Block(b) => block_text(b, nesting),
    }
}

/// A block whose `end` stands at the given depth; its statements stand one
/// level deeper.
pub open spec fn block_text(b: Seq<StmtModel>, nesting: nat) -> Seq<char>
    decreases b, 1nat,
{
    " do\n"@ + lines_text(b, nesting + 1) + indent(nesting) + "end"@
}

/// One indented line per statement.
pub open spec fn lines_text(ss: Seq<StmtModel>, nesting: nat) -> Seq<char>
    decreases ss, 0nat,
{
    if ss.len() == 0 {
        Seq::empty()
    } else {
        lines_text(ss.drop_last(), nesting) + indent(nesting) + stmt_text(ss.last(), nesting)
            + "\n"@
    }
}

pub open spec fn stmt_text(s: StmtModel, nesting: nat) -> Seq<char>
    decreases s, 0nat,
{
    match s {
        StmtModel::Required { name, call } => "required(:"@ + name + ")"@ + macro_text(
            call,
            nesting,
        ),
        StmtModel::Optional { name, call } => "optional(:"@ + name + ")"@ + macro_text(
            call,
            nesting,
        ),
        StmtModel::Schema { ty, call } => "schema(:"@ + type_predicate(ty) + ")"@ + macro_text(
            call,
            nesting,
        ),
    }
}

/// The text of a definition whose name renders as `name`.
pub open spec fn def_text(name: Seq<char>, d: DefModel) -> Seq<char> {
    name + " = "@ + schema_class_text(d.class) + block_text(d.block, 0) + "\n"@
}

/// Renders a definition under its name in Pascal case.
pub fn generate(def: &ir::Def) -> (r: String)
    ensures
        r@ == def_text(pascal_case_of(def.name@), def@),
{
    let name = gen_def_name(def.name.as_str());
    generate_named(name.as_str(), def)
}

/// Renders a definition under the name given.
pub fn generate_named(name: &str, def: &ir::Def) -> (r: String)
    ensures
        r@ == def_text(name@, def@),
{
    let mut code = String::from_str(name);
    code.append(" = ");
    code.append(gen_schema_class(&def.class));
    let pad = String::new();
    let block = gen_block(&def.block, pad.as_str(), Ghost(0));
    code.append(block.as_str());
    code.append("\n");
    code
}

fn gen_def_name(name: &str) -> (r: String)
    ensures
        r@ == pascal_case_of(name@),
{
    to_pascal_case(name)
}

fn gen_schema_class(c: &ir::SchemaClass) -> (r: &'static str)
    ensures
        r@ == schema_class_text(*c),
{
    match c {
        ir::SchemaClass::Params => "Dry::Schema::Params",
    }
}

fn gen_type_spec(t: &ir::Type) -> (r: &'static str)
    ensures
        r@ == type_spec(*t),
{
    match t {
        ir::Type::Integer => "integer",
        ir::Type::Float => "float",
        ir::Type::String => "string",
        ir::Type::Boolean => "boolean",
        ir::Type::Array => "array",
        ir::Type::Hash => "hash",
    }
}

fn gen_type_predicate(t: &ir::Type) -> (r: &'static str)
    ensures
        r@ == type_predicate(*t),
{
    match t {
        ir::Type::Integer => "int?",
        ir::Type::Float => "float?",
        ir::Type::String => "str?",
        ir::Type::Boolean => "bool?",
        ir::Type::Array => "array?",
        ir::Type::Hash => "hash?",
    }
}

fn gen_validate(v: &ir::Validate) -> (r: String)
    ensures
        r@ == validate_text(*v),
{
    let (key, n): (&str, i128) = match v {
        ir::Validate::Max(n) => ("max: ", *n),
        ir::Validate::Min(n) => ("min: ", *n),
        ir::Validate::MaxSize(n) => ("max_size: ", *n as i128),
        ir::Validate::MinSize(n) => ("min_size: ", *n as i128),
    };
    let digits = int_to_text(n);
    String::from_str(key).concat(digits.as_str())
}

fn gen_validates(vs: &Vec<ir::Validate>) -> (r: String)
    ensures
        r@ == validates_text(vs@),
{
    let mut out = String::new();
    let mut i: usize = 0;
    while i < vs.len()
        invariant
            i <= vs@.len(),
            out@ == validates_text(vs@.subrange(0, i as int)),
        decreases vs@.len() - i,
    {
        let piece = gen_validate(&vs[i]);
        if i > 0 {
            out.append(", ");
        }
        out.append(piece.as_str());
        proof {
            let next = vs@.subrange(0, i + 1);
            assert(next.drop_last() =~= vs@.subrange(0, i as int));
            if i == 0 {
                assert(out@ =~= validates_text(next));
            }
        }
        i = i + 1;
    }
    assert(vs@.subrange(0, vs@.len() as int) =~= vs@);
    out
}

fn gen_args(tag: &str, vs: &Vec<ir::Validate>) -> (r: String)
    ensures
        r@ == args_text(tag@, vs@),
{
    let mut out = String::from_str("(:");
    out.append(tag);
    if vs.len() > 0 {
        out.append(", ");
        let list = gen_validates(vs);
        out.append(list.as_str());
    }
    out.append(")");
    out
}

fn indent_deeper(pad: &str, nesting: Ghost<nat>) -> (r: String)
    requires
        pad@ == indent(nesting@),
    ensures
        r@ == indent(nesting@ + 1),
{
    String::from_str(pad).concat("  ")
}

fn gen_block(block: &ir::Block, pad: &str, nesting: Ghost<nat>) -> (r: String)
    requires
        pad@ == indent(nesting@),
    ensures
        r@ == block_text(block@, nesting@),
    decreases block,
{
    let inner = indent_deeper(pad, nesting);
    let ghost deeper: nat = nesting@ + 1;
    let mut lines = String::new();
    let mut i: usize = 0;
    while i < block.stmts.len()
        invariant
            i <= block.stmts@.len(),
            inner@ == indent(deeper),
            deeper == nesting@ + 1,
            lines@ == lines_text(ir::stmts_model(block.stmts@.subrange(0, i as int)), deeper),
        decreases block.stmts@.len() - i,
    {
        let line = gen_stmt(&block.stmts[i], inner.as_str(), Ghost(deeper));
        lines.append(inner.as_str());
        lines.append(line.as_str());
        lines.append("\n");
        proof {
            let next = block.stmts@.subrange(0, i + 1);
            assert(next.drop_last() =~= block.stmts@.subrange(0, i as int));
            let m = ir::stmts_model(next);
            assert(m.drop_last() =~= ir::stmts_model(block.stmts@.subrange(0, i as int)));
        }
        i = i + 1;
    }
    assert(block.stmts@.subrange(0, block.stmts@.len() as int) =~= block.stmts@);
    let mut out = String::from_str(" do\n");
    out.append(lines.as_str());
    out.append(pad);
    out.append("end");
    out
}

fn gen_stmt(stmt: &ir::Stmt, pad: &str, nesting: Ghost<nat>) -> (r: String)
    requires
        pad@ == indent(nesting@),
    ensures
        r@ == stmt_text(stmt@, nesting@),
    decreases stmt,
{
    match stmt {
        ir::Stmt::Required { name, call } => {
            let mut out = String::from_str("required(:");
            out.append(name.as_str());
            out.append(")");
            let rest = gen_macro(call, pad, nesting);
            out.append(rest.as_str());
            out
        },
        ir::Stmt::Optional { name, call } => {
            let mut out = String::from_str("optional(:");
            out.append(name.as_str());
            out.append(")");
            let rest = gen_macro(call, pad, nesting);
            out.append(rest.as_str());
            out
        },
        ir::Stmt::Schema { ty, call } => {
            let mut out = String::from_str("schema(:");
            out.append(gen_type_predicate(ty));
            out.append(")");
            let rest = gen_macro(call, pad, nesting);
            out.append(rest.as_str());
            out
        },
    }
}

fn gen_macro(m: &ir::Macro, pad: &str, nesting: Ghost<nat>) -> (r: String)
    requires
        pad@ == indent(nesting@),
    ensures
        r@ == macro_text(m@, nesting@),
    decreases m,
{
    match m {
        ir::Macro::Value { ty, validates, macro_or_block } => {
            let mut out = String::from_str(".value");
            let args = gen_args(gen_type_spec(ty), validates);
            out.append(args.as_str());
            match macro_or_block {
                Some(b) => {
                    let rest = match &**b {
                        ir::MacroOrBlock::Macro(inner) => gen_macro(inner, pad, nesting),
                        ir::MacroOrBlock::Block(block) => gen_block(block, pad, nesting),
                    };
                    out.append(rest.as_str());
                },
                None => {
                    assert(out@ =~= out@ + Seq::<char>::empty());
                },
            }
            out
        },
        ir::Macro::Each { ty, validates, block } => {
            let mut out = String::from_str(".each");
            let args = gen_args(gen_type_predicate(ty), validates);
            out.append(args.as_str());
            match block {
                Some(b) => {
                    let rest = gen_block(b, pad, nesting);
                    out.append(rest.as_str());
                },
                None => {
                    assert(out@ =~= out@ + Seq::<char>::empty());
                },
            }
            out
        },
    }
}

} // verus!
