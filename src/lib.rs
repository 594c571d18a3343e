//! Turns an OpenAPI-style interface description into dry-validation
//! schema definitions: a schema tree is built from the document (resolving
//! references through a cache of external fragments), normalized into a
//! statement/block form and rendered as text, one definition per
//! operation.

pub mod ast_builder;
pub mod codegen;
pub mod document;
pub mod ir_builder;
pub mod laws;
pub mod text;

use vstd::prelude::*;
use vstd::string::*;

use ast_builder::reference_db::{Interrupt, ReferenceDatabase};
use ast_builder::{build_outcome, texts, Built};
use codegen::{def_text, pascal_case_of};
use document::Document;
use ir_builder::ir::DefModel;
use ir_builder::tree_defs;

verus! {

/// The generated text of a document and the diagnostics of what it left
/// out.
pub struct Generated {
    pub code: String,
    pub errors: Vec<String>,
}

/// The concatenated texts of definitions, each under its name in Pascal
/// case.
pub open spec fn defs_text(defs: Seq<DefModel>) -> Seq<char>
    decreases defs.len(),
{
    if defs.len() == 0 {
        Seq::empty()
    } else {
        defs_text(defs.drop_last()) + def_text(pascal_case_of(defs.last().name), defs.last())
    }
}

/// What generation gives for a document, given what the database holds:
/// the text and the diagnostics, or the interrupt that stops it.
pub open spec fn generation(doc: Document, db: ReferenceDatabase) -> Result<(Seq<char>, Seq<Seq<char>>), ast_builder::reference_db::InterruptModel> {
    match build_outcome(doc, db) {
        Built::Done(tree, d) => Ok((defs_text(tree_defs(tree)), d)),
        Built::Halted(e) => Err(e),
    }
}

/// Generates the definitions of a document: the tree is built, normalized
/// and rendered, one definition per operation with an id, in path order
/// and then in the verb order get, post, patch, put, delete.
///
/// Where a reference needs something that the database does not hold yet,
/// or cannot be resolved, the interrupt is returned instead.
pub fn generate_dry_validation(openapi: &Document, db: &ReferenceDatabase) -> (r: Result<Generated, Interrupt>)
    ensures
        match r {
            Ok(g) => generation(*openapi, *db) == Ok::<
                (Seq<char>, Seq<Seq<char>>),
                ast_builder::reference_db::InterruptModel,
            >((g.code@, texts(g.errors@))),
            Err(e) => generation(*openapi, *db) == Err::<
                (Seq<char>, Seq<Seq<char>>),
                ast_builder::reference_db::InterruptModel,
            >(e@),
        },
{
    let ast_result = match ast_builder::build(openapi, db) {
        Ok(a) => a,
        Err(e) => return Err(e),
    };
    let ir_result = ir_builder::build(&ast_result.ast);
    let defs = &ir_result.ir.defs;
    let ghost models = ir_result.ir@;
    let mut code = String::new();
    let mut i: usize = 0;
    while i < defs.len()
        invariant
            i <= defs@.len(),
            models == defs@.map_values(|d: ir_builder::ir::Def| d@),
            code@ == defs_text(models.subrange(0, i as int)),
        decreases defs@.len() - i,
    {
        let text = codegen::generate(&defs[i]);
        code.append(text.as_str());
        proof {
            let next = models.subrange(0, i + 1);
            assert(next.drop_last() =~= models.subrange(0, i as int));
            assert(next.last() == defs@[i as int]@);
        }
        i = i + 1;
    }
    assert(models.subrange(0, models.len() as int) =~= models);
    Ok(Generated { code, errors: ast_result.errors })
}

} // verus!
