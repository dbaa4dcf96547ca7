//! The stages put together: from an item to the text of its mapper.

use vstd::prelude::*;
use crate::emit::{emit_impl, impl_text_spec};
use crate::error::GenerationError;
use crate::plan::{build_plan, plan_spec};
use crate::schema::{ItemDecl, ItemDeclView, RecordSchema, RecordSchemaView, resolve, resolve_spec};
use crate::syntax::{item_reads_as, read_item};

verus! {

/// The mapper of a record with the given schema.
pub open spec fn impl_tokio_pg_mapper_spec(schema: RecordSchemaView) -> Seq<char> {
    impl_text_spec(schema.name, schema.generics, plan_spec(schema))
}

/// What a declaration yields: the mapper of the record that it resolves to, or
/// the failure of resolving it.
pub open spec fn derive_spec(decl: ItemDeclView) -> Result<Seq<char>, GenerationError> {
    match resolve_spec(decl) {
        Err(e) => Err(e),
        Ok(schema) => Ok(impl_tokio_pg_mapper_spec(schema)),
    }
}

/// The outcome of a generation with its text taken as a sequence of
/// characters.
pub open spec fn outcome_view(outcome: Result<String, GenerationError>) -> Result<
    Seq<char>,
    GenerationError,
> {
    match outcome {
        Ok(text) => Ok(text@),
        Err(e) => Err(e),
    }
}

/// Writes the mapper of a record: the plan is drawn up and the `impl` block
/// written after it.
pub fn impl_tokio_pg_mapper(schema: &RecordSchema) -> (r: String)
    requires
        schema.wf(),
    ensures
        r@ == impl_tokio_pg_mapper_spec(schema.deep_view()),
{
    let plan = build_plan(schema);
    emit_impl(schema.name.as_str(), &schema.generics, &plan)
}

/// Derives the mapper of a declaration.
pub fn derive_item(decl: &ItemDecl) -> (r: Result<String, GenerationError>)
    ensures
        outcome_view(r) == derive_spec(decl.deep_view()),
{
    match resolve(decl) {
        Ok(schema) => Ok(impl_tokio_pg_mapper(&schema)),
        Err(e) => Err(e),
    }
}

/// Derives the mapper of a parsed item. The outcome is the one of the
/// declaration that the item reads as, whatever its types and generics print
/// as.
pub fn impl_derive(ast: &syn::DeriveInput) -> (r: Result<String, GenerationError>)
    ensures
        exists|decl: ItemDeclView| #[trigger]
            item_reads_as(*ast, decl) && outcome_view(r) == derive_spec(decl),
{
    let decl = read_item(ast);
    let r = derive_item(&decl);
    proof {
        assert(item_reads_as(*ast, decl.deep_view()));
    }
    r
}

} // verus!
