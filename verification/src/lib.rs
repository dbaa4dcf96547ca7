//! Row-mapper generation for relational records.
//!
//! Given the declaration of a record (its name, its annotations and its
//! fields), the library decides for every field whether it is read from a
//! column, delegated to a nested mapper, or left to the record's default value,
//! and produces the table and column metadata together with the source text of
//! the row-to-record conversion.
//!
//! The stages are kept apart, each with its own contract:
//!
//! * [`directive`]: annotations and the directives they carry;
//! * [`classify`]: the precedence rules that give a field its classification;
//! * [`schema`]: a declaration resolved into a record schema;
//! * [`plan`]: the mapped fields and the column lists;
//! * [`emit`]: the text of the generated conversion;
//! * [`tokens`]: walking the tokens of an annotation before it is parsed;
//! * [`syntax`]: reading a parsed item into a declaration;
//! * [`derive`]: the stages put together;
//! * [`laws`]: what holds of every record, proved.

pub mod classify;
pub mod derive;
pub mod directive;
pub mod emit;
pub mod error;
pub mod laws;
pub mod plan;
pub mod schema;
pub mod syntax;
pub mod text;
pub mod tokens;
