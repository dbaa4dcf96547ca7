//! The ways in which generation is refused.

use vstd::prelude::*;

verus! {

/// A failure of generation. None of them leaves any output behind: a function
/// that reports one returns nothing else.
#[derive(Clone, Copy, Debug, PartialEq, Eq, Structural)]
pub enum GenerationError {
    /// A `pg_mapper` annotation that is not of the form `pg_mapper(...)`, or
    /// whose list cannot be read.
    MalformedAnnotation,
    /// A literal stands in the record's `pg_mapper` annotation in place of
    /// `table = "..."`.
    UnexpectedLiteral,
    /// The record's `pg_mapper` annotation holds something else than `table`.
    UnknownContainerAttribute,
    /// `table` is given a value that is not a string.
    TableNotString,
    /// The record has no `pg_mapper(table = "...")` annotation.
    MissingTable,
    /// The item is an enum or a union.
    NotARecord,
    /// A field of the record has no name.
    UnnamedField,
}

impl GenerationError {
    /// The diagnostic for each failure. Whatever is wrong with the
    /// declaration of the table, the diagnostic shows how it is declared.
    pub open spec fn message_spec(self) -> Seq<char> {
        match self {
            GenerationError::MalformedAnnotation => "declare table name: #[pg_mapper(table = \"foo\")]"@,
            GenerationError::UnexpectedLiteral => "unexpected literal in pg_mapper container attribute"@,
            GenerationError::UnknownContainerAttribute => "unknown pg_mapper container attribute"@,
            GenerationError::TableNotString => "declare table name: #[pg_mapper(table = \"foo\")]"@,
            GenerationError::MissingTable => "declare table name: #[pg_mapper(table = \"foo\")]"@,
            GenerationError::NotARecord => "Enums or Unions can not be mapped"@,
            GenerationError::UnnamedField => "Expected struct field identifier"@,
        }
    }

    /// The diagnostic to show to whoever wrote the record.
    pub fn message(&self) -> (r: String)
        ensures
            r@ == self.message_spec(),
    {
        match self {
            GenerationError::MalformedAnnotation => String::from_str(
                "declare table name: #[pg_mapper(table = \"foo\")]",
            ),
            GenerationError::UnexpectedLiteral => String::from_str(
                "unexpected literal in pg_mapper container attribute",
            ),
            GenerationError::UnknownContainerAttribute => String::from_str(
                "unknown pg_mapper container attribute",
            ),
            GenerationError::TableNotString => String::from_str(
                "declare table name: #[pg_mapper(table = \"foo\")]",
            ),
            GenerationError::MissingTable => String::from_str(
                "declare table name: #[pg_mapper(table = \"foo\")]",
            ),
            GenerationError::NotARecord => String::from_str("Enums or Unions can not be mapped"),
            GenerationError::UnnamedField => String::from_str("Expected struct field identifier"),
        }
    }
}

} // verus!
