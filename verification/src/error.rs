//! The error taxonomy of the store and its statement executor.

use vstd::prelude::*;

verus! {

/// The two statement kinds that demand a WHERE clause.
#[derive(Debug, PartialEq, Eq, Structural, Clone, Copy)]
pub enum MutationKind {
    Update,
    Delete,
}

/// A typed failure of one statement. Every error is returned to the caller
/// as a value, never raised; the session goes on after reporting it.
#[derive(Debug, PartialEq)]
pub enum SqlError {
    /// The operation named a table absent from the store.
    TableNotFound,
    /// A row's value count does not equal the table's column count.
    SchemaMismatch,
    /// A SELECT whose projection is not the `*` wildcard.
    UnsupportedProjection,
    /// A statement kind the executor does not implement.
    UnsupportedStatement,
    /// An UPDATE or DELETE issued without a WHERE clause; unconditional
    /// bulk mutation is disallowed by design.
    MissingFilter(MutationKind),
    /// The external parser rejected the input text; carries its message.
    ParseFailure(String),
    /// The input parsed to zero statements.
    EmptyInput,
}

} // verus!
