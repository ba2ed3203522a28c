//! An in-process relational table store driven by parsed SQL statements.
//!
//! The crate models typed cell values, named tables with a fixed column
//! schema, and a store of tables, together with the statement executor and
//! the predicate evaluator that SELECT/UPDATE/DELETE use. SQL text parsing
//! and result serialization are external collaborators: callers hand the
//! executor an already-parsed statement tree and render the structured
//! outcome themselves.

pub mod ast;
pub mod db;
pub mod error;
pub mod laws;
pub mod numeric;
pub mod predicate;
pub mod query;
pub mod value;
