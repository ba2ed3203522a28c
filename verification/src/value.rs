//! Typed cell values.
//!
//! A `ValueType` is the content of a single table cell: a signed 32-bit
//! integer, a double-precision float carried as its IEEE-754 bit pattern,
//! a text string, or the SQL null. The store never interprets float bits;
//! they are opaque payload, so callers that want the numeric value convert
//! at the boundary. There is no implicit conversion between variants.

use vstd::prelude::*;

verus! {

/// One typed cell of a row.
#[derive(Debug, PartialEq)]
pub enum ValueType {
    /// A signed integer value.
    Int(i32),
    /// A double-precision float, carried as its IEEE-754 bit pattern.
    Float(u64),
    /// A text value.
    String(String),
    /// The SQL null.
    Null,
}

/// The mathematical model of a cell value: text becomes a character
/// sequence, the other variants carry their payload unchanged.
pub enum ValueModel {
    Int(i32),
    Float(u64),
    Text(Seq<char>),
    Null,
}

impl DeepView for ValueType {
    type V = ValueModel;

    open spec fn deep_view(&self) -> ValueModel {
        match self {
            ValueType::Int(i) => ValueModel::Int(*i),
            ValueType::Float(bits) => ValueModel::Float(*bits),
            ValueType::String(s) => ValueModel::Text(s@),
            ValueType::Null => ValueModel::Null,
        }
    }
}

impl Clone for ValueType {
    /// A clone is a cell with the same model.
    fn clone(&self) -> (r: ValueType)
        ensures
            r.deep_view() == self.deep_view(),
    {
        match self {
            ValueType::Int(i) => ValueType::Int(*i),
            ValueType::Float(bits) => ValueType::Float(*bits),
            ValueType::String(s) => ValueType::String(s.clone()),
            ValueType::Null => ValueType::Null,
        }
    }
}

} // verus!
