//! The predicate evaluator used by filtered SELECT, UPDATE and DELETE.
//!
//! The evaluator recognizes exactly one predicate shape: a binary
//! comparison whose right-hand operand is a numeric literal. It tests the
//! literal's text against the canonical decimal rendering of the cell at
//! column index zero, whatever column the expression names — a known,
//! deliberate limitation of the store, kept rather than generalized. Any
//! other expression shape matches no row: an unrecognized predicate
//! filters everything out instead of failing the statement.

use vstd::prelude::*;
use crate::ast::{CondExpr, CondModel, Literal, LiteralModel, Operand, OperandModel};
use crate::numeric::{dec_i32, decimal_matches};
use crate::value::{ValueModel, ValueType};

verus! {

/// Whether `row` satisfies `cond`: the condition is a binary comparison
/// against a numeric literal, the row's first cell is an integer, and the
/// literal's text is that integer's canonical decimal rendering.
pub open spec fn spec_row_matches(row: Seq<ValueModel>, cond: CondModel) -> bool {
    match cond {
        CondModel::Comparison { right, .. } => match right {
            OperandModel::Lit(lit) => match lit {
                LiteralModel::Number(num) => row.len() > 0 && match row[0] {
                    ValueModel::Int(v) => num == dec_i32(v),
                    _ => false,
                },
                _ => false,
            },
            _ => false,
        },
        CondModel::Unrecognized => false,
    }
}

/// Evaluates `condition` against `row`.
pub fn matches_condition(row: &Vec<ValueType>, condition: &CondExpr) -> (r: bool)
    ensures
        r == spec_row_matches(row.deep_view(), condition.deep_view()),
{
    match condition {
        CondExpr::Comparison { right: Operand::Lit(Literal::Number(num)), .. } => {
            if row.len() == 0 {
                return false;
            }
            match &row[0] {
                ValueType::Int(v) => decimal_matches(*v, num.as_str()),
                _ => false,
            }
        },
        _ => false,
    }
}

} // verus!
