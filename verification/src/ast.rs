//! The statement tree the executor consumes.
//!
//! SQL text parsing is an external collaborator: a parser turns query text
//! into these shapes at the boundary, and the executor assumes nothing
//! beyond them. The tree covers exactly the recognized statement kinds
//! (CREATE TABLE, INSERT, SELECT, UPDATE, DELETE) and the two recognized
//! expression kinds (literal, binary comparison).

use vstd::prelude::*;
use crate::value::ValueType;

verus! {

/// A literal expression as the parser delivers it: the text of a
/// single-quoted string (quotes stripped), the raw text of a number, or
/// some other literal shape the executor does not read.
pub enum Literal {
    SingleQuoted(String),
    Number(String),
    Other,
}

/// The model of a literal: its text as a character sequence.
pub enum LiteralModel {
    SingleQuoted(Seq<char>),
    Number(Seq<char>),
    Other,
}

impl DeepView for Literal {
    type V = LiteralModel;

    open spec fn deep_view(&self) -> LiteralModel {
        match self {
            Literal::SingleQuoted(s) => LiteralModel::SingleQuoted(s@),
            Literal::Number(s) => LiteralModel::Number(s@),
            Literal::Other => LiteralModel::Other,
        }
    }
}

/// One side of a binary comparison: a column reference, a literal, or a
/// shape the evaluator does not recognize.
pub enum Operand {
    Column(String),
    Lit(Literal),
    Other,
}

pub enum OperandModel {
    Column(Seq<char>),
    Lit(LiteralModel),
    Other,
}

impl DeepView for Operand {
    type V = OperandModel;

    open spec fn deep_view(&self) -> OperandModel {
        match self {
            Operand::Column(s) => OperandModel::Column(s@),
            Operand::Lit(l) => OperandModel::Lit(l.deep_view()),
            Operand::Other => OperandModel::Other,
        }
    }
}

/// A WHERE-clause expression. The evaluator recognizes exactly one shape,
/// a binary comparison; `op` carries the operator's text unread.
pub enum CondExpr {
    Comparison { left: Operand, op: String, right: Operand },
    Unrecognized,
}

pub enum CondModel {
    Comparison { left: OperandModel, op: Seq<char>, right: OperandModel },
    Unrecognized,
}

impl DeepView for CondExpr {
    type V = CondModel;

    open spec fn deep_view(&self) -> CondModel {
        match self {
            CondExpr::Comparison { left, op, right } => CondModel::Comparison {
                left: left.deep_view(),
                op: op@,
                right: right.deep_view(),
            },
            CondExpr::Unrecognized => CondModel::Unrecognized,
        }
    }
}

/// One SET clause of an UPDATE: a column name and the literal assigned
/// to it.
pub struct SetClause {
    pub column: String,
    pub value: Literal,
}

pub struct SetClauseModel {
    pub column: Seq<char>,
    pub value: LiteralModel,
}

impl DeepView for SetClause {
    type V = SetClauseModel;

    open spec fn deep_view(&self) -> SetClauseModel {
        SetClauseModel { column: self.column@, value: self.value.deep_view() }
    }
}

/// One column-index-to-value assignment as the store applies it.
pub struct Assignment {
    pub column: usize,
    pub value: ValueType,
}

pub struct AssignmentModel {
    pub column: usize,
    pub value: crate::value::ValueModel,
}

impl DeepView for Assignment {
    type V = AssignmentModel;

    open spec fn deep_view(&self) -> AssignmentModel {
        AssignmentModel { column: self.column, value: self.value.deep_view() }
    }
}

/// One parsed SQL statement.
pub enum Statement {
    CreateTable { name: String, columns: Vec<String> },
    Insert { table: String, rows: Vec<Vec<Literal>> },
    Select { table: String, wildcard: bool, condition: Option<CondExpr> },
    Update { table: String, assignments: Vec<SetClause>, condition: Option<CondExpr> },
    Delete { table: String, condition: Option<CondExpr> },
    /// A statement kind the executor does not implement.
    Other,
}

pub enum StatementModel {
    CreateTable { name: Seq<char>, columns: Seq<Seq<char>> },
    Insert { table: Seq<char>, rows: Seq<Seq<LiteralModel>> },
    Select { table: Seq<char>, wildcard: bool, condition: Option<CondModel> },
    Update { table: Seq<char>, assignments: Seq<SetClauseModel>, condition: Option<CondModel> },
    Delete { table: Seq<char>, condition: Option<CondModel> },
    Other,
}

impl DeepView for Statement {
    type V = StatementModel;

    open spec fn deep_view(&self) -> StatementModel {
        match self {
            Statement::CreateTable { name, columns } => StatementModel::CreateTable {
                name: name@,
                columns: columns.deep_view(),
            },
            Statement::Insert { table, rows } => StatementModel::Insert {
                table: table@,
                rows: rows.deep_view(),
            },
            Statement::Select { table, wildcard, condition } => StatementModel::Select {
                table: table@,
                wildcard: *wildcard,
                condition: condition.deep_view(),
            },
            Statement::Update { table, assignments, condition } => StatementModel::Update {
                table: table@,
                assignments: assignments.deep_view(),
                condition: condition.deep_view(),
            },
            Statement::Delete { table, condition } => StatementModel::Delete {
                table: table@,
                condition: condition.deep_view(),
            },
            Statement::Other => StatementModel::Other,
        }
    }
}

} // verus!
