//! The statement executor.
//!
//! One parsed statement is translated into store calls and a structured
//! outcome; rendering the outcome as text (or as a serialized encoding,
//! for SELECT results) is the caller's concern, as is parsing SQL text
//! into a [`Statement`].
//!
//! Literal coercion, applied uniformly on INSERT: a single-quoted string
//! becomes a text cell; a numeric literal whose text is all decimal
//! digits with a value that fits an `i32` becomes an integer cell, and
//! any other numeric literal keeps its text as a text cell; any other
//! literal shape becomes null.
//!
//! UPDATE keeps the store's deliberate restriction: only the first SET
//! clause is honored, only when its value is a single-quoted string, and
//! it is applied to column index zero whatever column it names.

use vstd::prelude::*;
use crate::ast::{
    Assignment, AssignmentModel, Literal, LiteralModel, SetClause, SetClauseModel, Statement,
    StatementModel,
};
use crate::db::{
    clone_row, lemma_deep_index, spec_create, spec_delete, spec_find, spec_insert,
    spec_matching_rows, spec_update, Database, Table, TableModel,
};
use crate::error::{MutationKind, SqlError};
use crate::numeric::{all_digits, digits_value, parse_i32_digits};
use crate::value::{ValueModel, ValueType};

verus! {

/// The value a literal is coerced to on INSERT.
pub open spec fn spec_coerce_literal(l: LiteralModel) -> ValueModel {
    match l {
        LiteralModel::SingleQuoted(s) => ValueModel::Text(s),
        LiteralModel::Number(s) => if s.len() > 0 && all_digits(s) && digits_value(s)
            <= i32::MAX {
            ValueModel::Int(digits_value(s) as i32)
        } else {
            ValueModel::Text(s)
        },
        LiteralModel::Other => ValueModel::Null,
    }
}

/// A whole literal row, coerced cell by cell.
pub open spec fn spec_coerce_row(lits: Seq<LiteralModel>) -> Seq<ValueModel> {
    lits.map_values(|l: LiteralModel| spec_coerce_literal(l))
}

/// Inserts the coerced rows in order, stopping at the first failure.
pub open spec fn spec_insert_rows(
    ts: Seq<TableModel>,
    table: Seq<char>,
    rows: Seq<Seq<LiteralModel>>,
) -> (Seq<TableModel>, Result<(), SqlError>)
    decreases rows.len(),
{
    if rows.len() == 0 {
        (ts, Ok(()))
    } else {
        let first = spec_insert(ts, table, spec_coerce_row(rows[0]));
        match first.1 {
            Err(e) => (first.0, Err(e)),
            Ok(u) => spec_insert_rows(first.0, table, rows.drop_first()),
        }
    }
}

/// The store assignments an UPDATE statement's SET clauses produce:
/// the first clause alone, only when its value is a single-quoted
/// string, aimed at column index zero.
pub open spec fn spec_convert_assignments(assigns: Seq<SetClauseModel>) -> Seq<AssignmentModel> {
    if assigns.len() > 0 {
        match assigns[0].value {
            LiteralModel::SingleQuoted(s) => seq![
                AssignmentModel { column: 0, value: ValueModel::Text(s) },
            ],
            _ => Seq::empty(),
        }
    } else {
        Seq::empty()
    }
}

/// The structured result of one successfully executed statement.
#[derive(Debug)]
pub enum ExecOutcome {
    /// CREATE TABLE: the name of the table registered.
    TableCreated { name: String },
    /// INSERT: all value rows were appended.
    RowsInserted,
    /// Unfiltered SELECT *: a copy of the whole table.
    FullTable(Table),
    /// Filtered SELECT *: copies of the matching rows, in order.
    FilteredRows(Vec<Vec<ValueType>>),
    /// UPDATE: how many rows matched the WHERE clause.
    RowsUpdated { count: usize },
    /// DELETE: how many rows were removed.
    RowsDeleted { count: usize },
}

/// The mathematical model of an outcome.
pub enum OutcomeModel {
    TableCreated { name: Seq<char> },
    RowsInserted,
    FullTable(TableModel),
    FilteredRows(Seq<Seq<ValueModel>>),
    RowsUpdated { count: int },
    RowsDeleted { count: int },
}

impl DeepView for ExecOutcome {
    type V = OutcomeModel;

    open spec fn deep_view(&self) -> OutcomeModel {
        match self {
            ExecOutcome::TableCreated { name } => OutcomeModel::TableCreated { name: name@ },
            ExecOutcome::RowsInserted => OutcomeModel::RowsInserted,
            ExecOutcome::FullTable(t) => OutcomeModel::FullTable(t.deep_view()),
            ExecOutcome::FilteredRows(rows) => OutcomeModel::FilteredRows(rows.deep_view()),
            ExecOutcome::RowsUpdated { count } => OutcomeModel::RowsUpdated {
                count: *count as int,
            },
            ExecOutcome::RowsDeleted { count } => OutcomeModel::RowsDeleted {
                count: *count as int,
            },
        }
    }
}

/// What one statement does to the store, and what it returns: the
/// dispatch table of the executor.
pub open spec fn spec_execute(ts: Seq<TableModel>, stmt: StatementModel) -> (
    Seq<TableModel>,
    Result<OutcomeModel, SqlError>,
) {
    match stmt {
        StatementModel::CreateTable { name, columns } => (
            spec_create(ts, name, columns),
            Ok(OutcomeModel::TableCreated { name }),
        ),
        StatementModel::Insert { table, rows } => {
            let r = spec_insert_rows(ts, table, rows);
            (
                r.0,
                match r.1 {
                    Ok(u) => Ok(OutcomeModel::RowsInserted),
                    Err(e) => Err(e),
                },
            )
        },
        StatementModel::Select { table, wildcard, condition } => if !wildcard {
            (ts, Err(SqlError::UnsupportedProjection))
        } else {
            match spec_find(ts, table) {
                None => (ts, Err(SqlError::TableNotFound)),
                Some(i) => match condition {
                    None => (ts, Ok(OutcomeModel::FullTable(ts[i]))),
                    Some(c) => (
                        ts,
                        Ok(OutcomeModel::FilteredRows(spec_matching_rows(ts[i].rows, c))),
                    ),
                },
            }
        },
        StatementModel::Update { table, assignments, condition } => match condition {
            None => (ts, Err(SqlError::MissingFilter(MutationKind::Update))),
            Some(c) => {
                let r = spec_update(ts, table, spec_convert_assignments(assignments), c);
                (
                    r.0,
                    match r.1 {
                        Ok(n) => Ok(OutcomeModel::RowsUpdated { count: n }),
                        Err(e) => Err(e),
                    },
                )
            },
        },
        StatementModel::Delete { table, condition } => match condition {
            None => (ts, Err(SqlError::MissingFilter(MutationKind::Delete))),
            Some(c) => {
                let r = spec_delete(ts, table, c);
                (
                    r.0,
                    match r.1 {
                        Ok(n) => Ok(OutcomeModel::RowsDeleted { count: n }),
                        Err(e) => Err(e),
                    },
                )
            },
        },
        StatementModel::Other => (ts, Err(SqlError::UnsupportedStatement)),
    }
}

/// Coerces one literal to a cell value, by the crate's coercion rule.
pub fn literal_to_value(literal: &Literal) -> (v: ValueType)
    ensures
        v.deep_view() == spec_coerce_literal(literal.deep_view()),
{
    match literal {
        Literal::SingleQuoted(s) => ValueType::String(s.clone()),
        Literal::Number(s) => match parse_i32_digits(s.as_str()) {
            Some(value) => ValueType::Int(value),
            None => ValueType::String(s.clone()),
        },
        Literal::Other => ValueType::Null,
    }
}

/// Coerces a whole literal row.
fn coerce_row(lits: &Vec<Literal>) -> (r: Vec<ValueType>)
    ensures
        r.deep_view() == spec_coerce_row(lits.deep_view()),
{
    let mut out: Vec<ValueType> = Vec::new();
    let mut i: usize = 0;
    while i < lits.len()
        invariant
            0 <= i <= lits@.len(),
            out@.len() == i,
            forall|k: int|
                0 <= k < i ==> (#[trigger] out@[k]).deep_view() == spec_coerce_literal(
                    lits@[k].deep_view(),
                ),
        decreases lits@.len() - i,
    {
        out.push(literal_to_value(&lits[i]));
        i += 1;
    }
    proof {
        assert forall|k: int| 0 <= k < out@.len() implies out.deep_view()[k] == spec_coerce_row(
            lits.deep_view(),
        )[k] by {
            lemma_deep_index(out, k);
            lemma_deep_index(*lits, k);
        }
        assert(out.deep_view() =~= spec_coerce_row(lits.deep_view()));
    }
    out
}

/// A copy of a column-name list.
fn clone_string_vec(items: &Vec<String>) -> (r: Vec<String>)
    ensures
        r.deep_view() == items.deep_view(),
{
    let mut out: Vec<String> = Vec::new();
    let mut i: usize = 0;
    while i < items.len()
        invariant
            0 <= i <= items@.len(),
            out@.len() == i,
            forall|k: int| 0 <= k < i ==> (#[trigger] out@[k])@ == items@[k]@,
        decreases items@.len() - i,
    {
        out.push(items[i].clone());
        i += 1;
    }
    proof {
        assert forall|k: int| 0 <= k < out@.len() implies out.deep_view()[k] == items.deep_view(
        )[k] by {
            lemma_deep_index(out, k);
            lemma_deep_index(*items, k);
        }
        assert(out.deep_view() =~= items.deep_view());
    }
    out
}

/// A copy of a whole table, schema and rows.
fn clone_table(table: &Table) -> (r: Table)
    ensures
        r.deep_view() == table.deep_view(),
{
    let name = table.name.clone();
    let columns = clone_string_vec(&table.columns);
    let mut rows: Vec<Vec<ValueType>> = Vec::new();
    let mut i: usize = 0;
    while i < table.rows.len()
        invariant
            0 <= i <= table.rows@.len(),
            rows@.len() == i,
            forall|k: int|
                0 <= k < i ==> (#[trigger] rows@[k]).deep_view() == table.rows@[k].deep_view(),
        decreases table.rows@.len() - i,
    {
        rows.push(clone_row(&table.rows[i]));
        i += 1;
    }
    proof {
        assert forall|k: int| 0 <= k < rows@.len() implies rows.deep_view()[k]
            == table.rows.deep_view()[k] by {
            lemma_deep_index(rows, k);
            lemma_deep_index(table.rows, k);
        }
        assert(rows.deep_view() =~= table.rows.deep_view());
    }
    let r = Table { name, columns, rows };
    proof {
        assert(r.deep_view() =~= table.deep_view());
    }
    r
}

/// The store assignments of an UPDATE's SET clauses.
fn convert_assignments(assignments: &Vec<SetClause>) -> (r: Vec<Assignment>)
    ensures
        r.deep_view() == spec_convert_assignments(assignments.deep_view()),
{
    let mut out: Vec<Assignment> = Vec::new();
    if assignments.len() > 0 {
        proof {
            lemma_deep_index(*assignments, 0);
        }
        match &assignments[0].value {
            Literal::SingleQuoted(s) => {
                out.push(Assignment { column: 0, value: ValueType::String(s.clone()) });
            },
            _ => {},
        }
    }
    proof {
        if out@.len() > 0 {
            lemma_deep_index(out, 0);
        }
        assert(out.deep_view() =~= spec_convert_assignments(assignments.deep_view()));
    }
    out
}

/// Executes one parsed statement against the store, as the dispatch
/// table [`spec_execute`] prescribes: CREATE registers (or replaces) a
/// table, INSERT coerces and appends the statement's value rows, SELECT
/// with a `*` projection reads the table whole or filtered, UPDATE and
/// DELETE demand a WHERE clause and rewrite or remove the matching rows,
/// and anything else is rejected.
#[verifier::loop_isolation(false)]
pub fn execute_statement(db: &mut Database, statement: &Statement) -> (r: Result<
    ExecOutcome,
    SqlError,
>)
    requires
        old(db).wf(),
    ensures
        final(db).wf(),
        final(db).deep_view() == spec_execute(old(db).deep_view(), statement.deep_view()).0,
        match r {
            Ok(out) => spec_execute(old(db).deep_view(), statement.deep_view()).1 == Ok::<
                OutcomeModel,
                SqlError,
            >(out.deep_view()),
            Err(e) => spec_execute(old(db).deep_view(), statement.deep_view()).1 == Err::<
                OutcomeModel,
                SqlError,
            >(e),
        },
{
    match statement {
        Statement::CreateTable { name, columns } => {
            let cols = clone_string_vec(columns);
            db.create_table(name.as_str(), cols);
            Ok(ExecOutcome::TableCreated { name: name.clone() })
        },
        Statement::Insert { table, rows } => {
            let ghost before = db.deep_view();
            let ghost all_rows = rows.deep_view();
            let n = rows.len();
            let mut k: usize = 0;
            proof {
                assert(all_rows.subrange(0, n as int) =~= all_rows);
            }
            while k < n
                invariant
                    0 <= k <= n,
                    n == rows@.len(),
                    all_rows == rows.deep_view(),
                    before == old(db).deep_view(),
                    db.wf(),
                    spec_insert_rows(db.deep_view(), table@, all_rows.subrange(k as int, n as int))
                        == spec_insert_rows(before, table@, all_rows),
                decreases n - k,
            {
                let ghost remaining = all_rows.subrange(k as int, n as int);
                proof {
                    lemma_deep_index(*rows, k as int);
                    assert(remaining[0] == all_rows[k as int]);
                    assert(remaining.drop_first() =~= all_rows.subrange(k + 1, n as int));
                }
                let vals = coerce_row(&rows[k]);
                let ghost cur = db.deep_view();
                let ghost coerced = vals.deep_view();
                match db.insert_into(table.as_str(), vals) {
                    Ok(u) => {},
                    Err(e) => {
                        proof {
                            let first = spec_insert(cur, table@, spec_coerce_row(remaining[0]));
                            assert(coerced == spec_coerce_row(remaining[0]));
                            assert(first.1 == Err::<(), SqlError>(e));
                            assert(first.0 == cur);
                            assert(spec_insert_rows(cur, table@, remaining) == (
                                cur,
                                Err::<(), SqlError>(e),
                            ));
                            assert(db.deep_view() == cur);
                        }
                        return Err(e);
                    },
                }
                k += 1;
            }
            proof {
                assert(all_rows.subrange(n as int, n as int) =~= Seq::<Seq<LiteralModel>>::empty());
            }
            Ok(ExecOutcome::RowsInserted)
        },
        Statement::Select { table, wildcard, condition } => {
            if !*wildcard {
                return Err(SqlError::UnsupportedProjection);
            }
            match condition {
                None => match db.select_from(table.as_str()) {
                    Ok(t) => Ok(ExecOutcome::FullTable(clone_table(t))),
                    Err(e) => Err(e),
                },
                Some(c) => match db.select_with_condition(table.as_str(), c) {
                    Ok(rows) => Ok(ExecOutcome::FilteredRows(rows)),
                    Err(e) => Err(e),
                },
            }
        },
        Statement::Update { table, assignments, condition } => match condition {
            None => Err(SqlError::MissingFilter(MutationKind::Update)),
            Some(c) => {
                let assigns = convert_assignments(assignments);
                match db.update_rows(table.as_str(), &assigns, c) {
                    Ok(count) => Ok(ExecOutcome::RowsUpdated { count }),
                    Err(e) => Err(e),
                }
            },
        },
        Statement::Delete { table, condition } => match condition {
            None => Err(SqlError::MissingFilter(MutationKind::Delete)),
            Some(c) => match db.delete_rows(table.as_str(), c) {
                Ok(count) => Ok(ExecOutcome::RowsDeleted { count }),
                Err(e) => Err(e),
            },
        },
        Statement::Other => Err(SqlError::UnsupportedStatement),
    }
}

/// Executes the first statement of a parsed input; an input that parsed
/// to zero statements is rejected, and any further statements are
/// ignored.
pub fn execute_statements(db: &mut Database, statements: &Vec<Statement>) -> (r: Result<
    ExecOutcome,
    SqlError,
>)
    requires
        old(db).wf(),
    ensures
        final(db).wf(),
        statements@.len() == 0 ==> (r matches Err(SqlError::EmptyInput)) && final(db).deep_view()
            == old(db).deep_view(),
        statements@.len() > 0 ==> final(db).deep_view() == spec_execute(
            old(db).deep_view(),
            statements@[0].deep_view(),
        ).0 && (match r {
            Ok(out) => spec_execute(old(db).deep_view(), statements@[0].deep_view()).1 == Ok::<
                OutcomeModel,
                SqlError,
            >(out.deep_view()),
            Err(e) => spec_execute(old(db).deep_view(), statements@[0].deep_view()).1 == Err::<
                OutcomeModel,
                SqlError,
            >(e),
        }),
{
    if statements.len() == 0 {
        Err(SqlError::EmptyInput)
    } else {
        execute_statement(db, &statements[0])
    }
}

} // verus!
