//! Laws of the store and its executor, stated and proved over the spec
//! transitions that the executable functions are verified against.

use vstd::prelude::*;
use crate::ast::{AssignmentModel, CondModel, LiteralModel, StatementModel};
use crate::db::{
    lemma_spec_find_first, lemma_spec_find_properties, spec_count_matching,
    spec_create, spec_delete, spec_find, spec_insert, spec_remaining_rows, spec_update,
    spec_updated_rows, tables_wf, TableModel,
};
use crate::error::{MutationKind, SqlError};
use crate::predicate::spec_row_matches;
use crate::query::{spec_coerce_row, spec_execute, spec_insert_rows, OutcomeModel};
use crate::value::ValueModel;

verus! {

/// A matching-row count is never negative.
pub proof fn lemma_count_nonneg(rows: Seq<Seq<ValueModel>>, cond: CondModel)
    ensures
        spec_count_matching(rows, cond) >= 0,
    decreases rows.len(),
{
    if rows.len() > 0 {
        lemma_count_nonneg(rows.drop_last(), cond);
    }
}

/// A matching-row count of zero means no row matches.
pub proof fn lemma_count_zero_no_match(rows: Seq<Seq<ValueModel>>, cond: CondModel)
    requires
        spec_count_matching(rows, cond) == 0,
    ensures
        forall|k: int| 0 <= k < rows.len() ==> !spec_row_matches(#[trigger] rows[k], cond),
    decreases rows.len(),
{
    if rows.len() > 0 {
        lemma_count_nonneg(rows.drop_last(), cond);
        lemma_count_zero_no_match(rows.drop_last(), cond);
        assert forall|k: int| 0 <= k < rows.len() implies !spec_row_matches(
            #[trigger] rows[k],
            cond,
        ) by {
            if k < rows.len() - 1 {
                assert(rows.drop_last()[k] == rows[k]);
            } else {
                assert(rows[k] == rows.last());
            }
        }
    }
}

/// No row that survives a delete matches the predicate.
pub proof fn lemma_remaining_unmatched(rows: Seq<Seq<ValueModel>>, cond: CondModel)
    ensures
        forall|k: int|
            0 <= k < spec_remaining_rows(rows, cond).len() ==> !spec_row_matches(
                #[trigger] spec_remaining_rows(rows, cond)[k],
                cond,
            ),
    decreases rows.len(),
{
    if rows.len() > 0 {
        lemma_remaining_unmatched(rows.drop_last(), cond);
        let rest = spec_remaining_rows(rows.drop_last(), cond);
        let res = spec_remaining_rows(rows, cond);
        assert forall|k: int| 0 <= k < res.len() implies !spec_row_matches(
            #[trigger] res[k],
            cond,
        ) by {
            if spec_row_matches(rows.last(), cond) {
                assert(res[k] == rest[k]);
            } else {
                if k < rest.len() {
                    assert(res[k] == rest[k]);
                } else {
                    assert(res[k] == rows.last());
                }
            }
        }
    }
}

/// The rows a delete keeps and the rows it counts as removed add up to
/// all the rows.
pub proof fn lemma_remaining_count(rows: Seq<Seq<ValueModel>>, cond: CondModel)
    ensures
        spec_remaining_rows(rows, cond).len() + spec_count_matching(rows, cond) == rows.len(),
    decreases rows.len(),
{
    if rows.len() > 0 {
        lemma_remaining_count(rows.drop_last(), cond);
    }
}

/// Creating a table and then inserting a row whose value count matches
/// the column count always succeeds, and the fresh table ends with
/// exactly one row: its count grew from zero by one.
pub proof fn lemma_create_then_insert(
    ts: Seq<TableModel>,
    name: Seq<char>,
    columns: Seq<Seq<char>>,
    values: Seq<ValueModel>,
)
    requires
        values.len() == columns.len(),
    ensures
        ({
            let created = spec_create(ts, name, columns);
            let inserted = spec_insert(created, name, values);
            &&& inserted.1 == Ok::<(), SqlError>(())
            &&& match spec_find(created, name) {
                Some(i) => created[i].rows.len() == 0 && inserted.0[i].rows.len() == created[
                    i
                ].rows.len() + 1,
                None => false,
            }
        }),
{
    let fresh = TableModel { name, columns, rows: Seq::empty() };
    let created = spec_create(ts, name, columns);
    lemma_spec_find_properties(ts, name);
    match spec_find(ts, name) {
        Some(i) => {
            assert(created == ts.update(i, fresh));
            assert(created[i] == fresh);
            lemma_spec_find_first(created, name, i);
        },
        None => {
            assert(created == ts.push(fresh));
            assert(created[ts.len() as int] == fresh);
            lemma_spec_find_first(created, name, ts.len() as int);
        },
    }
}

/// Inserting a row whose value count differs from the column count
/// always fails with a schema mismatch and leaves the store — its row
/// counts included — unchanged.
pub proof fn lemma_insert_arity_mismatch(
    ts: Seq<TableModel>,
    name: Seq<char>,
    values: Seq<ValueModel>,
)
    requires
        match spec_find(ts, name) {
            Some(i) => values.len() != ts[i].columns.len(),
            None => false,
        },
    ensures
        spec_insert(ts, name, values) == (ts, Err::<(), SqlError>(SqlError::SchemaMismatch)),
{
}

/// Any statement aimed at a table name not present in the store fails
/// with `TableNotFound` and mutates nothing: an insert with at least one
/// value row, a wildcard select, filtered or not, and an update or
/// delete carrying a WHERE clause.
pub proof fn lemma_absent_table_rejected(ts: Seq<TableModel>, stmt: StatementModel)
    requires
        match stmt {
            StatementModel::Insert { table, rows } => spec_find(ts, table) is None && rows.len()
                > 0,
            StatementModel::Select { table, wildcard, condition } => spec_find(ts, table) is None
                && wildcard,
            StatementModel::Update { table, assignments, condition } => spec_find(ts, table)
                is None && condition is Some,
            StatementModel::Delete { table, condition } => spec_find(ts, table) is None
                && condition is Some,
            _ => false,
        },
    ensures
        spec_execute(ts, stmt).0 == ts,
        spec_execute(ts, stmt).1 == Err::<OutcomeModel, SqlError>(SqlError::TableNotFound),
{
}

/// An UPDATE or DELETE without a WHERE clause fails with the missing
/// filter error and mutates nothing.
pub proof fn lemma_unfiltered_mutation_rejected(ts: Seq<TableModel>, stmt: StatementModel)
    requires
        match stmt {
            StatementModel::Update { table, assignments, condition } => condition is None,
            StatementModel::Delete { table, condition } => condition is None,
            _ => false,
        },
    ensures
        spec_execute(ts, stmt).0 == ts,
        match stmt {
            StatementModel::Update { .. } => spec_execute(ts, stmt).1 == Err::<
                OutcomeModel,
                SqlError,
            >(SqlError::MissingFilter(MutationKind::Update)),
            _ => spec_execute(ts, stmt).1 == Err::<OutcomeModel, SqlError>(
                SqlError::MissingFilter(MutationKind::Delete),
            ),
        },
{
}

/// An update whose predicate matches no row reports a count of zero and
/// leaves the store unchanged, every row exactly as it was.
pub proof fn lemma_update_empty_match(
    ts: Seq<TableModel>,
    name: Seq<char>,
    assigns: Seq<AssignmentModel>,
    cond: CondModel,
)
    requires
        match spec_find(ts, name) {
            Some(i) => spec_count_matching(ts[i].rows, cond) == 0,
            None => false,
        },
    ensures
        spec_update(ts, name, assigns, cond) == (ts, Ok::<int, SqlError>(0)),
{
    lemma_spec_find_properties(ts, name);
    match spec_find(ts, name) {
        Some(i) => {
            let rows = ts[i].rows;
            lemma_count_zero_no_match(rows, cond);
            let rewritten = spec_updated_rows(rows, assigns, cond);
            assert forall|k: int| 0 <= k < rows.len() implies rewritten[k] == rows[k] by {
                assert(!spec_row_matches(rows[k], cond));
            }
            assert(rewritten =~= rows);
            let t = TableModel { name: ts[i].name, columns: ts[i].columns, rows: rewritten };
            assert(t =~= ts[i]);
            assert(ts.update(i, t) =~= ts);
        },
        None => {},
    }
}

/// Deleting and then reading the table back never shows a row that
/// matched the predicate; the reported count is exactly the number of
/// rows removed, and the table is still found under its name.
pub proof fn lemma_delete_then_get(ts: Seq<TableModel>, name: Seq<char>, cond: CondModel)
    requires
        spec_find(ts, name) is Some,
    ensures
        match spec_find(ts, name) {
            Some(i) => ({
                let after = spec_delete(ts, name, cond);
                &&& spec_find(after.0, name) == Some(i)
                &&& forall|k: int|
                    0 <= k < after.0[i].rows.len() ==> !spec_row_matches(
                        #[trigger] after.0[i].rows[k],
                        cond,
                    )
                &&& after.1 == Ok::<int, SqlError>(ts[i].rows.len() - after.0[i].rows.len())
            }),
            None => false,
        },
{
    lemma_spec_find_properties(ts, name);
    match spec_find(ts, name) {
        Some(i) => {
            let rows = ts[i].rows;
            let after = spec_delete(ts, name, cond);
            lemma_remaining_unmatched(rows, cond);
            lemma_remaining_count(rows, cond);
            assert(after.0[i].name == name);
            assert forall|j: int| 0 <= j < i implies (#[trigger] after.0[j]).name != name by {
                assert(after.0[j] == ts[j]);
            }
            lemma_spec_find_first(after.0, name, i);
        },
        None => {},
    }
}

/// Inserting value rows `r1, r2, ...` in order appends exactly their
/// coerced cells, in that order, after the rows the table already held:
/// an unfiltered select then returns the old rows followed by
/// `r1, r2, ...`, insertion order preserved.
pub proof fn lemma_insert_preserves_order(
    ts: Seq<TableModel>,
    table: Seq<char>,
    rows: Seq<Seq<LiteralModel>>,
)
    requires
        match spec_find(ts, table) {
            Some(i) => forall|k: int|
                0 <= k < rows.len() ==> (#[trigger] rows[k]).len() == ts[i].columns.len(),
            None => false,
        },
    ensures
        ({
            let result = spec_insert_rows(ts, table, rows);
            match spec_find(ts, table) {
                Some(i) => {
                    &&& result.1 == Ok::<(), SqlError>(())
                    &&& result.0 == ts.update(
                        i,
                        TableModel {
                            name: ts[i].name,
                            columns: ts[i].columns,
                            rows: ts[i].rows + rows.map_values(
                                |r: Seq<LiteralModel>| spec_coerce_row(r),
                            ),
                        },
                    )
                },
                None => false,
            }
        }),
    decreases rows.len(),
{
    lemma_spec_find_properties(ts, table);
    let i = spec_find(ts, table)->Some_0;
    let coerced = rows.map_values(|r: Seq<LiteralModel>| spec_coerce_row(r));
    if rows.len() == 0 {
        assert(ts[i].rows + coerced =~= ts[i].rows);
        let t = TableModel { name: ts[i].name, columns: ts[i].columns, rows: ts[i].rows + coerced };
        assert(t =~= ts[i]);
        assert(ts.update(i, t) =~= ts);
    } else {
        let head = spec_coerce_row(rows[0]);
        assert(head.len() == rows[0].len());
        let first = spec_insert(ts, table, head);
        let t1 = TableModel {
            name: ts[i].name,
            columns: ts[i].columns,
            rows: ts[i].rows.push(head),
        };
        assert(first == (ts.update(i, t1), Ok::<(), SqlError>(())));
        let ts1 = ts.update(i, t1);
        assert(ts1[i].name == table);
        assert forall|j: int| 0 <= j < i implies (#[trigger] ts1[j]).name != table by {
            assert(ts1[j] == ts[j]);
        }
        lemma_spec_find_first(ts1, table, i);
        let rest = rows.drop_first();
        assert forall|k: int| 0 <= k < rest.len() implies (#[trigger] rest[k]).len() == ts1[
            i
        ].columns.len() by {
            assert(rest[k] == rows[k + 1]);
        }
        lemma_insert_preserves_order(ts1, table, rest);
        let rest_coerced = rest.map_values(|r: Seq<LiteralModel>| spec_coerce_row(r));
        let t2 = TableModel {
            name: ts1[i].name,
            columns: ts1[i].columns,
            rows: ts1[i].rows + rest_coerced,
        };
        assert(spec_insert_rows(ts, table, rows) == (ts1.update(i, t2), Ok::<(), SqlError>(())));
        assert forall|k: int| 0 <= k < coerced.len() implies coerced[k] == spec_coerce_row(
            rows[k],
        ) by {}
        assert(ts[i].rows.push(head) + rest_coerced =~= ts[i].rows + coerced) by {
            assert forall|k: int|
                0 <= k < rest_coerced.len() implies rest_coerced[k] == coerced[k + 1] by {
                assert(rest[k] == rows[k + 1]);
            }
        }
        let t = TableModel { name: ts[i].name, columns: ts[i].columns, rows: ts[i].rows + coerced };
        assert(t2 =~= t);
        assert(ts1.update(i, t2) =~= ts.update(i, t));
    }
}

} // verus!
