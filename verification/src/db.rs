//! Tables and the store that owns them.
//!
//! A `Table` owns an ordered column-name schema and an ordered sequence of
//! rows; every row's length equals the column count, and violating inserts
//! are rejected, never truncated or padded. A `Database` owns the tables,
//! at most one per name. Rows handed out by filtered selection are copies,
//! never aliases into live storage.

use vstd::prelude::*;
use crate::ast::{Assignment, AssignmentModel, CondExpr, CondModel};
use crate::error::SqlError;
use crate::predicate::{matches_condition, spec_row_matches};
use crate::value::{ValueModel, ValueType};

verus! {

/// A named table: its schema and its rows, insertion order preserved.
#[derive(Debug)]
pub struct Table {
    pub name: String,
    pub columns: Vec<String>,
    pub rows: Vec<Vec<ValueType>>,
}

/// The mathematical model of a table.
#[verifier::ext_equal]
pub struct TableModel {
    pub name: Seq<char>,
    pub columns: Seq<Seq<char>>,
    pub rows: Seq<Seq<ValueModel>>,
}

impl DeepView for Table {
    type V = TableModel;

    open spec fn deep_view(&self) -> TableModel {
        TableModel {
            name: self.name@,
            columns: self.columns.deep_view(),
            rows: self.rows.deep_view(),
        }
    }
}

/// The store: zero or more tables, keyed by their names.
pub struct Database {
    pub tables: Vec<Table>,
}

impl DeepView for Database {
    type V = Seq<TableModel>;

    open spec fn deep_view(&self) -> Seq<TableModel> {
        self.tables.deep_view()
    }
}

/// A vector's deep view indexes to its elements' deep views.
pub proof fn lemma_deep_index<T: DeepView>(v: Vec<T>, i: int)
    requires
        0 <= i < v@.len(),
    ensures
        v.deep_view()[i] == v@[i].deep_view(),
{
}

/// Pushing onto a vector pushes onto its deep view.
pub proof fn lemma_deep_push<T: DeepView>(old_v: Vec<T>, new_v: Vec<T>, x: T)
    requires
        new_v@ == old_v@.push(x),
    ensures
        new_v.deep_view() =~= old_v.deep_view().push(x.deep_view()),
{
    assert forall|k: int| 0 <= k < new_v@.len() implies new_v.deep_view()[k] == old_v.deep_view(
    ).push(x.deep_view())[k] by {
        lemma_deep_index(new_v, k);
        if k < old_v@.len() {
            assert(new_v@[k] == old_v@[k]);
            lemma_deep_index(old_v, k);
        } else {
            assert(new_v@[k] == x);
        }
    }
}

/// Replacing one element of a vector updates its deep view at that index.
pub proof fn lemma_deep_update<T: DeepView>(old_v: Vec<T>, new_v: Vec<T>, i: int, x: T)
    requires
        0 <= i < old_v@.len(),
        new_v@ == old_v@.update(i, x),
    ensures
        new_v.deep_view() =~= old_v.deep_view().update(i, x.deep_view()),
{
    assert forall|k: int| 0 <= k < new_v@.len() implies new_v.deep_view()[k] == old_v.deep_view(
    ).update(i, x.deep_view())[k] by {
        lemma_deep_index(new_v, k);
        if k != i {
            assert(new_v@[k] == old_v@[k]);
            lemma_deep_index(old_v, k);
        } else {
            assert(new_v@[k] == x);
        }
    }
}

/// Every row of `t` has exactly as many cells as `t` has columns.
pub open spec fn table_wf(t: TableModel) -> bool {
    forall|i: int| 0 <= i < t.rows.len() ==> (#[trigger] t.rows[i]).len() == t.columns.len()
}

/// Every table is well-formed and no two tables share a name.
pub open spec fn tables_wf(ts: Seq<TableModel>) -> bool {
    &&& forall|i: int| 0 <= i < ts.len() ==> table_wf(#[trigger] ts[i])
    &&& forall|i: int, j: int| 0 <= i < j < ts.len() ==> ts[i].name != ts[j].name
}

/// The index of the first table named `name`, if any. With distinct names
/// it is the index of the one such table.
pub open spec fn spec_find(ts: Seq<TableModel>, name: Seq<char>) -> Option<int>
    decreases ts.len(),
{
    if ts.len() == 0 {
        None
    } else if ts[0].name == name {
        Some(0)
    } else {
        match spec_find(ts.drop_first(), name) {
            None => None,
            Some(i) => Some(i + 1),
        }
    }
}

/// What `spec_find` returns: a valid index of a table with the sought
/// name and no earlier match, or nothing when no table matches.
pub proof fn lemma_spec_find_properties(ts: Seq<TableModel>, name: Seq<char>)
    ensures
        match spec_find(ts, name) {
            None => forall|j: int| 0 <= j < ts.len() ==> (#[trigger] ts[j]).name != name,
            Some(i) => 0 <= i < ts.len() && ts[i].name == name && forall|j: int|
                0 <= j < i ==> (#[trigger] ts[j]).name != name,
        },
    decreases ts.len(),
{
    if ts.len() > 0 && ts[0].name != name {
        let rest = ts.drop_first();
        lemma_spec_find_properties(rest, name);
        match spec_find(rest, name) {
            None => {
                assert forall|j: int| 0 <= j < ts.len() implies (#[trigger] ts[j]).name
                    != name by {
                    if j > 0 {
                        assert(rest[j - 1] == ts[j]);
                    }
                }
            },
            Some(i) => {
                assert(rest[i] == ts[i + 1]);
                assert forall|j: int| 0 <= j < i + 1 implies (#[trigger] ts[j]).name != name by {
                    if j > 0 {
                        assert(rest[j - 1] == ts[j]);
                    }
                }
            },
        }
    }
}

/// When `i` is the first index whose table is named `name`, `spec_find`
/// returns it.
pub proof fn lemma_spec_find_first(ts: Seq<TableModel>, name: Seq<char>, i: int)
    requires
        0 <= i < ts.len(),
        ts[i].name == name,
        forall|j: int| 0 <= j < i ==> (#[trigger] ts[j]).name != name,
    ensures
        spec_find(ts, name) == Some(i),
    decreases ts.len(),
{
    if i > 0 {
        let rest = ts.drop_first();
        assert(rest[i - 1] == ts[i]);
        assert forall|j: int| 0 <= j < i - 1 implies (#[trigger] rest[j]).name != name by {
            assert(rest[j] == ts[j + 1]);
        }
        lemma_spec_find_first(rest, name, i - 1);
    }
}

/// When no table is named `name`, `spec_find` returns nothing.
pub proof fn lemma_spec_find_absent(ts: Seq<TableModel>, name: Seq<char>)
    requires
        forall|j: int| 0 <= j < ts.len() ==> (#[trigger] ts[j]).name != name,
    ensures
        spec_find(ts, name) is None,
    decreases ts.len(),
{
    if ts.len() > 0 {
        let rest = ts.drop_first();
        assert forall|j: int| 0 <= j < rest.len() implies (#[trigger] rest[j]).name != name by {
            assert(rest[j] == ts[j + 1]);
        }
        lemma_spec_find_absent(rest, name);
    }
}

/// Creating a table registers an empty table under `name` with the given
/// schema; an existing table of that name is replaced, its rows lost.
pub open spec fn spec_create(
    ts: Seq<TableModel>,
    name: Seq<char>,
    columns: Seq<Seq<char>>,
) -> Seq<TableModel> {
    let t = TableModel { name, columns, rows: Seq::empty() };
    match spec_find(ts, name) {
        Some(i) => ts.update(i, t),
        None => ts.push(t),
    }
}

/// Inserting appends the row to the named table when its length matches
/// the schema; otherwise the store is unchanged and an error names the
/// reason.
pub open spec fn spec_insert(
    ts: Seq<TableModel>,
    name: Seq<char>,
    row: Seq<ValueModel>,
) -> (Seq<TableModel>, Result<(), SqlError>) {
    match spec_find(ts, name) {
        None => (ts, Err(SqlError::TableNotFound)),
        Some(i) => if row.len() != ts[i].columns.len() {
            (ts, Err(SqlError::SchemaMismatch))
        } else {
            let t = TableModel {
                name: ts[i].name,
                columns: ts[i].columns,
                rows: ts[i].rows.push(row),
            };
            (ts.update(i, t), Ok(()))
        },
    }
}

/// The rows of `rows` that satisfy `cond`, in their original order.
pub open spec fn spec_matching_rows(
    rows: Seq<Seq<ValueModel>>,
    cond: CondModel,
) -> Seq<Seq<ValueModel>>
    decreases rows.len(),
{
    if rows.len() == 0 {
        Seq::empty()
    } else {
        let rest = spec_matching_rows(rows.drop_last(), cond);
        if spec_row_matches(rows.last(), cond) {
            rest.push(rows.last())
        } else {
            rest
        }
    }
}

/// The rows of `rows` that do not satisfy `cond`, in their original order.
pub open spec fn spec_remaining_rows(
    rows: Seq<Seq<ValueModel>>,
    cond: CondModel,
) -> Seq<Seq<ValueModel>>
    decreases rows.len(),
{
    if rows.len() == 0 {
        Seq::empty()
    } else {
        let rest = spec_remaining_rows(rows.drop_last(), cond);
        if spec_row_matches(rows.last(), cond) {
            rest
        } else {
            rest.push(rows.last())
        }
    }
}

/// How many rows of `rows` satisfy `cond`.
pub open spec fn spec_count_matching(rows: Seq<Seq<ValueModel>>, cond: CondModel) -> int
    decreases rows.len(),
{
    if rows.len() == 0 {
        0int
    } else {
        spec_count_matching(rows.drop_last(), cond) + if spec_row_matches(rows.last(), cond) {
            1int
        } else {
            0int
        }
    }
}

/// Applies `assigns` to `row` in order; an assignment whose column index
/// lies outside the row leaves the row as it was.
pub open spec fn spec_apply_assignments(
    row: Seq<ValueModel>,
    assigns: Seq<AssignmentModel>,
) -> Seq<ValueModel>
    decreases assigns.len(),
{
    if assigns.len() == 0 {
        row
    } else {
        let prev = spec_apply_assignments(row, assigns.drop_last());
        let a = assigns.last();
        if a.column < prev.len() {
            prev.update(a.column as int, a.value)
        } else {
            prev
        }
    }
}

/// Applying assignments never changes a row's length.
pub proof fn lemma_apply_assignments_len(row: Seq<ValueModel>, assigns: Seq<AssignmentModel>)
    ensures
        spec_apply_assignments(row, assigns).len() == row.len(),
    decreases assigns.len(),
{
    if assigns.len() > 0 {
        lemma_apply_assignments_len(row, assigns.drop_last());
    }
}

/// The row an update leaves at the place of `row`.
pub open spec fn spec_updated_row(
    row: Seq<ValueModel>,
    assigns: Seq<AssignmentModel>,
    cond: CondModel,
) -> Seq<ValueModel> {
    if spec_row_matches(row, cond) {
        spec_apply_assignments(row, assigns)
    } else {
        row
    }
}

/// Each row that satisfies `cond` is replaced by the row with `assigns`
/// applied; the rest stay as they are.
pub open spec fn spec_updated_rows(
    rows: Seq<Seq<ValueModel>>,
    assigns: Seq<AssignmentModel>,
    cond: CondModel,
) -> Seq<Seq<ValueModel>> {
    rows.map_values(|row: Seq<ValueModel>| spec_updated_row(row, assigns, cond))
}

/// Updating rewrites the matching rows of the named table and reports how
/// many rows matched.
pub open spec fn spec_update(
    ts: Seq<TableModel>,
    name: Seq<char>,
    assigns: Seq<AssignmentModel>,
    cond: CondModel,
) -> (Seq<TableModel>, Result<int, SqlError>) {
    match spec_find(ts, name) {
        None => (ts, Err(SqlError::TableNotFound)),
        Some(i) => {
            let t = TableModel {
                name: ts[i].name,
                columns: ts[i].columns,
                rows: spec_updated_rows(ts[i].rows, assigns, cond),
            };
            (ts.update(i, t), Ok(spec_count_matching(ts[i].rows, cond)))
        },
    }
}

/// Deleting removes the matching rows of the named table, preserving the
/// order of the remainder, and reports how many rows were removed.
pub open spec fn spec_delete(
    ts: Seq<TableModel>,
    name: Seq<char>,
    cond: CondModel,
) -> (Seq<TableModel>, Result<int, SqlError>) {
    match spec_find(ts, name) {
        None => (ts, Err(SqlError::TableNotFound)),
        Some(i) => {
            let t = TableModel {
                name: ts[i].name,
                columns: ts[i].columns,
                rows: spec_remaining_rows(ts[i].rows, cond),
            };
            (ts.update(i, t), Ok(spec_count_matching(ts[i].rows, cond)))
        },
    }
}

/// Rows that survive a delete keep their length.
pub proof fn lemma_remaining_rows_wf(rows: Seq<Seq<ValueModel>>, cond: CondModel, width: int)
    requires
        forall|i: int| 0 <= i < rows.len() ==> (#[trigger] rows[i]).len() == width,
    ensures
        forall|i: int|
            0 <= i < spec_remaining_rows(rows, cond).len() ==> (#[trigger] spec_remaining_rows(
                rows,
                cond,
            )[i]).len() == width,
    decreases rows.len(),
{
    if rows.len() > 0 {
        assert(forall|i: int|
            0 <= i < rows.drop_last().len() ==> (#[trigger] rows.drop_last()[i]).len() == width);
        lemma_remaining_rows_wf(rows.drop_last(), cond, width);
        let rest = spec_remaining_rows(rows.drop_last(), cond);
        let res = spec_remaining_rows(rows, cond);
        if !spec_row_matches(rows.last(), cond) {
            assert(res == rest.push(rows.last()));
            assert(rows[rows.len() - 1].len() == width);
            assert forall|i: int| 0 <= i < res.len() implies (#[trigger] res[i]).len() == width by {
                if i < rest.len() {
                    assert(res[i] == rest[i]);
                } else {
                    assert(res[i] == rows.last());
                }
            }
        }
    }
}

/// A copy of a row, cell by cell.
pub(crate) fn clone_row(row: &Vec<ValueType>) -> (r: Vec<ValueType>)
    ensures
        r.deep_view() == row.deep_view(),
{
    let mut out: Vec<ValueType> = Vec::new();
    let mut i: usize = 0;
    while i < row.len()
        invariant
            0 <= i <= row@.len(),
            out@.len() == i,
            forall|k: int| 0 <= k < i ==> (#[trigger] out@[k]).deep_view() == row@[k].deep_view(),
        decreases row@.len() - i,
    {
        out.push(row[i].clone());
        i += 1;
    }
    proof {
        assert forall|k: int| 0 <= k < out@.len() implies out.deep_view()[k] == row.deep_view(
        )[k] by {
            lemma_deep_index(out, k);
            lemma_deep_index(*row, k);
        }
        assert(out.deep_view() =~= row.deep_view());
    }
    out
}

/// Applies `assignments` to `row` in order; an assignment aimed outside
/// the row leaves it unchanged.
fn apply_assignments(row: &mut Vec<ValueType>, assignments: &Vec<Assignment>)
    ensures
        final(row).deep_view() == spec_apply_assignments(
            old(row).deep_view(),
            assignments.deep_view(),
        ),
{
    let mut k: usize = 0;
    let n = assignments.len();
    while k < n
        invariant
            0 <= k <= n,
            n == assignments@.len(),
            row.deep_view() == spec_apply_assignments(
                old(row).deep_view(),
                assignments.deep_view().subrange(0, k as int),
            ),
        decreases n - k,
    {
        let ghost prefix = assignments.deep_view().subrange(0, k as int);
        let ghost extended = assignments.deep_view().subrange(0, k + 1);
        proof {
            assert(extended.drop_last() =~= prefix);
            lemma_deep_index(*assignments, k as int);
            assert(extended.last() == assignments@[k as int].deep_view());
        }
        let column = assignments[k].column;
        if column < row.len() {
            let ghost before_row = *row;
            row[column] = assignments[k].value.clone();
            proof {
                lemma_deep_update(before_row, *row, column as int, row@[column as int]);
                assert(row@[column as int].deep_view() == assignments@[
                    k as int
                ].value.deep_view());
                assert(row.deep_view() =~= spec_apply_assignments(
                    old(row).deep_view(),
                    extended,
                ));
            }
        } else {
            proof {
                assert(row.deep_view().len() == row@.len());
                assert(row.deep_view() == spec_apply_assignments(old(row).deep_view(), extended));
            }
        }
        k += 1;
    }
    proof {
        assert(assignments.deep_view().subrange(0, n as int) =~= assignments.deep_view());
    }
}

impl Database {
    /// The store invariant: well-formed tables with distinct names.
    pub open spec fn wf(&self) -> bool {
        tables_wf(self.deep_view())
    }

    /// A fresh store with no tables.
    pub fn new() -> (db: Database)
        ensures
            db.deep_view().len() == 0,
            db.wf(),
    {
        let db = Database { tables: Vec::new() };
        proof {
            assert(db.deep_view() =~= Seq::<TableModel>::empty());
        }
        db
    }

    /// The index of the table named `name`, as `spec_find` gives it.
    fn find_index(&self, name: &str) -> (r: Option<usize>)
        ensures
            match r {
                Some(i) => spec_find(self.deep_view(), name@) == Some(i as int),
                None => spec_find(self.deep_view(), name@) is None,
            },
    {
        let key: String = name.to_owned();
        let n = self.tables.len();
        let mut i: usize = 0;
        while i < n
            invariant
                0 <= i <= n,
                n == self.tables@.len(),
                key@ == name@,
                forall|j: int| 0 <= j < i ==> (#[trigger] self.deep_view()[j]).name != name@,
            decreases n - i,
        {
            proof {
                lemma_deep_index(self.tables, i as int);
            }
            if self.tables[i].name == key {
                proof {
                    assert(self.deep_view()[i as int].name == name@);
                    lemma_spec_find_first(self.deep_view(), name@, i as int);
                }
                return Some(i);
            }
            i += 1;
        }
        proof {
            lemma_spec_find_absent(self.deep_view(), name@);
        }
        None
    }

    /// Registers an empty table under `name` with schema `columns`. A
    /// table already carrying that name is replaced and its rows are
    /// lost — the store's deliberate, destructive re-create policy.
    pub fn create_table(&mut self, name: &str, columns: Vec<String>)
        requires
            old(self).wf(),
        ensures
            final(self).wf(),
            final(self).deep_view() == spec_create(
                old(self).deep_view(),
                name@,
                columns.deep_view(),
            ),
    {
        let ghost before = self.deep_view();
        let ghost gcolumns = columns;
        let table = Table { name: name.to_owned(), columns, rows: Vec::new() };
        let ghost gtable = table;
        let ghost tm = table.deep_view();
        proof {
            assert(tm.rows =~= Seq::<Seq<ValueModel>>::empty());
            assert(tm =~= TableModel {
                name: name@,
                columns: gcolumns.deep_view(),
                rows: Seq::empty(),
            });
            lemma_spec_find_properties(before, name@);
        }
        match self.find_index(name) {
            Some(i) => {
                self.tables[i] = table;
                proof {
                    lemma_deep_update(old(self).tables, self.tables, i as int, gtable);
                    assert(self.deep_view() =~= spec_create(before, name@, gcolumns.deep_view()));
                }
            },
            None => {
                self.tables.push(table);
                proof {
                    lemma_deep_push(old(self).tables, self.tables, gtable);
                    assert(self.deep_view() =~= spec_create(before, name@, gcolumns.deep_view()));
                }
            },
        }
    }

    /// Appends `values` as a new row of the named table. Fails without
    /// mutating anything when the table is absent or the row's length
    /// does not equal the column count.
    pub fn insert_into(&mut self, table_name: &str, values: Vec<ValueType>) -> (r: Result<
        (),
        SqlError,
    >)
        requires
            old(self).wf(),
        ensures
            final(self).wf(),
            final(self).deep_view() == spec_insert(
                old(self).deep_view(),
                table_name@,
                values.deep_view(),
            ).0,
            r == spec_insert(old(self).deep_view(), table_name@, values.deep_view()).1,
    {
        let ghost before = self.deep_view();
        proof {
            lemma_spec_find_properties(before, table_name@);
        }
        match self.find_index(table_name) {
            None => Err(SqlError::TableNotFound),
            Some(i) => {
                proof {
                    lemma_deep_index(self.tables, i as int);
                }
                if values.len() != self.tables[i].columns.len() {
                    proof {
                        assert(values.deep_view().len() == values@.len());
                        assert(before[i as int].columns.len() == self.tables@[
                            i as int
                        ].columns@.len());
                    }
                    return Err(SqlError::SchemaMismatch);
                }
                let ghost row = values.deep_view();
                let ghost gvalues = values;
                let ghost old_raw = self.tables@;
                self.tables[i].rows.push(values);
                proof {
                    lemma_deep_push(old_raw[i as int].rows, self.tables@[i as int].rows, gvalues);
                    lemma_deep_index(old(self).tables, i as int);
                    let t = TableModel {
                        name: before[i as int].name,
                        columns: before[i as int].columns,
                        rows: before[i as int].rows.push(row),
                    };
                    assert(self.tables@[i as int].deep_view() =~= t);
                    lemma_deep_update(
                        old(self).tables,
                        self.tables,
                        i as int,
                        self.tables@[i as int],
                    );
                    assert(self.deep_view() =~= before.update(i as int, t));
                }
                Ok(())
            },
        }
    }

    /// A read-only view of the named table: its schema and full row
    /// sequence, for unfiltered SELECT *.
    pub fn select_from(&self, table_name: &str) -> (r: Result<&Table, SqlError>)
        requires
            self.wf(),
        ensures
            match spec_find(self.deep_view(), table_name@) {
                None => r matches Err(SqlError::TableNotFound),
                Some(i) => r matches Ok(t) && t.deep_view() == self.deep_view()[i],
            },
    {
        proof {
            lemma_spec_find_properties(self.deep_view(), table_name@);
        }
        match self.find_index(table_name) {
            None => Err(SqlError::TableNotFound),
            Some(i) => {
                proof {
                    lemma_deep_index(self.tables, i as int);
                }
                Ok(&self.tables[i])
            },
        }
    }

    /// The rows of the named table that satisfy `condition`, in order, as
    /// independent copies: later mutation of the store cannot change a
    /// returned row.
    pub fn select_with_condition(&self, table_name: &str, condition: &CondExpr) -> (r: Result<
        Vec<Vec<ValueType>>,
        SqlError,
    >)
        requires
            self.wf(),
        ensures
            match spec_find(self.deep_view(), table_name@) {
                None => r matches Err(SqlError::TableNotFound),
                Some(i) => r matches Ok(rows) && rows.deep_view() == spec_matching_rows(
                    self.deep_view()[i].rows,
                    condition.deep_view(),
                ),
            },
    {
        let ghost cond = condition.deep_view();
        proof {
            lemma_spec_find_properties(self.deep_view(), table_name@);
        }
        match self.find_index(table_name) {
            None => Err(SqlError::TableNotFound),
            Some(i) => {
                proof {
                    lemma_deep_index(self.tables, i as int);
                }
                let table = &self.tables[i];
                let ghost all = table.deep_view().rows;
                let mut result: Vec<Vec<ValueType>> = Vec::new();
                let ghost acc = Seq::<Seq<ValueModel>>::empty();
                let mut acc_token: Ghost<Seq<Seq<ValueModel>>> = Ghost(acc);
                let mut j: usize = 0;
                while j < table.rows.len()
                    invariant
                        0 <= j <= table.rows@.len(),
                        cond == condition.deep_view(),
                        all == table.deep_view().rows,
                        all.len() == table.rows@.len(),
                        acc_token@ == spec_matching_rows(all.subrange(0, j as int), cond),
                        result@.len() == acc_token@.len(),
                        forall|k: int|
                            0 <= k < result@.len() ==> (#[trigger] result@[k]).deep_view()
                                == acc_token@[k],
                    decreases table.rows@.len() - j,
                {
                    let ghost prefix = all.subrange(0, j as int);
                    let ghost extended = all.subrange(0, j + 1);
                    proof {
                        assert(extended.drop_last() =~= prefix);
                        lemma_deep_index(table.rows, j as int);
                        assert(extended.last() == table.rows@[j as int].deep_view());
                    }
                    if matches_condition(&table.rows[j], condition) {
                        result.push(clone_row(&table.rows[j]));
                        acc_token = Ghost(acc_token@.push(all[j as int]));
                    }
                    proof {
                        assert(acc_token@ == spec_matching_rows(extended, cond));
                    }
                    j += 1;
                }
                proof {
                    assert(all.subrange(0, all.len() as int) =~= all);
                    assert forall|k: int|
                        0 <= k < result@.len() implies result.deep_view()[k] == acc_token@[k] by {
                        lemma_deep_index(result, k);
                    }
                    assert(result.deep_view() =~= acc_token@);
                }
                Ok(result)
            },
        }
    }

    /// Rewrites, with `assignments` applied, every row of the named table
    /// that satisfies `condition`, and returns how many rows matched.
    /// Zero is a valid count, not an error.
    pub fn update_rows(
        &mut self,
        table_name: &str,
        assignments: &Vec<Assignment>,
        condition: &CondExpr,
    ) -> (r: Result<usize, SqlError>)
        requires
            old(self).wf(),
        ensures
            final(self).wf(),
            final(self).deep_view() == spec_update(
                old(self).deep_view(),
                table_name@,
                assignments.deep_view(),
                condition.deep_view(),
            ).0,
            match r {
                Ok(n) => spec_update(
                    old(self).deep_view(),
                    table_name@,
                    assignments.deep_view(),
                    condition.deep_view(),
                ).1 == Ok::<int, SqlError>(n as int),
                Err(e) => spec_update(
                    old(self).deep_view(),
                    table_name@,
                    assignments.deep_view(),
                    condition.deep_view(),
                ).1 == Err::<int, SqlError>(e),
            },
    {
        let ghost before = self.deep_view();
        let ghost cond = condition.deep_view();
        let ghost assigns = assignments.deep_view();
        proof {
            lemma_spec_find_properties(before, table_name@);
        }
        match self.find_index(table_name) {
            None => Err(SqlError::TableNotFound),
            Some(i) => {
                let ghost t0 = before[i as int];
                let mut out: Vec<Vec<ValueType>> = Vec::new();
                let mut count: usize = 0;
                let mut j: usize = 0;
                let n = self.tables[i].rows.len();
                proof {
                    lemma_deep_index(self.tables, i as int);
                }
                while j < n
                    invariant
                        0 <= j <= n,
                        0 <= i < self.tables@.len(),
                        cond == condition.deep_view(),
                        assigns == assignments.deep_view(),
                        self.deep_view() == before,
                        t0 == before[i as int],
                        n == t0.rows.len(),
                        n == self.tables@[i as int].rows@.len(),
                        count <= j,
                        count == spec_count_matching(t0.rows.subrange(0, j as int), cond),
                        out@.len() == j,
                        forall|k: int|
                            0 <= k < j ==> (#[trigger] out@[k]).deep_view() == spec_updated_row(
                                t0.rows[k],
                                assigns,
                                cond,
                            ),
                    decreases n - j,
                {
                    let ghost prefix = t0.rows.subrange(0, j as int);
                    let ghost extended = t0.rows.subrange(0, j + 1);
                    proof {
                        assert(extended.drop_last() =~= prefix);
                        lemma_deep_index(self.tables, i as int);
                        lemma_deep_index(self.tables@[i as int].rows, j as int);
                        assert(t0.rows[j as int] == self.tables@[i as int].rows@[
                            j as int
                        ].deep_view());
                        assert(extended.last() == t0.rows[j as int]);
                    }
                    let row_ref = &self.tables[i].rows[j];
                    let matched = matches_condition(row_ref, condition);
                    proof {
                        assert(matched == spec_row_matches(t0.rows[j as int], cond));
                    }
                    let mut new_row = clone_row(row_ref);
                    if matched {
                        apply_assignments(&mut new_row, assignments);
                        count += 1;
                    }
                    out.push(new_row);
                    proof {
                        assert(new_row.deep_view() == spec_updated_row(
                            t0.rows[j as int],
                            assigns,
                            cond,
                        ));
                        assert(spec_count_matching(extended, cond) == spec_count_matching(
                            prefix,
                            cond,
                        ) + if matched {
                            1int
                        } else {
                            0int
                        });
                    }
                    j += 1;
                }
                proof {
                    assert(t0.rows.subrange(0, n as int) =~= t0.rows);
                }
                let ghost updated = spec_updated_rows(t0.rows, assigns, cond);
                proof {
                    assert forall|k: int| 0 <= k < out@.len() implies out.deep_view()[k]
                        == updated[k] by {
                        lemma_deep_index(out, k);
                    }
                    assert(out.deep_view() =~= updated);
                }
                let ghost old_raw = self.tables@;
                self.tables[i].rows = out;
                proof {
                    let t = TableModel { name: t0.name, columns: t0.columns, rows: updated };
                    assert(self.tables@[i as int].deep_view() =~= t);
                    lemma_deep_update(
                        old(self).tables,
                        self.tables,
                        i as int,
                        self.tables@[i as int],
                    );
                    lemma_deep_index(old(self).tables, i as int);
                    assert(self.deep_view() =~= before.update(i as int, t));
                    assert forall|k: int| 0 <= k < updated.len() implies (#[trigger] updated[k]).len()
                        == t0.columns.len() by {
                        lemma_apply_assignments_len(t0.rows[k], assigns);
                    }
                }
                Ok(count)
            },
        }
    }

    /// Removes every row of the named table that satisfies `condition`,
    /// preserving the relative order of the remainder, and returns how
    /// many rows were removed.
    pub fn delete_rows(&mut self, table_name: &str, condition: &CondExpr) -> (r: Result<
        usize,
        SqlError,
    >)
        requires
            old(self).wf(),
        ensures
            final(self).wf(),
            final(self).deep_view() == spec_delete(
                old(self).deep_view(),
                table_name@,
                condition.deep_view(),
            ).0,
            match r {
                Ok(n) => spec_delete(old(self).deep_view(), table_name@, condition.deep_view()).1
                    == Ok::<int, SqlError>(n as int),
                Err(e) => spec_delete(old(self).deep_view(), table_name@, condition.deep_view()).1
                    == Err::<int, SqlError>(e),
            },
    {
        let ghost before = self.deep_view();
        let ghost cond = condition.deep_view();
        proof {
            lemma_spec_find_properties(before, table_name@);
        }
        match self.find_index(table_name) {
            None => Err(SqlError::TableNotFound),
            Some(i) => {
                let ghost t0 = before[i as int];
                let mut kept: Vec<Vec<ValueType>> = Vec::new();
                let mut acc_token: Ghost<Seq<Seq<ValueModel>>> = Ghost(
                    Seq::<Seq<ValueModel>>::empty(),
                );
                let mut removed: usize = 0;
                let mut j: usize = 0;
                let n = self.tables[i].rows.len();
                proof {
                    lemma_deep_index(self.tables, i as int);
                }
                while j < n
                    invariant
                        0 <= j <= n,
                        0 <= i < self.tables@.len(),
                        cond == condition.deep_view(),
                        self.deep_view() == before,
                        t0 == before[i as int],
                        n == t0.rows.len(),
                        n == self.tables@[i as int].rows@.len(),
                        removed <= j,
                        removed == spec_count_matching(t0.rows.subrange(0, j as int), cond),
                        acc_token@ == spec_remaining_rows(t0.rows.subrange(0, j as int), cond),
                        kept@.len() == acc_token@.len(),
                        forall|k: int|
                            0 <= k < kept@.len() ==> (#[trigger] kept@[k]).deep_view()
                                == acc_token@[k],
                    decreases n - j,
                {
                    let ghost prefix = t0.rows.subrange(0, j as int);
                    let ghost extended = t0.rows.subrange(0, j + 1);
                    proof {
                        assert(extended.drop_last() =~= prefix);
                        lemma_deep_index(self.tables, i as int);
                        lemma_deep_index(self.tables@[i as int].rows, j as int);
                        assert(t0.rows[j as int] == self.tables@[i as int].rows@[
                            j as int
                        ].deep_view());
                        assert(extended.last() == t0.rows[j as int]);
                    }
                    if matches_condition(&self.tables[i].rows[j], condition) {
                        removed += 1;
                    } else {
                        kept.push(clone_row(&self.tables[i].rows[j]));
                        acc_token = Ghost(acc_token@.push(t0.rows[j as int]));
                    }
                    proof {
                        assert(acc_token@ == spec_remaining_rows(extended, cond));
                    }
                    j += 1;
                }
                proof {
                    assert(t0.rows.subrange(0, n as int) =~= t0.rows);
                    assert forall|k: int| 0 <= k < kept@.len() implies kept.deep_view()[k]
                        == acc_token@[k] by {
                        lemma_deep_index(kept, k);
                    }
                    assert(kept.deep_view() =~= acc_token@);
                }
                let ghost remaining = spec_remaining_rows(t0.rows, cond);
                self.tables[i].rows = kept;
                proof {
                    let t = TableModel { name: t0.name, columns: t0.columns, rows: remaining };
                    assert(self.tables@[i as int].deep_view() =~= t);
                    lemma_deep_update(
                        old(self).tables,
                        self.tables,
                        i as int,
                        self.tables@[i as int],
                    );
                    assert(self.deep_view() =~= before.update(i as int, t));
                    lemma_remaining_rows_wf(t0.rows, cond, t0.columns.len() as int);
                }
                Ok(removed)
            },
        }
    }
}

} // verus!
