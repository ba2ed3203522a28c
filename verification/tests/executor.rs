use sqlstore::ast::{CondExpr, Literal, Operand, SetClause, Statement};
use sqlstore::db::Database;
use sqlstore::error::{MutationKind, SqlError};
use sqlstore::query::{execute_statement, execute_statements, ExecOutcome};
use sqlstore::value::ValueType;

fn cols(names: &[&str]) -> Vec<String> {
    names.iter().map(|n| n.to_string()).collect()
}

fn create(table: &str, names: &[&str]) -> Statement {
    Statement::CreateTable { name: table.to_string(), columns: cols(names) }
}

fn insert_quoted(table: &str, texts: &[&str]) -> Statement {
    Statement::Insert {
        table: table.to_string(),
        rows: vec![texts.iter().map(|t| Literal::SingleQuoted(t.to_string())).collect()],
    }
}

fn where_eq(column: &str, num: &str) -> CondExpr {
    CondExpr::Comparison {
        left: Operand::Column(column.to_string()),
        op: "=".to_string(),
        right: Operand::Lit(Literal::Number(num.to_string())),
    }
}

fn select_all(table: &str, condition: Option<CondExpr>) -> Statement {
    Statement::Select { table: table.to_string(), wildcard: true, condition }
}

#[test]
fn scenario_two_text_rows_and_a_numeric_delete() {
    let mut db = Database::new();
    let created = execute_statement(&mut db, &create("t", &["a"])).unwrap();
    assert!(matches!(created, ExecOutcome::TableCreated { name } if name == "t"));
    execute_statement(&mut db, &insert_quoted("t", &["x"])).unwrap();
    execute_statement(&mut db, &insert_quoted("t", &["y"])).unwrap();

    match execute_statement(&mut db, &select_all("t", None)).unwrap() {
        ExecOutcome::FullTable(table) => {
            assert_eq!(table.name, "t");
            assert_eq!(table.columns, vec!["a".to_string()]);
            assert_eq!(table.rows.len(), 2);
            assert_eq!(table.rows[0], vec![ValueType::String("x".to_string())]);
            assert_eq!(table.rows[1], vec![ValueType::String("y".to_string())]);
        },
        other => panic!("expected the full table, got {:?}", discriminant_name(&other)),
    }

    let deleted = execute_statement(
        &mut db,
        &Statement::Delete { table: "t".to_string(), condition: Some(where_eq("a", "1")) },
    )
    .unwrap();
    assert!(matches!(deleted, ExecOutcome::RowsDeleted { count: 0 }));

    match execute_statement(&mut db, &select_all("t", None)).unwrap() {
        ExecOutcome::FullTable(table) => {
            assert_eq!(table.rows.len(), 2);
            assert_eq!(table.rows[0], vec![ValueType::String("x".to_string())]);
            assert_eq!(table.rows[1], vec![ValueType::String("y".to_string())]);
        },
        other => panic!("expected the full table, got {:?}", discriminant_name(&other)),
    }
}

fn discriminant_name(outcome: &ExecOutcome) -> &'static str {
    match outcome {
        ExecOutcome::TableCreated { .. } => "TableCreated",
        ExecOutcome::RowsInserted => "RowsInserted",
        ExecOutcome::FullTable(_) => "FullTable",
        ExecOutcome::FilteredRows(_) => "FilteredRows",
        ExecOutcome::RowsUpdated { .. } => "RowsUpdated",
        ExecOutcome::RowsDeleted { .. } => "RowsDeleted",
    }
}

#[test]
fn update_without_where_is_rejected_and_mutates_nothing() {
    let mut db = Database::new();
    execute_statement(&mut db, &create("t", &["a"])).unwrap();
    execute_statement(&mut db, &insert_quoted("t", &["x"])).unwrap();
    let r = execute_statement(
        &mut db,
        &Statement::Update {
            table: "t".to_string(),
            assignments: vec![SetClause {
                column: "a".to_string(),
                value: Literal::SingleQuoted("z".to_string()),
            }],
            condition: None,
        },
    );
    assert_eq!(r.unwrap_err(), SqlError::MissingFilter(MutationKind::Update));
    match execute_statement(&mut db, &select_all("t", None)).unwrap() {
        ExecOutcome::FullTable(table) => {
            assert_eq!(table.rows[0], vec![ValueType::String("x".to_string())]);
        },
        _ => panic!("expected the full table"),
    }
}

#[test]
fn delete_without_where_is_rejected_and_mutates_nothing() {
    let mut db = Database::new();
    execute_statement(&mut db, &create("t", &["a"])).unwrap();
    execute_statement(&mut db, &insert_quoted("t", &["x"])).unwrap();
    let r = execute_statement(
        &mut db,
        &Statement::Delete { table: "t".to_string(), condition: None },
    );
    assert_eq!(r.unwrap_err(), SqlError::MissingFilter(MutationKind::Delete));
    match execute_statement(&mut db, &select_all("t", None)).unwrap() {
        ExecOutcome::FullTable(table) => assert_eq!(table.rows.len(), 1),
        _ => panic!("expected the full table"),
    }
}

#[test]
fn numeric_literals_coerce_to_integers_when_they_fit() {
    let mut db = Database::new();
    execute_statement(&mut db, &create("t", &["a"])).unwrap();
    let stmt = Statement::Insert {
        table: "t".to_string(),
        rows: vec![
            vec![Literal::Number("12".to_string())],
            vec![Literal::Number("007".to_string())],
            vec![Literal::Number("2147483647".to_string())],
            vec![Literal::Number("2147483648".to_string())],
            vec![Literal::Number("3.5".to_string())],
            vec![Literal::Other],
        ],
    };
    execute_statement(&mut db, &stmt).unwrap();
    match execute_statement(&mut db, &select_all("t", None)).unwrap() {
        ExecOutcome::FullTable(table) => {
            assert_eq!(table.rows[0], vec![ValueType::Int(12)]);
            assert_eq!(table.rows[1], vec![ValueType::Int(7)]);
            assert_eq!(table.rows[2], vec![ValueType::Int(2147483647)]);
            assert_eq!(table.rows[3], vec![ValueType::String("2147483648".to_string())]);
            assert_eq!(table.rows[4], vec![ValueType::String("3.5".to_string())]);
            assert_eq!(table.rows[5], vec![ValueType::Null]);
        },
        _ => panic!("expected the full table"),
    }
}

#[test]
fn filtered_select_returns_only_matching_rows() {
    let mut db = Database::new();
    execute_statement(&mut db, &create("t", &["a"])).unwrap();
    let stmt = Statement::Insert {
        table: "t".to_string(),
        rows: vec![
            vec![Literal::Number("5".to_string())],
            vec![Literal::SingleQuoted("5".to_string())],
            vec![Literal::Number("6".to_string())],
        ],
    };
    execute_statement(&mut db, &stmt).unwrap();
    match execute_statement(&mut db, &select_all("t", Some(where_eq("a", "5")))).unwrap() {
        ExecOutcome::FilteredRows(rows) => {
            assert_eq!(rows.len(), 1);
            assert_eq!(rows[0], vec![ValueType::Int(5)]);
        },
        _ => panic!("expected filtered rows"),
    }
}

#[test]
fn non_wildcard_projection_is_rejected() {
    let mut db = Database::new();
    execute_statement(&mut db, &create("t", &["a"])).unwrap();
    let r = execute_statement(
        &mut db,
        &Statement::Select { table: "t".to_string(), wildcard: false, condition: None },
    );
    assert_eq!(r.unwrap_err(), SqlError::UnsupportedProjection);
}

#[test]
fn unrecognized_statement_kind_is_rejected() {
    let mut db = Database::new();
    let r = execute_statement(&mut db, &Statement::Other);
    assert_eq!(r.unwrap_err(), SqlError::UnsupportedStatement);
}

#[test]
fn empty_statement_list_is_rejected() {
    let mut db = Database::new();
    let r = execute_statements(&mut db, &Vec::new());
    assert_eq!(r.unwrap_err(), SqlError::EmptyInput);
}

#[test]
fn only_the_first_statement_is_executed() {
    let mut db = Database::new();
    let stmts = vec![create("t", &["a"]), insert_quoted("t", &["x"])];
    execute_statements(&mut db, &stmts).unwrap();
    match execute_statement(&mut db, &select_all("t", None)).unwrap() {
        ExecOutcome::FullTable(table) => assert_eq!(table.rows.len(), 0),
        _ => panic!("expected the full table"),
    }
}

#[test]
fn update_applies_first_quoted_assignment_to_column_zero() {
    let mut db = Database::new();
    execute_statement(&mut db, &create("t", &["a", "b"])).unwrap();
    let stmt = Statement::Insert {
        table: "t".to_string(),
        rows: vec![vec![
            Literal::Number("7".to_string()),
            Literal::SingleQuoted("x".to_string()),
        ]],
    };
    execute_statement(&mut db, &stmt).unwrap();
    let updated = execute_statement(
        &mut db,
        &Statement::Update {
            table: "t".to_string(),
            assignments: vec![SetClause {
                column: "b".to_string(),
                value: Literal::SingleQuoted("z".to_string()),
            }],
            condition: Some(where_eq("a", "7")),
        },
    )
    .unwrap();
    assert!(matches!(updated, ExecOutcome::RowsUpdated { count: 1 }));
    match execute_statement(&mut db, &select_all("t", None)).unwrap() {
        ExecOutcome::FullTable(table) => {
            assert_eq!(
                table.rows[0],
                vec![ValueType::String("z".to_string()), ValueType::String("x".to_string())]
            );
        },
        _ => panic!("expected the full table"),
    }
}

#[test]
fn insert_against_missing_table_reports_table_not_found() {
    let mut db = Database::new();
    let r = execute_statement(&mut db, &insert_quoted("missing", &["x"]));
    assert_eq!(r.unwrap_err(), SqlError::TableNotFound);
}
