use sqlstore::ast::{Assignment, CondExpr, Literal, Operand};
use sqlstore::db::Database;
use sqlstore::error::SqlError;
use sqlstore::value::ValueType;

fn cols(names: &[&str]) -> Vec<String> {
    names.iter().map(|n| n.to_string()).collect()
}

fn eq_number(num: &str) -> CondExpr {
    CondExpr::Comparison {
        left: Operand::Column("a".to_string()),
        op: "=".to_string(),
        right: Operand::Lit(Literal::Number(num.to_string())),
    }
}

#[test]
fn create_then_matching_insert_succeeds() {
    let mut db = Database::new();
    db.create_table("t", cols(&["a", "b"]));
    let before = db.select_from("t").unwrap().rows.len();
    let r = db.insert_into("t", vec![ValueType::Int(1), ValueType::String("x".to_string())]);
    assert!(r.is_ok());
    let after = db.select_from("t").unwrap().rows.len();
    assert_eq!(before, 0);
    assert_eq!(after, 1);
}

#[test]
fn insert_arity_mismatch_fails_and_mutates_nothing() {
    let mut db = Database::new();
    db.create_table("t", cols(&["a", "b"]));
    db.insert_into("t", vec![ValueType::Int(1), ValueType::Null]).unwrap();
    let r = db.insert_into("t", vec![ValueType::Int(2)]);
    assert_eq!(r, Err(SqlError::SchemaMismatch));
    let table = db.select_from("t").unwrap();
    assert_eq!(table.rows.len(), 1);
    assert_eq!(table.rows[0], vec![ValueType::Int(1), ValueType::Null]);
}

#[test]
fn absent_table_fails_every_operation() {
    let mut db = Database::new();
    db.create_table("present", cols(&["a"]));
    assert_eq!(db.insert_into("missing", vec![ValueType::Null]), Err(SqlError::TableNotFound));
    assert!(matches!(db.select_from("missing"), Err(SqlError::TableNotFound)));
    assert_eq!(
        db.select_with_condition("missing", &eq_number("1")),
        Err(SqlError::TableNotFound)
    );
    assert_eq!(
        db.update_rows("missing", &Vec::new(), &eq_number("1")),
        Err(SqlError::TableNotFound)
    );
    assert_eq!(db.delete_rows("missing", &eq_number("1")), Err(SqlError::TableNotFound));
}

#[test]
fn unfiltered_select_preserves_insertion_order() {
    let mut db = Database::new();
    db.create_table("t", cols(&["a"]));
    for i in 0..5 {
        db.insert_into("t", vec![ValueType::Int(i)]).unwrap();
    }
    let table = db.select_from("t").unwrap();
    assert_eq!(table.rows.len(), 5);
    for i in 0..5 {
        assert_eq!(table.rows[i], vec![ValueType::Int(i as i32)]);
    }
}

#[test]
fn select_with_condition_returns_matching_copies() {
    let mut db = Database::new();
    db.create_table("t", cols(&["a"]));
    db.insert_into("t", vec![ValueType::Int(5)]).unwrap();
    db.insert_into("t", vec![ValueType::String("5".to_string())]).unwrap();
    db.insert_into("t", vec![ValueType::Int(5)]).unwrap();
    let rows = db.select_with_condition("t", &eq_number("5")).unwrap();
    assert_eq!(rows.len(), 2);
    assert_eq!(rows[0], vec![ValueType::Int(5)]);
    assert_eq!(rows[1], vec![ValueType::Int(5)]);
}

#[test]
fn delete_removes_exactly_the_matching_rows() {
    let mut db = Database::new();
    db.create_table("t", cols(&["a"]));
    db.insert_into("t", vec![ValueType::Int(1)]).unwrap();
    db.insert_into("t", vec![ValueType::String("x".to_string())]).unwrap();
    db.insert_into("t", vec![ValueType::Int(1)]).unwrap();
    db.insert_into("t", vec![ValueType::Int(2)]).unwrap();
    let removed = db.delete_rows("t", &eq_number("1")).unwrap();
    assert_eq!(removed, 2);
    let table = db.select_from("t").unwrap();
    assert_eq!(table.rows.len(), 2);
    assert_eq!(table.rows[0], vec![ValueType::String("x".to_string())]);
    assert_eq!(table.rows[1], vec![ValueType::Int(2)]);
    let still_matching = db.select_with_condition("t", &eq_number("1")).unwrap();
    assert_eq!(still_matching.len(), 0);
}

#[test]
fn update_with_empty_match_set_changes_nothing() {
    let mut db = Database::new();
    db.create_table("t", cols(&["a", "b"]));
    db.insert_into("t", vec![ValueType::Int(1), ValueType::String("x".to_string())]).unwrap();
    let assigns = vec![Assignment { column: 0, value: ValueType::String("z".to_string()) }];
    let updated = db.update_rows("t", &assigns, &eq_number("99")).unwrap();
    assert_eq!(updated, 0);
    let table = db.select_from("t").unwrap();
    assert_eq!(table.rows[0], vec![ValueType::Int(1), ValueType::String("x".to_string())]);
}

#[test]
fn update_rewrites_matching_rows_in_place() {
    let mut db = Database::new();
    db.create_table("t", cols(&["a", "b"]));
    db.insert_into("t", vec![ValueType::Int(7), ValueType::String("x".to_string())]).unwrap();
    db.insert_into("t", vec![ValueType::Int(8), ValueType::String("y".to_string())]).unwrap();
    let assigns = vec![Assignment { column: 0, value: ValueType::String("z".to_string()) }];
    let updated = db.update_rows("t", &assigns, &eq_number("7")).unwrap();
    assert_eq!(updated, 1);
    let table = db.select_from("t").unwrap();
    assert_eq!(
        table.rows[0],
        vec![ValueType::String("z".to_string()), ValueType::String("x".to_string())]
    );
    assert_eq!(table.rows[1], vec![ValueType::Int(8), ValueType::String("y".to_string())]);
}

#[test]
fn create_with_existing_name_replaces_the_table() {
    let mut db = Database::new();
    db.create_table("t", cols(&["a"]));
    db.insert_into("t", vec![ValueType::Int(1)]).unwrap();
    db.create_table("t", cols(&["x", "y"]));
    let table = db.select_from("t").unwrap();
    assert_eq!(table.columns, vec!["x".to_string(), "y".to_string()]);
    assert_eq!(table.rows.len(), 0);
}

#[test]
fn out_of_range_assignment_leaves_row_unchanged() {
    let mut db = Database::new();
    db.create_table("t", cols(&["a"]));
    db.insert_into("t", vec![ValueType::Int(3)]).unwrap();
    let assigns = vec![Assignment { column: 4, value: ValueType::Null }];
    let updated = db.update_rows("t", &assigns, &eq_number("3")).unwrap();
    assert_eq!(updated, 1);
    let table = db.select_from("t").unwrap();
    assert_eq!(table.rows[0], vec![ValueType::Int(3)]);
}
