use sqlstore::ast::{CondExpr, Literal, Operand};
use sqlstore::numeric::{decimal_matches, i32_digits, parse_i32_digits};
use sqlstore::predicate::matches_condition;
use sqlstore::query::literal_to_value;
use sqlstore::value::ValueType;

fn digits_string(v: i32) -> String {
    i32_digits(v).into_iter().collect()
}

#[test]
fn digits_render_canonically() {
    assert_eq!(digits_string(0), "0");
    assert_eq!(digits_string(7), "7");
    assert_eq!(digits_string(12), "12");
    assert_eq!(digits_string(304), "304");
    assert_eq!(digits_string(-1), "-1");
    assert_eq!(digits_string(2147483647), "2147483647");
    assert_eq!(digits_string(-2147483648), "-2147483648");
}

#[test]
fn decimal_matches_is_exact() {
    assert!(decimal_matches(5, "5"));
    assert!(!decimal_matches(5, "05"));
    assert!(!decimal_matches(5, "5 "));
    assert!(decimal_matches(-17, "-17"));
    assert!(decimal_matches(-2147483648, "-2147483648"));
    assert!(!decimal_matches(5, ""));
}

#[test]
fn parsing_accepts_digit_strings_that_fit() {
    assert_eq!(parse_i32_digits("0"), Some(0));
    assert_eq!(parse_i32_digits("12"), Some(12));
    assert_eq!(parse_i32_digits("007"), Some(7));
    assert_eq!(parse_i32_digits("2147483647"), Some(2147483647));
    assert_eq!(parse_i32_digits("2147483648"), None);
    assert_eq!(parse_i32_digits("99999999999999999999"), None);
    assert_eq!(parse_i32_digits(""), None);
    assert_eq!(parse_i32_digits("12a"), None);
    assert_eq!(parse_i32_digits("-3"), None);
}

#[test]
fn coercion_follows_the_documented_rule() {
    assert_eq!(
        literal_to_value(&Literal::SingleQuoted("hi".to_string())),
        ValueType::String("hi".to_string())
    );
    assert_eq!(literal_to_value(&Literal::Number("41".to_string())), ValueType::Int(41));
    assert_eq!(
        literal_to_value(&Literal::Number("3.5".to_string())),
        ValueType::String("3.5".to_string())
    );
    assert_eq!(literal_to_value(&Literal::Other), ValueType::Null);
}

#[test]
fn predicate_tests_column_zero_against_the_literal_text() {
    let cond = CondExpr::Comparison {
        left: Operand::Column("whatever".to_string()),
        op: "=".to_string(),
        right: Operand::Lit(Literal::Number("5".to_string())),
    };
    assert!(matches_condition(&vec![ValueType::Int(5)], &cond));
    assert!(matches_condition(&vec![ValueType::Int(5), ValueType::Int(9)], &cond));
    assert!(!matches_condition(&vec![ValueType::Int(9), ValueType::Int(5)], &cond));
    assert!(!matches_condition(&vec![ValueType::String("5".to_string())], &cond));
    assert!(!matches_condition(&Vec::new(), &cond));
}

#[test]
fn unrecognized_predicate_shapes_match_nothing() {
    assert!(!matches_condition(&vec![ValueType::Int(5)], &CondExpr::Unrecognized));
    let quoted_rhs = CondExpr::Comparison {
        left: Operand::Column("a".to_string()),
        op: "=".to_string(),
        right: Operand::Lit(Literal::SingleQuoted("5".to_string())),
    };
    assert!(!matches_condition(&vec![ValueType::Int(5)], &quoted_rhs));
    let column_rhs = CondExpr::Comparison {
        left: Operand::Column("a".to_string()),
        op: "=".to_string(),
        right: Operand::Column("b".to_string()),
    };
    assert!(!matches_condition(&vec![ValueType::Int(5)], &column_rhs));
}
