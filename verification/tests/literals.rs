//! Statements with their values written into them.

use toasty_driver_d1::batch::batch_statement;
use toasty_driver_d1::error::{D1Error, DriverError};
use toasty_driver_d1::json::{Float, Json, Number};
use toasty_driver_d1::literal::{inline_params, sql_literal};
use toasty_driver_d1::value::SqlValue;

fn integer(n: i128) -> Json {
    Json::Number(Number::Integer(n))
}

fn text(s: &str) -> Json {
    Json::String(s.to_string())
}

#[test]
fn literals_have_their_sql_form() {
    assert_eq!(sql_literal(&Json::Null), "NULL");
    assert_eq!(sql_literal(&Json::Bool(true)), "1");
    assert_eq!(sql_literal(&Json::Bool(false)), "0");
    assert_eq!(sql_literal(&integer(-42)), "-42");
    let half = Float { bits: 0.5f64.to_bits(), text: "0.5".to_string() };
    assert_eq!(sql_literal(&Json::Number(Number::Float(half))), "0.5");
    assert_eq!(sql_literal(&text("plain")), "'plain'");
    assert_eq!(sql_literal(&Json::Array(vec![integer(0), integer(10), integer(255)])), "X'000aff'");
    assert_eq!(sql_literal(&Json::Array(vec![])), "X''");
    assert_eq!(
        sql_literal(&Json::Object(vec![("it's".to_string(), integer(1))])),
        "'{\"it''s\":1}'"
    );
}

#[test]
fn quotes_are_doubled() {
    assert_eq!(sql_literal(&text("it's")), "'it''s'");
    assert_eq!(sql_literal(&text("'")), "''''");
    assert_eq!(sql_literal(&text("'; DROP TABLE t; --")), "'''; DROP TABLE t; --'");
}

#[test]
fn blob_literal_leaves_out_what_is_no_number() {
    assert_eq!(sql_literal(&Json::Array(vec![integer(1), text("x"), integer(-1), integer(256)])), "X'01100'");
}

#[test]
fn placeholders_take_their_parameters() {
    let params = vec![integer(7), text("a'b"), Json::Null];
    assert_eq!(
        inline_params("INSERT INTO t VALUES (?1, ?2, ?3, ?2)", &params),
        "INSERT INTO t VALUES (7, 'a''b', NULL, 'a''b')"
    );
    assert_eq!(inline_params("?1?2", &params), "7'a''b'");
}

#[test]
fn placeholders_without_a_parameter_become_null() {
    let params = vec![integer(7)];
    assert_eq!(inline_params("?2", &params), "NULL");
    assert_eq!(inline_params("?", &params), "NULL");
    assert_eq!(inline_params("?0", &params), "NULL");
    assert_eq!(inline_params("?99999999999999999999999999", &params), "NULL");
    assert_eq!(inline_params("?01", &params), "7");
}

#[test]
fn two_digit_placeholders_are_whole() {
    let params: Vec<Json> = (1..=12).map(integer).collect();
    assert_eq!(inline_params("?1, ?12, ?1x", &params), "1, 12, 1x");
}

#[test]
fn text_without_placeholders_stays() {
    assert_eq!(inline_params("SELECT 'ü' -- 12", &vec![integer(1)]), "SELECT 'ü' -- 12");
    assert_eq!(inline_params("", &vec![]), "");
}

#[test]
fn inserted_text_is_not_searched_for_placeholders() {
    assert_eq!(inline_params("?1 ?2", &vec![text("?2"), integer(5)]), "'?2' 5");
}

#[test]
fn batch_statements_end_in_one_semicolon() {
    let none: Vec<SqlValue> = vec![];
    assert_eq!(batch_statement("DELETE FROM t;", &none).unwrap(), "DELETE FROM t;");
    assert_eq!(batch_statement("DELETE FROM t", &none).unwrap(), "DELETE FROM t;");
    assert_eq!(batch_statement("DELETE FROM t; \n\t\u{3000}", &none).unwrap(), "DELETE FROM t;");
    assert_eq!(batch_statement("", &none).unwrap(), ";");
}

#[test]
fn batch_statements_bind_their_values() {
    let params = vec![SqlValue::Bool(true), SqlValue::Bytes(vec![1, 2])];
    assert_eq!(batch_statement("UPDATE t SET a = ?1, b = ?2;", &params).unwrap(),
        "UPDATE t SET a = 1, b = X'0102';");
    let err = batch_statement("?1;", &vec![SqlValue::I64(i64::MIN)]).unwrap_err();
    assert_eq!(
        err,
        DriverError::DriverOperationFailed(D1Error::new(
            "integer -9223372036854775808 exceeds ±2^53, the range D1's JSON API carries without loss of precision".to_string()
        ))
    );
}
