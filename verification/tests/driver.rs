//! The driver and where it points.

use toasty_driver_d1::driver::{D1, USER_TABLES};
use toasty_driver_d1::error::DriverError;
use toasty_driver_d1::json::{Json, Number};
use toasty_driver_d1::outcome::{RawOutcome, Request};
use toasty_driver_d1::transport::Transport;

fn driver() -> D1 {
    D1::new("acct".to_string(), "dbid".to_string(), "sekrit".to_string())
}

fn endpoint(driver: &D1) -> String {
    match driver.connect().client() {
        Transport::Rest(client) => client.endpoint().to_string(),
        Transport::Binding(_) => panic!("not over the binding"),
    }
}

#[test]
fn url_names_account_and_database() {
    assert_eq!(driver().url(), "d1://acct/dbid");
}

#[test]
fn token_is_not_shown() {
    let fields = driver().debug_fields();
    assert_eq!(
        fields,
        vec![
            ("account_id".to_string(), "acct".to_string()),
            ("database_id".to_string(), "dbid".to_string()),
        ]
    );
}

#[test]
fn default_origin_is_cloudflare() {
    assert_eq!(
        endpoint(&driver()),
        "https://api.cloudflare.com/client/v4/accounts/acct/d1/database/dbid/raw"
    );
}

#[test]
fn origin_can_be_overridden() {
    let moved = driver()
        .with_base_url("http://first".to_string())
        .with_base_url("http://second/".to_string());
    assert_eq!(endpoint(&moved), "http://second/accounts/acct/d1/database/dbid/raw");
    assert_eq!(moved.url(), "d1://acct/dbid");
}

#[test]
fn environment_has_to_name_everything() {
    let some = || Some("x".to_string());
    assert!(D1::from_env(some(), some(), some()).is_ok());
    let missing = [
        (D1::from_env(None, None, None), "D1_ACCOUNT_ID"),
        (D1::from_env(some(), None, None), "D1_DATABASE_ID"),
        (D1::from_env(some(), some(), None), "D1_API_TOKEN"),
    ];
    for (result, key) in missing {
        match result {
            Err(DriverError::InvalidConnectionUrl(message)) => {
                assert_eq!(message, format!("missing env var {key}"))
            }
            _ => panic!("{key} is missing"),
        }
    }
}

#[test]
fn environment_decides_the_database() {
    let d1 = D1::from_env(
        Some("a".to_string()),
        Some("d".to_string()),
        Some("t".to_string()),
    )
    .ok()
    .unwrap();
    assert_eq!(d1.url(), "d1://a/d");
}

#[test]
fn reset_drops_the_tables_that_were_named() {
    assert_eq!(driver().reset_db(), Request::query(USER_TABLES.to_string()));
    assert_eq!(
        driver().reset_db().sql,
        "SELECT name FROM sqlite_master WHERE type = 'table' AND name NOT LIKE 'sqlite\\_%' ESCAPE '\\' AND name NOT LIKE '\\_cf\\_%' ESCAPE '\\'"
    );
    let rows = vec![
        vec![Json::String("users".to_string())],
        vec![],
        vec![Json::Number(Number::Integer(1))],
        vec![Json::String("todos".to_string()), Json::Null],
    ];
    let mut script = driver().drop_tables(&rows);
    let mut sent = vec![];
    while let Some(request) = script.next() {
        sent.push(request.sql.clone());
        script.settle(Ok(RawOutcome { rows: vec![], changes: 0 })).unwrap();
    }
    assert_eq!(
        sent,
        vec!["DROP TABLE IF EXISTS \"users\"", "DROP TABLE IF EXISTS \"todos\""]
    );
}

#[test]
fn quotes_in_table_names_are_doubled() {
    let rows = vec![
        vec![Json::String("a\"b".to_string())],
        vec![Json::String("\"".to_string())],
        vec![Json::String("it's".to_string())],
    ];
    let mut script = driver().drop_tables(&rows);
    for expected in [
        "DROP TABLE IF EXISTS \"a\"\"b\"",
        "DROP TABLE IF EXISTS \"\"\"\"",
        "DROP TABLE IF EXISTS \"it's\"",
    ] {
        assert_eq!(script.next(), Some(&Request::command(expected.to_string())));
        script.settle(Ok(RawOutcome { rows: vec![], changes: 0 })).unwrap();
    }
    assert_eq!(script.next(), None);
}
