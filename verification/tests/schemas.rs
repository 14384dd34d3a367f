//! Schemas, migrations and the scripts that bring them in.

use toasty_core::schema::{db, diff};
use toasty_core::stmt;
use toasty_driver_d1::connection::Connection;
use toasty_driver_d1::driver::D1;
use toasty_driver_d1::error::{D1Error, DriverError, TransportError};
use toasty_driver_d1::json::{Json, Number};
use toasty_driver_d1::migration::{read_record, record, CREATE_RECORD, READ_RECORD};
use toasty_driver_d1::outcome::{RawOutcome, Request, Want};
use toasty_driver_d1::schema::{apply_statements, creation_script, TableSql};
use toasty_driver_d1::script::Script;

fn integer(n: i128) -> Json {
    Json::Number(Number::Integer(n))
}

fn driver() -> D1 {
    D1::new("a".to_string(), "d".to_string(), "t".to_string())
}

fn connection() -> Connection {
    driver().connect()
}

fn nothing() -> RawOutcome {
    RawOutcome { rows: vec![], changes: 0 }
}

/// Runs a script whose statements all succeed, and gives back their texts.
fn run(mut script: Script) -> Vec<String> {
    let mut sent = vec![];
    while let Some(request) = script.next() {
        sent.push(request.sql.clone());
        script.settle(Ok(nothing())).unwrap();
    }
    sent
}

fn column(table: usize, index: usize, name: &str) -> db::Column {
    db::Column {
        id: db::ColumnId { table: db::TableId(table), index },
        name: name.to_string(),
        ty: stmt::Type::String,
        storage_ty: db::Type::Text,
        nullable: false,
        primary_key: index == 0,
        auto_increment: false,
        versionable: false,
    }
}

fn index(table: usize, position: usize, on: usize, name: &str, primary_key: bool) -> db::Index {
    let id = db::TableId(table);
    db::Index {
        id: db::IndexId { table: id, index: position },
        name: name.to_string(),
        on: id,
        columns: vec![db::IndexColumn {
            column: db::ColumnId { table: id, index: on },
            op: db::IndexOp::Eq,
            scope: db::IndexScope::Local,
        }],
        unique: primary_key,
        primary_key,
    }
}

/// A table with the columns `id` and `email`, and an index on each.
fn table(table: usize, name: &str) -> db::Table {
    let id = db::TableId(table);
    db::Table {
        id,
        name: name.to_string(),
        columns: vec![column(table, 0, "id"), column(table, 1, "email")],
        primary_key: db::PrimaryKey {
            columns: vec![db::ColumnId { table: id, index: 0 }],
            index: db::IndexId { table: id, index: 0 },
        },
        indices: vec![
            index(table, 0, 0, &format!("{name}_by_id"), true),
            index(table, 1, 1, &format!("{name}_by_email"), false),
        ],
    }
}

fn creation(name: &str) -> Vec<String> {
    vec![
        format!(
            "CREATE TABLE \"{name}\" (\n    \"id\" TEXT NOT NULL,\n    \"email\" TEXT NOT NULL,\n    PRIMARY KEY (\"id\")\n);"
        ),
        format!("CREATE INDEX \"{name}_by_email\" ON \"{name}\" (\"email\");"),
    ]
}

#[test]
fn schema_is_pushed_table_by_table() {
    let schema = db::Schema { tables: vec![table(0, "users"), table(1, "todos")] };
    let expected: Vec<String> = creation("users").into_iter().chain(creation("todos")).collect();
    assert_eq!(run(connection().push_schema(&schema)), expected);
    assert_eq!(run(connection().push_schema(&db::Schema::default())), Vec::<String>::new());
}

#[test]
fn pushed_statements_want_no_rows() {
    let schema = db::Schema { tables: vec![table(0, "users")] };
    let script = connection().push_schema(&schema);
    let first = script.next().unwrap();
    assert_eq!(first.params, vec![]);
    assert_eq!(first.want, Want::Changes);
}

#[test]
fn migration_holds_the_steps() {
    let previous = db::Schema::default();
    let next = db::Schema { tables: vec![table(0, "users")] };
    let hints = diff::RenameHints::new();
    let schema_diff = diff::Schema::from(&previous, &next, &hints);
    let migration = driver().generate_migration(&schema_diff);
    assert_eq!(migration.statements(), creation("users"));

    let mut expected = vec![CREATE_RECORD.to_string(), READ_RECORD.to_string()];
    expected.extend(creation("users"));
    expected.push(
        "INSERT INTO __toasty_migrations (id, name, applied_at) VALUES (?1, ?2, datetime('now'))"
            .to_string(),
    );
    assert_eq!(run(connection().apply_migration(7, "first", &migration).ok().unwrap()), expected);
}

#[test]
fn record_statements_are_spelled_out() {
    assert_eq!(
        CREATE_RECORD,
        "CREATE TABLE IF NOT EXISTS __toasty_migrations (\n                    id INTEGER PRIMARY KEY,\n                    name TEXT NOT NULL,\n                    applied_at TEXT NOT NULL\n                )"
    );
    let mut script = connection().applied_migrations();
    assert_eq!(script.next(), Some(&Request::command(CREATE_RECORD.to_string())));
    script.settle(Ok(nothing())).unwrap();
    assert_eq!(script.next(), Some(&Request::query(READ_RECORD.to_string())));
    assert_eq!(READ_RECORD, "SELECT id FROM __toasty_migrations ORDER BY applied_at");
}

#[test]
fn record_goes_by_bit_pattern() {
    let request = record(u64::MAX, "it's").unwrap();
    assert_eq!(request.params, vec![integer(-1), Json::String("it's".to_string())]);
    assert_eq!(request.want, Want::Changes);
    for id in [0, 7, 1 << 53, u64::MAX - (1 << 53) + 1, u64::MAX] {
        let row = record(id, "x").unwrap().params;
        assert_eq!(read_record(&vec![row]).unwrap(), vec![id]);
    }
}

#[test]
fn migration_ids_beyond_the_safe_range_are_refused() {
    let migration = db::Migration::new_sql("A;".to_string());
    let ids = [(1 << 53) + 1, 1 << 60, i64::MAX as u64, 1 << 63, u64::MAX - (1 << 53)];
    for id in ids {
        let err = DriverError::DriverOperationFailed(D1Error::new(format!(
            "integer {} exceeds ±2^53, the range D1's JSON API carries without loss of precision",
            id as i64
        )));
        assert_eq!(record(id, "x").as_ref(), Err(&err));
        assert_eq!(apply_statements(id, "x", vec![]).err().as_ref(), Some(&err));
        assert_eq!(connection().apply_migration(id, "x", &migration).err(), Some(err));
    }
}

#[test]
fn record_holds_integers_only() {
    let err = DriverError::DriverOperationFailed(D1Error::new(
        "migration id is not an integer".to_string(),
    ));
    for row in [vec![], vec![Json::Null], vec![Json::String("1".to_string())], vec![integer(1 << 63)]] {
        assert_eq!(read_record(&vec![vec![integer(1)], row]).as_ref(), Err(&err));
    }
    assert_eq!(read_record(&vec![]).unwrap(), Vec::<u64>::new());
}

#[test]
fn migration_stops_where_the_record_does_not_read() {
    let mut script = apply_statements(1, "x", vec!["A".to_string()]).ok().unwrap();
    script.settle(Ok(nothing())).unwrap();
    let bad = RawOutcome { rows: vec![vec![Json::Null]], changes: 0 };
    assert!(script.settle(Ok(bad)).is_err());
    assert_eq!(script.next(), None);
}

#[test]
fn failed_migration_is_not_recorded() {
    let statements = vec!["A".to_string(), "B".to_string(), "C".to_string()];
    let mut script = apply_statements(1, "x", statements).ok().unwrap();
    let mut sent = vec![];
    while let Some(request) = script.next() {
        let sql = request.sql.clone();
        let outcome = if sql == "B" {
            Err(TransportError::Api(D1Error::new("no".to_string())))
        } else {
            Ok(nothing())
        };
        sent.push(sql);
        let settled = script.settle(outcome);
        assert_eq!(settled.is_err(), sent.last().unwrap() == "B");
    }
    assert_eq!(sent, vec![CREATE_RECORD, READ_RECORD, "A", "B"]);
}

#[test]
fn statements_of_a_migration_are_split_at_breakpoints() {
    let migration = db::Migration::new_sql(
        "A;\n-- #[toasty::breakpoint]\nB;\n-- #[toasty::breakpoint]\n".to_string(),
    );
    let sent = run(connection().apply_migration(1, "x", &migration).ok().unwrap());
    assert_eq!(&sent[2..5], ["A;", "B;", ""]);
    assert_eq!(sent.len(), 6);
}

#[test]
fn failure_of_a_script_is_classified() {
    let mut script = Script::new(vec![Request::command("A".to_string())]);
    let lost = TransportError::Lost(D1Error::new("gone".to_string()));
    assert_eq!(
        script.settle(Err(lost)),
        Err(DriverError::ConnectionLost(D1Error::new("gone".to_string())))
    );
    assert_eq!(script.next(), None);
}

#[test]
fn tables_come_before_their_indices() {
    let tables = vec![
        TableSql { create: "T1".to_string(), indices: vec!["I1".to_string(), "I2".to_string()] },
        TableSql { create: "T2".to_string(), indices: vec![] },
    ];
    assert_eq!(run(creation_script(tables)), vec!["T1", "I1", "I2", "T2"]);
}
