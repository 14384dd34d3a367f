//! Operations of the engine, from plan to answer.

use toasty_core::driver::operation::Transaction;
use toasty_core::driver::Operation;
use toasty_core::schema::db;
use toasty_core::stmt;
use toasty_driver_d1::batch::BatchPlan;
use toasty_driver_d1::connection::{
    batch_sql_return, bind_params, single_sql_return, unsupported_operation, Connection, Op, Plan,
    QuerySql, RawSql,
};
use toasty_driver_d1::driver::D1;
use toasty_driver_d1::error::{D1Error, DriverError, TransportError};
use toasty_driver_d1::json::{Json, Number};
use toasty_driver_d1::outcome::{RawOutcome, Want};
use toasty_driver_d1::response::{
    finish, finish_batch, rows_to_response, Response, SqlReturn,
};
use toasty_driver_d1::sql::StatementKind;
use toasty_driver_d1::value::{Cell, ColumnType, SqlValue};

fn integer(n: i128) -> Json {
    Json::Number(Number::Integer(n))
}

fn connection() -> Connection {
    D1::new("a".to_string(), "d".to_string(), "t".to_string()).connect()
}

fn column(index: usize, name: &str, ty: stmt::Type, storage_ty: db::Type) -> db::Column {
    db::Column {
        id: db::ColumnId { table: db::TableId(0), index },
        name: name.to_string(),
        ty,
        storage_ty,
        nullable: false,
        primary_key: index == 0,
        auto_increment: false,
        versionable: false,
    }
}

/// A schema with the table `users (id, name)`.
fn schema() -> db::Schema {
    let id = db::TableId(0);
    db::Schema {
        tables: vec![db::Table {
            id,
            name: "users".to_string(),
            columns: vec![
                column(0, "id", stmt::Type::I64, db::Type::Integer(8)),
                column(1, "name", stmt::Type::String, db::Type::Text),
            ],
            primary_key: db::PrimaryKey {
                columns: vec![db::ColumnId { table: id, index: 0 }],
                index: db::IndexId { table: id, index: 0 },
            },
            indices: vec![],
        }],
    }
}

fn id_column() -> stmt::Expr {
    stmt::Expr::column(stmt::ExprColumn { nesting: 0, table: 0, column: 0 })
}

fn returning_id() -> Option<stmt::Returning> {
    Some(stmt::Returning::Project(stmt::Expr::record([id_column()])))
}

fn insert(returning: Option<stmt::Returning>) -> stmt::Statement {
    let table = db::TableId(0);
    let columns = vec![
        db::ColumnId { table, index: 0 },
        db::ColumnId { table, index: 1 },
    ];
    let row = stmt::Expr::record([stmt::Expr::arg(0), stmt::Expr::arg(1)]);
    stmt::Insert {
        target: stmt::InsertTarget::Table(stmt::InsertTable { table, columns }),
        source: stmt::Query::values(stmt::Values::new(vec![row])),
        upsert: None,
        returning,
    }
    .into()
}

fn delete(returning: Option<stmt::Returning>) -> stmt::Statement {
    stmt::Delete {
        from: stmt::Source::from(db::TableId(0)),
        filter: stmt::Filter::new(stmt::Expr::eq(id_column(), stmt::Expr::arg(0))),
        returning,
        condition: stmt::Condition::default(),
    }
    .into()
}

fn update(condition: stmt::Condition, returning: Option<stmt::Returning>) -> stmt::Statement {
    let mut assignments = stmt::Assignments::default();
    assignments.set(1usize, stmt::Expr::arg(0));
    stmt::Update {
        target: stmt::UpdateTarget::Table(db::TableId(0)),
        assignments,
        filter: stmt::Filter::ALL,
        condition,
        returning,
    }
    .into()
}

fn select() -> stmt::Statement {
    let source = stmt::Source::Table(stmt::SourceTable {
        tables: vec![stmt::TableRef::Table(db::TableId(0))],
        from: vec![stmt::TableWithJoins {
            relation: stmt::TableFactor::Table(stmt::SourceTableId(0)),
            joins: vec![],
        }],
    });
    let select = stmt::Select {
        returning: stmt::Returning::Project(stmt::Expr::record([id_column()])),
        source,
        filter: stmt::Filter::ALL,
        distinct: false,
    };
    stmt::Statement::Query(stmt::Query::builder(select).build())
}

fn values_query() -> stmt::Statement {
    let row = stmt::Expr::record([stmt::Expr::arg(0)]);
    stmt::Statement::Query(stmt::Query::values(stmt::Values::new(vec![row])))
}

fn op(statement: stmt::Statement, params: Vec<SqlValue>, ret: Option<Vec<ColumnType>>) -> Op {
    Op::QuerySql(QuerySql::new(statement, params, ret, None))
}

fn unsupported(result: Result<Plan, DriverError>) -> String {
    match result {
        Err(DriverError::UnsupportedFeature(message)) => message,
        Err(other) => panic!("another error: {other:?}"),
        Ok(_) => panic!("planned"),
    }
}

fn new_user() -> Vec<SqlValue> {
    vec![SqlValue::I64(1), SqlValue::String("it's".to_string())]
}

#[test]
fn insert_is_planned_for_its_count() {
    let plan = connection().exec(&schema(), op(insert(None), new_user(), None)).ok().unwrap();
    assert_eq!(plan.request.sql, "INSERT INTO \"users\" (\"id\", \"name\") VALUES (?1, ?2);");
    assert_eq!(plan.request.params, vec![integer(1), Json::String("it's".to_string())]);
    assert_eq!(plan.request.want, Want::Changes);
    assert_eq!(plan.ret, SqlReturn::Count);
}

#[test]
fn returning_statements_are_planned_for_their_rows() {
    let types = || Some(vec![ColumnType::I64]);
    let statements =
        [insert(returning_id()), update(stmt::Condition::default(), returning_id())];
    for statement in statements {
        let plan = connection().exec(&schema(), op(statement, new_user(), types())).ok().unwrap();
        assert!(plan.request.sql.contains("RETURNING"), "{}", plan.request.sql);
        assert_eq!(plan.request.want, Want::Rows);
        assert_eq!(plan.ret, SqlReturn::Types(vec![ColumnType::I64]));
    }
}

#[test]
fn update_and_delete_are_planned_for_their_count() {
    let statements = [delete(None), update(stmt::Condition::default(), None)];
    for statement in statements {
        let plan = connection()
            .exec(&schema(), op(statement, vec![SqlValue::I64(3)], Some(vec![ColumnType::I64])))
            .ok()
            .unwrap();
        assert_eq!(plan.ret, SqlReturn::Count);
        assert_eq!(plan.request.want, Want::Changes);
        assert_eq!(plan.request.params, vec![integer(3)]);
    }
}

#[test]
fn select_is_planned_for_its_rows() {
    let plan = connection()
        .exec(&schema(), op(select(), vec![], Some(vec![ColumnType::U64])))
        .ok()
        .unwrap();
    assert_eq!(plan.request.sql, "SELECT tbl_0_0.\"id\" AS column1 FROM \"users\" AS tbl_0_0;");
    assert_eq!(plan.request.want, Want::Rows);
    assert_eq!(plan.ret, SqlReturn::Types(vec![ColumnType::U64]));
}

#[test]
fn other_queries_are_refused() {
    let result = connection().exec(&schema(), op(values_query(), vec![], None));
    assert_eq!(unsupported(result), "non-SELECT query bodies are not supported by the D1 driver");
}

#[test]
fn transactions_are_refused() {
    assert_eq!(
        unsupported(connection().exec(&schema(), Op::Transaction)),
        "the D1 HTTP API does not support interactive transactions"
    );
}

#[test]
fn other_operations_are_refused_by_name() {
    let operation: Operation = Transaction::start().into();
    let shown = format!("{operation:?}");
    assert_eq!(
        unsupported(connection().exec(&schema(), Op::Other(operation))),
        format!("operation not supported by the D1 driver: {shown}")
    );
}

#[test]
fn raw_sql_goes_out_as_it_is() {
    for (ret, want) in [
        (SqlReturn::Count, Want::Changes),
        (SqlReturn::Infer, Want::Rows),
        (SqlReturn::Types(vec![ColumnType::Bool]), Want::Rows),
    ] {
        let raw = RawSql { sql: "PRAGMA x".to_string(), params: vec![SqlValue::U8(9)], ret };
        let plan = connection().exec(&schema(), Op::RawSql(raw)).ok().unwrap();
        assert_eq!(plan.request.sql, "PRAGMA x");
        assert_eq!(plan.request.params, vec![integer(9)]);
        assert_eq!(plan.request.want, want);
    }
}

#[test]
fn nothing_is_planned_when_a_value_cannot_be_bound() {
    let params = vec![SqlValue::I64(1), SqlValue::I64(i64::MAX), SqlValue::I64(i64::MIN)];
    match connection().exec_sql("S".to_string(), params, SqlReturn::Count) {
        Err(DriverError::DriverOperationFailed(err)) => {
            assert!(err.message().starts_with("integer 9223372036854775807 exceeds"))
        }
        _ => panic!("the second value is too large"),
    }
    assert_eq!(bind_params(&vec![]).unwrap(), vec![]);
}

#[test]
fn engine_statements_can_be_told_from_others() {
    let fits = |op: Op| match op {
        Op::QuerySql(query) => (query.is_well_made(), query.declares_columns()),
        _ => panic!("not a statement"),
    };
    assert_eq!(fits(op(select(), vec![], None)), (false, true));
    assert_eq!(fits(op(select(), vec![], Some(vec![]))), (true, true));
    assert_eq!(fits(op(insert(returning_id()), vec![], None)), (false, false));
    assert_eq!(fits(op(delete(returning_id()), vec![], Some(vec![]))), (true, true));
    let condition = stmt::Condition::new(stmt::Expr::from(true));
    assert_eq!(fits(op(update(condition, None), vec![], None)), (false, true));
    assert_eq!(fits(Op::QuerySql(QuerySql::new(insert(None), vec![], None, Some(1)))), (false, true));
}

#[test]
fn statement_kinds_decide_what_comes_back() {
    assert_eq!(single_sql_return(StatementKind::Other, None).unwrap(), SqlReturn::Count);
    assert_eq!(
        single_sql_return(StatementKind::Delete { returning: true }, Some(vec![ColumnType::I8]))
            .unwrap(),
        SqlReturn::Types(vec![ColumnType::I8])
    );
}

fn two_rows() -> RawOutcome {
    RawOutcome {
        rows: vec![vec![integer(1), Json::String("a".to_string())], vec![integer(2)]],
        changes: 5,
    }
}

#[test]
fn counts_are_answered_with_the_change_count() {
    assert_eq!(rows_to_response(&two_rows(), &SqlReturn::Count), Ok(Response::Count(5)));
}

#[test]
fn typed_rows_are_answered_cell_by_cell() {
    let types = SqlReturn::Types(vec![ColumnType::U64, ColumnType::String]);
    assert_eq!(
        rows_to_response(&two_rows(), &types),
        Ok(Response::Rows(vec![
            vec![
                Cell::Exact(SqlValue::U64(1)),
                Cell::Exact(SqlValue::String("a".to_string())),
            ],
            vec![Cell::Exact(SqlValue::U64(2)), Cell::Exact(SqlValue::Null)],
        ]))
    );
}

#[test]
fn untyped_rows_are_answered_by_shape() {
    assert_eq!(
        rows_to_response(&two_rows(), &SqlReturn::Infer),
        Ok(Response::Rows(vec![
            vec![
                Cell::Exact(SqlValue::I64(1)),
                Cell::Exact(SqlValue::String("a".to_string())),
            ],
            vec![Cell::Exact(SqlValue::I64(2))],
        ]))
    );
}

#[test]
fn first_cell_that_does_not_decode_is_the_error() {
    let types = SqlReturn::Types(vec![ColumnType::I64, ColumnType::Bytes]);
    let outcome = RawOutcome {
        rows: vec![vec![integer(1)], vec![Json::Bool(true), Json::Array(vec![integer(300)])]],
        changes: 0,
    };
    assert_eq!(
        rows_to_response(&outcome, &types),
        Err(DriverError::DriverOperationFailed(D1Error::new(
            "cannot decode bool into I64".to_string()
        )))
    );
}

#[test]
fn wanted_half_is_all_that_counts() {
    let rows = RawOutcome { rows: two_rows().rows, changes: 0 };
    let changes = RawOutcome { rows: vec![], changes: 5 };
    assert_eq!(
        rows_to_response(&rows, &SqlReturn::Infer),
        rows_to_response(&two_rows(), &SqlReturn::Infer)
    );
    assert_eq!(
        rows_to_response(&changes, &SqlReturn::Count),
        rows_to_response(&two_rows(), &SqlReturn::Count)
    );
}

#[test]
fn transport_failures_become_driver_errors() {
    assert_eq!(
        finish(Err(TransportError::Lost(D1Error::new("gone".to_string()))), &SqlReturn::Count),
        Err(DriverError::ConnectionLost(D1Error::new("gone".to_string())))
    );
    assert_eq!(
        finish_batch(Err(TransportError::Api(D1Error::new("no".to_string()))), &vec![]),
        Err(DriverError::DriverOperationFailed(D1Error::new("no".to_string())))
    );
    assert_eq!(finish(Ok(two_rows()), &SqlReturn::Count), Ok(Response::Count(5)));
}

#[test]
fn batch_is_one_text() {
    let ops = vec![
        op(insert(returning_id()), new_user(), Some(vec![ColumnType::I64])),
        op(delete(None), vec![SqlValue::I64(2)], None),
    ];
    let plan = connection().exec_batch(&schema(), ops).ok().unwrap();
    assert_eq!(
        plan.batch.statements,
        vec![
            "INSERT INTO \"users\" (\"id\", \"name\") VALUES (1, 'it''s') RETURNING \"id\" AS column1;",
            "DELETE FROM \"users\" AS tbl_0_0 WHERE tbl_0_0.\"id\" = 2;",
        ]
    );
    assert_eq!(plan.batch.sql, plan.batch.statements.concat());
    assert_eq!(plan.rets, vec![SqlReturn::Types(vec![ColumnType::I64]), SqlReturn::Count]);
}

#[test]
fn batch_of_nothing_is_empty() {
    let plan = connection().exec_batch(&schema(), vec![]).ok().unwrap();
    assert_eq!(plan.batch.sql, "");
    assert_eq!(plan.batch.statements.len(), 0);
    assert_eq!(finish_batch(Ok(vec![]), &plan.rets), Ok(vec![]));
}

#[test]
fn selects_in_a_batch_are_counted() {
    let plan = connection()
        .exec_batch(&schema(), vec![op(select(), vec![], Some(vec![ColumnType::I64]))])
        .ok()
        .unwrap();
    assert_eq!(plan.rets, vec![SqlReturn::Count]);
}

#[test]
fn batch_takes_statements_only() {
    let raw = || Op::RawSql(RawSql { sql: "S".to_string(), params: vec![], ret: SqlReturn::Count });
    for other in [Op::Transaction, raw()] {
        let ops = vec![op(delete(None), vec![SqlValue::I64(2)], None), other];
        match connection().exec_batch(&schema(), ops) {
            Err(DriverError::UnsupportedFeature(message)) => {
                assert_eq!(message, "the D1 driver batches SQL statements only")
            }
            _ => panic!("not a statement"),
        }
    }
}

#[test]
fn first_operation_that_cannot_be_batched_is_the_error() {
    let ops = vec![op(delete(None), vec![SqlValue::I64(i64::MAX)], None), Op::Transaction];
    assert!(matches!(
        connection().exec_batch(&schema(), ops),
        Err(DriverError::DriverOperationFailed(_))
    ));
}

#[test]
fn batch_needs_an_answer_for_each_statement() {
    let outcome = || RawOutcome { rows: vec![], changes: 1 };
    assert_eq!(
        finish_batch(Ok(vec![outcome()]), &vec![SqlReturn::Count, SqlReturn::Count]),
        Err(DriverError::DriverOperationFailed(D1Error::new(
            "D1 returned 1 results for 2 statements".to_string()
        )))
    );
    assert_eq!(
        finish_batch(Ok(vec![outcome(), two_rows()]), &vec![SqlReturn::Count, SqlReturn::Count]),
        Ok(vec![Response::Count(1), Response::Count(5)])
    );
}

#[test]
fn batch_answer_with_a_bad_cell_is_an_error() {
    let rets = vec![SqlReturn::Types(vec![ColumnType::Bytes]), SqlReturn::Count];
    assert_eq!(
        finish_batch(Ok(vec![two_rows(), two_rows()]), &rets),
        Err(DriverError::DriverOperationFailed(D1Error::new(
            "cannot decode integer into Bytes".to_string()
        )))
    );
}

#[test]
fn statement_that_cannot_be_bound_leaves_the_batch_alone() {
    let mut plan = BatchPlan::new();
    let kind = StatementKind::Insert { returning: false };
    plan.add_statement(kind, "A ?1", &vec![SqlValue::Bool(true)], None).unwrap();
    let too_large = vec![SqlValue::I64(i64::MAX)];
    assert!(plan.add_statement(kind, "B ?1", &too_large, None).is_err());
    plan.add_statement(kind, "C;", &vec![], None).unwrap();
    assert_eq!(plan.batch.statements, vec!["A 1;", "C;"]);
    assert_eq!(plan.batch.sql, "A 1;C;");
    assert_eq!(plan.rets, vec![SqlReturn::Count, SqlReturn::Count]);
}

#[test]
fn batch_answers_rows_only_where_they_are_returned() {
    let types = || Some(vec![ColumnType::I64]);
    assert_eq!(batch_sql_return(StatementKind::Select, types()), SqlReturn::Count);
    assert_eq!(batch_sql_return(StatementKind::OtherQuery, None), SqlReturn::Count);
    assert_eq!(
        batch_sql_return(StatementKind::Update { returning: true, condition: true }, types()),
        SqlReturn::Types(vec![ColumnType::I64])
    );
}

#[test]
fn unsupported_operations_are_named() {
    assert_eq!(
        unsupported_operation("X"),
        DriverError::UnsupportedFeature("operation not supported by the D1 driver: X".to_string())
    );
}

#[test]
fn written_row_is_read_back() {
    let types = vec![ColumnType::U64, ColumnType::String, ColumnType::Bytes, ColumnType::Bool];
    let values = || {
        vec![
            SqlValue::U64(u64::MAX),
            SqlValue::String("it's".to_string()),
            SqlValue::Bytes(vec![0, 255]),
            SqlValue::Null,
        ]
    };
    let plan = connection().exec_sql("S".to_string(), values(), SqlReturn::Count).ok().unwrap();
    let outcome = RawOutcome { rows: vec![plan.request.params], changes: 1 };
    assert_eq!(
        rows_to_response(&outcome, &SqlReturn::Types(types)),
        Ok(Response::Rows(vec![values().into_iter().map(Cell::Exact).collect()]))
    );
}
