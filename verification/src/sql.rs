//! Toasty's SQL serializer, and what it is handed.

use vstd::prelude::*;

use crate::text::{ends_in_semicolon, joined, occurs, occurs_at};

verus! {

/// A statement as Toasty's engine writes it.
#[verifier::external_type_specification]
#[verifier::external_body]
pub struct ExCoreStatement(toasty_core::stmt::Statement);

/// A statement as the serializer takes it.
#[verifier::external_type_specification]
#[verifier::external_body]
pub struct ExSqlStatement(toasty_sql::Statement);

/// An operation of Toasty's engine.
#[verifier::external_type_specification]
#[verifier::external_body]
pub struct ExOperation(toasty_core::driver::Operation);

/// The tables of a database.
#[verifier::external_type_specification]
#[verifier::external_body]
pub struct ExDbSchema(toasty_core::schema::db::Schema);

/// A table of a database.
#[verifier::external_type_specification]
#[verifier::external_body]
pub struct ExDbTable(toasty_core::schema::db::Table);

/// An index of a table.
#[verifier::external_type_specification]
#[verifier::external_body]
pub struct ExDbIndex(toasty_core::schema::db::Index);

/// The difference between two schemas.
#[verifier::external_type_specification]
#[verifier::external_body]
pub struct ExSchemaDiff<'a>(toasty_core::schema::diff::Schema<'a>);

/// A step from one schema to another.
#[verifier::external_type_specification]
#[verifier::external_body]
pub struct ExMigrationStep<'a>(toasty_sql::MigrationStatement<'a>);

/// The text of a migration.
#[verifier::external_type_specification]
#[verifier::external_body]
pub struct ExMigration(toasty_core::schema::db::Migration);

/// What a statement is, as far as the driver looks.
#[derive(Debug, Clone, Copy, PartialEq, Eq, Structural)]
pub enum StatementKind {
    /// A query whose body is a `SELECT`.
    Select,
    /// Any other query.
    OtherQuery,
    Insert { returning: bool },
    Update { returning: bool, condition: bool },
    Delete { returning: bool },
    /// A statement of any other kind.
    Other,
}

/// What stands between the statements of a migration.
pub const BREAKPOINT: &'static str = "\n-- #[toasty::breakpoint]\n";

/// The statement for the serializer: what `toasty_sql::Statement::from`
/// returns.
pub uninterp spec fn sql_statement(
    statement: toasty_core::stmt::Statement,
) -> toasty_sql::Statement;

/// The kind of a statement, as its variant and its fields tell.
pub uninterp spec fn kind_of(statement: toasty_sql::Statement) -> StatementKind;

/// The text of a statement in SQLite's dialect: what
/// `toasty_sql::Serializer::sqlite(schema).serialize(statement)` returns.
/// `None` where the serializer panics: on a statement that was not lowered for
/// SQLite, or that is not about this schema.
pub uninterp spec fn sqlite_text(
    schema: toasty_core::schema::db::Schema,
    statement: toasty_sql::Statement,
) -> Option<Seq<char>>;

/// The debug text of an operation: what `Debug` writes for a
/// `toasty_core::driver::Operation`.
pub uninterp spec fn operation_text(op: toasty_core::driver::Operation) -> Seq<char>;

/// The tables that a schema holds.
pub uninterp spec fn tables_of(schema: toasty_core::schema::db::Schema) -> Seq<
    toasty_core::schema::db::Table,
>;

/// The indices that a table holds.
pub uninterp spec fn indices_of(table: toasty_core::schema::db::Table) -> Seq<
    toasty_core::schema::db::Index,
>;

/// Whether an index is that of the primary key.
pub uninterp spec fn is_primary_key(index: toasty_core::schema::db::Index) -> bool;

/// The statement that creates a table: what
/// `toasty_sql::Statement::create_table` returns for SQLite.
pub uninterp spec fn create_table_of(
    table: toasty_core::schema::db::Table,
) -> toasty_sql::Statement;

/// The statement that creates an index: what
/// `toasty_sql::Statement::create_index` returns.
pub uninterp spec fn create_index_of(
    index: toasty_core::schema::db::Index,
) -> toasty_sql::Statement;

/// The steps that a difference takes: what
/// `toasty_sql::MigrationStatement::from_diff` returns for SQLite. `None`
/// where it panics: on a difference between schemas whose table numbers do not
/// match.
pub uninterp spec fn steps_of(schema_diff: toasty_core::schema::diff::Schema) -> Option<
    Seq<toasty_sql::MigrationStatement>,
>;

/// The statement of a step: what `toasty_sql::MigrationStatement::statement`
/// returns.
pub uninterp spec fn step_statement(step: toasty_sql::MigrationStatement) -> toasty_sql::Statement;

/// The schema that a step applies to: what
/// `toasty_sql::MigrationStatement::schema` returns.
pub uninterp spec fn step_schema(
    step: toasty_sql::MigrationStatement,
) -> toasty_core::schema::db::Schema;

/// The text that a migration holds.
pub uninterp spec fn migration_text(migration: toasty_core::schema::db::Migration) -> Seq<char>;

/// Whether `separator` occurs in `text` at `at` and nowhere before.
pub open spec fn first_occurs_at(text: Seq<char>, separator: Seq<char>, at: int) -> bool {
    &&& occurs_at(text, separator, at)
    &&& forall|i: int| 0 <= i < at ==> !occurs_at(text, separator, i)
}

/// The pieces of `text` between the occurrences of `separator`, from left to
/// right.
pub open spec fn split(text: Seq<char>, separator: Seq<char>) -> Seq<Seq<char>>
    decreases text.len(),
{
    if separator.len() == 0 || !occurs(text, separator) {
        seq![text]
    } else {
        let at = choose|at: int| first_occurs_at(text, separator, at);
        if 0 <= at <= text.len() - separator.len() {
            seq![text.take(at)] + split(text.skip(at + separator.len()), separator)
        } else {
            seq![text]
        }
    }
}

/// The characters of each of the strings.
pub open spec fn strings_view(strings: Seq<String>) -> Seq<Seq<char>> {
    Seq::new(strings.len(), |i: int| strings[i]@)
}

/// Converts a statement with `toasty_sql::Statement::from`; the result depends
/// on the statement alone.
#[verifier::external_body]
pub(crate) fn to_sql_statement(statement: toasty_core::stmt::Statement) -> (r:
    toasty_sql::Statement)
    ensures
        r == sql_statement(statement),
{
    toasty_sql::Statement::from(statement)
}

/// Tells the variants of a `toasty_sql::Statement` apart, and whether those
/// that have the fields `returning` and `condition` have something in them.
#[verifier::external_body]
pub(crate) fn statement_kind(statement: &toasty_sql::Statement) -> (r: StatementKind)
    ensures
        r == kind_of(*statement),
{
    match statement {
        toasty_sql::Statement::Query(query) => match &query.body {
            toasty_core::stmt::ExprSet::Select(_) => StatementKind::Select,
            _ => StatementKind::OtherQuery,
        },
        toasty_sql::Statement::Insert(s) => StatementKind::Insert { returning: s.returning.is_some() },
        toasty_sql::Statement::Delete(s) => StatementKind::Delete { returning: s.returning.is_some() },
        toasty_sql::Statement::Update(s) => StatementKind::Update {
            returning: s.returning.is_some(),
            condition: s.condition.is_some(),
        },
        _ => StatementKind::Other,
    }
}

/// Writes a statement with the SQLite flavour of `toasty_sql::Serializer`,
/// which panics on a statement that it has no text for. The text ends in a
/// semicolon.
#[verifier::external_body]
pub(crate) fn serialize(
    schema: &toasty_core::schema::db::Schema,
    statement: &toasty_sql::Statement,
) -> (r: String)
    requires
        sqlite_text(*schema, *statement) is Some,
    ensures
        sqlite_text(*schema, *statement) == Some(r@),
        ends_in_semicolon(r@),
{
    toasty_sql::Serializer::sqlite(schema).serialize(statement)
}

/// Writes an operation with `Debug`, as `format!("{op:?}")` does.
#[verifier::external_body]
pub(crate) fn debug_operation(op: &toasty_core::driver::Operation) -> (r: String)
    ensures
        r@ == operation_text(*op),
{
    format!("{:?}", op)
}

/// Reads the field `tables` of a `toasty_core::schema::db::Schema`.
#[verifier::external_body]
pub(crate) fn tables(schema: &toasty_core::schema::db::Schema) -> (r: &Vec<
    toasty_core::schema::db::Table,
>)
    ensures
        r@ == tables_of(*schema),
{
    &schema.tables
}

/// Reads the field `indices` of a `toasty_core::schema::db::Table`.
#[verifier::external_body]
pub(crate) fn indices(table: &toasty_core::schema::db::Table) -> (r: &Vec<
    toasty_core::schema::db::Index,
>)
    ensures
        r@ == indices_of(*table),
{
    &table.indices
}

/// Reads the field `primary_key` of a `toasty_core::schema::db::Index`.
#[verifier::external_body]
pub(crate) fn primary_key(index: &toasty_core::schema::db::Index) -> (r: bool)
    ensures
        r == is_primary_key(*index),
{
    index.primary_key
}

/// Makes the statement that creates a table, with
/// `toasty_sql::Statement::create_table` and SQLite's capabilities.
#[verifier::external_body]
pub(crate) fn create_table(table: &toasty_core::schema::db::Table) -> (r: toasty_sql::Statement)
    ensures
        r == create_table_of(*table),
{
    toasty_sql::Statement::create_table(table, &toasty_core::driver::Capability::SQLITE)
}

/// Makes the statement that creates an index, with
/// `toasty_sql::Statement::create_index`.
#[verifier::external_body]
pub(crate) fn create_index(index: &toasty_core::schema::db::Index) -> (r: toasty_sql::Statement)
    ensures
        r == create_index_of(*index),
{
    toasty_sql::Statement::create_index(index)
}

/// Finds the steps that a difference takes, with
/// `toasty_sql::MigrationStatement::from_diff` and SQLite's capabilities. It
/// panics where the two schemas' table numbers do not match.
#[verifier::external_body]
pub(crate) fn steps<'a>(schema_diff: &'a toasty_core::schema::diff::Schema<'a>) -> (r: Vec<
    toasty_sql::MigrationStatement<'a>,
>)
    requires
        steps_of(*schema_diff) is Some,
    ensures
        steps_of(*schema_diff) == Some(r@),
{
    toasty_sql::MigrationStatement::from_diff(
        schema_diff,
        &toasty_core::driver::Capability::SQLITE,
    )
}

/// Calls `toasty_sql::MigrationStatement::statement`.
#[verifier::external_body]
pub(crate) fn statement_of_step<'a, 'b>(step: &'b toasty_sql::MigrationStatement<'a>) -> (r:
    &'b toasty_sql::Statement)
    ensures
        *r == step_statement(*step),
{
    step.statement()
}

/// Calls `toasty_sql::MigrationStatement::schema`.
#[verifier::external_body]
pub(crate) fn schema_of_step<'a, 'b>(step: &'b toasty_sql::MigrationStatement<'a>) -> (r:
    &'b toasty_core::schema::db::Schema)
    ensures
        *r == step_schema(*step),
{
    step.schema()
}

/// Makes a migration of statements, with
/// `toasty_core::schema::db::Migration::new_sql_with_breakpoints`. It joins
/// them with breakpoint markers.
#[verifier::external_body]
pub(crate) fn migration_from(statements: &Vec<String>) -> (r: toasty_core::schema::db::Migration)
    ensures
        migration_text(r) == joined(strings_view(statements@), BREAKPOINT@),
{
    toasty_core::schema::db::Migration::new_sql_with_breakpoints(statements)
}

/// The statements of a migration, with
/// `toasty_core::schema::db::Migration::statements`. It splits the text at the
/// breakpoint markers.
#[verifier::external_body]
pub(crate) fn migration_statements(migration: &toasty_core::schema::db::Migration) -> (r: Vec<
    String,
>)
    ensures
        strings_view(r@) == split(migration_text(*migration), BREAKPOINT@),
{
    migration.statements().into_iter().map(|statement| statement.to_string()).collect()
}

/// Strings stand for their characters, each at its place.
pub proof fn strings_stand_for_themselves(strings: Seq<String>, i: int)
    ensures
        strings_view(strings).len() == strings.len(),
        0 <= i < strings.len() ==> strings_view(strings)[i] == strings[i]@,
{
}

} // verus!
