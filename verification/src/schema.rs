//! How a schema is brought into a database, and from one shape to the next.

use vstd::prelude::*;

use crate::connection::Connection;
use crate::driver::D1;
use crate::error::{DriverError, DriverErrorView, TransportErrorView};
use crate::json::{JsonView, NumberView};
use crate::migration::{record, record_request, recorded, CREATE_RECORD, READ_RECORD};
use crate::outcome::{command, query, requests_view, RawOutcomeView, Request, RequestView};
use crate::script::{
    run, script_of, script_sends_up_to_the_first_failure, sent, Script, ScriptView,
};
use crate::sql::{
    create_index, create_index_of, create_table, create_table_of, first_occurs_at, indices,
    indices_of, is_primary_key, migration_from, migration_statements, migration_text, primary_key,
    schema_of_step, serialize, split, sqlite_text, statement_of_step, step_schema, step_statement,
    steps, steps_of, strings_view, tables, tables_of, BREAKPOINT,
};
use crate::text::{ends_in_semicolon, joined, occurs, occurs_at};
use crate::value::{as_signed, is_safe_integer, safe_integer_json};

verus! {

/// The statements that create a table and its indices.
#[derive(Debug, PartialEq)]
pub struct TableSql {
    pub create: String,
    pub indices: Vec<String>,
}

/// What a [`TableSql`] stands for.
#[verifier::ext_equal]
pub struct TableSqlView {
    pub create: Seq<char>,
    pub indices: Seq<Seq<char>>,
}

impl View for TableSql {
    type V = TableSqlView;

    open spec fn view(&self) -> TableSqlView {
        TableSqlView { create: self.create@, indices: strings_view(self.indices@) }
    }
}

/// What a list of [`TableSql`]s stands for.
pub open spec fn table_sqls_view(tables: Seq<TableSql>) -> Seq<TableSqlView> {
    Seq::new(tables.len(), |i: int| tables[i]@)
}

/// What creates a table and then its indices.
pub open spec fn table_commands(table: TableSqlView) -> Seq<RequestView> {
    seq![command(table.create)] + Seq::new(
        table.indices.len(),
        |i: int| command(table.indices[i]),
    )
}

/// What creates the first `n` tables, one after the other.
pub open spec fn creation_commands(tables: Seq<TableSqlView>, n: nat) -> Seq<RequestView>
    decreases n,
{
    if n == 0 {
        Seq::empty()
    } else {
        creation_commands(tables, (n - 1) as nat) + table_commands(tables[n - 1])
    }
}

/// The texts that create the first `n` of a table's indices. That of the
/// primary key comes with the table.
pub open spec fn index_texts(
    schema: toasty_core::schema::db::Schema,
    indices: Seq<toasty_core::schema::db::Index>,
    n: nat,
) -> Seq<Seq<char>>
    decreases n,
{
    if n == 0 {
        Seq::empty()
    } else {
        let done = index_texts(schema, indices, (n - 1) as nat);
        let index = indices[n - 1];
        if is_primary_key(index) {
            done
        } else {
            done.push(sqlite_text(schema, create_index_of(index))->0)
        }
    }
}

/// The statements that create a table and its indices.
pub open spec fn table_sql(
    schema: toasty_core::schema::db::Schema,
    table: toasty_core::schema::db::Table,
) -> TableSqlView {
    TableSqlView {
        create: sqlite_text(schema, create_table_of(table))->0,
        indices: index_texts(schema, indices_of(table), indices_of(table).len()),
    }
}

/// The statements that create the tables of a schema.
pub open spec fn schema_sql(schema: toasty_core::schema::db::Schema) -> Seq<TableSqlView> {
    Seq::new(tables_of(schema).len(), |i: int| table_sql(schema, tables_of(schema)[i]))
}

/// Whether the serializer has a text for what creates an index.
pub open spec fn index_has_text(
    schema: toasty_core::schema::db::Schema,
    index: toasty_core::schema::db::Index,
) -> bool {
    is_primary_key(index) || sqlite_text(schema, create_index_of(index)) is Some
}

/// Whether the serializer has a text for what creates a table and its indices.
pub open spec fn table_has_text(
    schema: toasty_core::schema::db::Schema,
    table: toasty_core::schema::db::Table,
) -> bool {
    &&& sqlite_text(schema, create_table_of(table)) is Some
    &&& forall|i: int|
        0 <= i < indices_of(table).len() ==> index_has_text(
            schema,
            #[trigger] indices_of(table)[i],
        )
}

/// What adds a migration's statements and then the migration itself.
pub open spec fn migration_requests(
    id: u64,
    name: Seq<char>,
    statements: Seq<Seq<char>>,
) -> Seq<RequestView> {
    seq![command(CREATE_RECORD@), query(READ_RECORD@)] + Seq::new(
        statements.len(),
        |i: int| command(statements[i]),
    ) + seq![record_request(id, name)]
}

/// The script that applies a migration, or the error that refuses an
/// identifier that D1's JSON API would corrupt.
pub open spec fn migration_script(
    id: u64,
    name: Seq<char>,
    statements: Seq<Seq<char>>,
) -> Result<ScriptView, DriverErrorView> {
    match safe_integer_json(as_signed(id)) {
        Err(message) => Err(DriverErrorView::DriverOperationFailed(message)),
        Ok(_) => Ok(script_of(migration_requests(id, name, statements), Some(1))),
    }
}

/// A script or an error, as the specifications speak of it.
pub open spec fn script_result(r: Result<Script, DriverError>) -> Result<
    ScriptView,
    DriverErrorView,
> {
    match r {
        Ok(script) => Ok(script@),
        Err(err) => Err(err@),
    }
}

/// The text of a step of a migration.
pub open spec fn step_text(step: toasty_sql::MigrationStatement) -> Option<Seq<char>> {
    sqlite_text(step_schema(step), step_statement(step))
}

/// The texts of the steps of a migration.
pub open spec fn step_texts(steps: Seq<toasty_sql::MigrationStatement>) -> Seq<Seq<char>> {
    Seq::new(steps.len(), |i: int| step_text(steps[i])->0)
}

impl Connection {
    /// Creates the tables of a schema, each with its indices.
    pub fn push_schema(&self, schema: &toasty_core::schema::db::Schema) -> (r: Script)
        requires
            forall|i: int|
                0 <= i < tables_of(*schema).len() ==> table_has_text(
                    *schema,
                    #[trigger] tables_of(*schema)[i],
                ),
        ensures
            r@ == script_of(
                creation_commands(schema_sql(*schema), schema_sql(*schema).len()),
                None,
            ),
    {
        let list = tables(schema);
        let mut texts: Vec<TableSql> = Vec::new();
        let mut i: usize = 0;
        while i < list.len()
            invariant
                i == texts@.len(),
                i <= list@.len(),
                list@ == tables_of(*schema),
                forall|k: int|
                    0 <= k < tables_of(*schema).len() ==> table_has_text(
                        *schema,
                        #[trigger] tables_of(*schema)[k],
                    ),
                forall|k: int|
                    0 <= k < i ==> (#[trigger] texts@[k])@ == table_sql(*schema, list@[k]),
            decreases list@.len() - i,
        {
            assert(table_has_text(*schema, tables_of(*schema)[i as int]));
            texts.push(write_table(schema, &list[i]));
            i += 1;
        }
        assert(table_sqls_view(texts@) =~= schema_sql(*schema));
        creation_script(texts)
    }

    /// Reads which migrations have been applied. The rows of the last
    /// statement are the record.
    pub fn applied_migrations(&self) -> (r: Script)
        ensures
            r@ == script_of(seq![command(CREATE_RECORD@), query(READ_RECORD@)], Some(1)),
    {
        let mut requests: Vec<Request> = Vec::new();
        requests.push(Request::command(CREATE_RECORD.to_string()));
        requests.push(Request::query(READ_RECORD.to_string()));
        assert(requests_view(requests@) =~= seq![command(CREATE_RECORD@), query(READ_RECORD@)]);
        Script::reading_record(requests, 1)
    }

    /// Applies a migration, statement by statement, and records it at the end.
    ///
    /// No transaction spans the statements: a migration that fails leaves the
    /// earlier ones applied. Rerunning it after a fix is the way out. An
    /// identifier that could not be recorded is refused before anything is
    /// sent.
    pub fn apply_migration(
        &self,
        id: u64,
        name: &str,
        migration: &toasty_core::schema::db::Migration,
    ) -> (r: Result<Script, DriverError>)
        ensures
            script_result(r) == migration_script(
                id,
                name@,
                split(migration_text(*migration), BREAKPOINT@),
            ),
    {
        apply_statements(id, name, migration_statements(migration))
    }
}

/// Applies the statements of a migration one by one, and records it at the
/// end. An identifier that could not be recorded is refused.
pub fn apply_statements(id: u64, name: &str, statements: Vec<String>) -> (r: Result<
    Script,
    DriverError,
>)
    ensures
        script_result(r) == migration_script(id, name@, strings_view(statements@)),
{
    let last = match record(id, name) {
        Ok(last) => last,
        Err(err) => return Err(err),
    };
    let ghost texts = strings_view(statements@);
    let ghost opening = seq![command(CREATE_RECORD@), query(READ_RECORD@)];
    let ghost all = statements@;
    let mut requests: Vec<Request> = Vec::new();
    requests.push(Request::command(CREATE_RECORD.to_string()));
    requests.push(Request::query(READ_RECORD.to_string()));
    assert(requests_view(requests@) =~= opening + Seq::new(0, |i: int| command(texts[i])));
    for statement in it: statements
        invariant
            it.seq() == all,
            texts == strings_view(all),
            requests_view(requests@) == opening + Seq::new(
                it.index() as nat,
                |i: int| command(texts[i]),
            ),
    {
        let ghost before = requests_view(requests@);
        let ghost at = it.index();
        requests.push(Request::command(statement));
        proof {
            assert(texts[at] == statement@);
            assert(requests_view(requests@) =~= before.push(command(texts[at])));
            assert(requests_view(requests@) =~= opening + Seq::new(
                (at + 1) as nat,
                |i: int| command(texts[i]),
            ));
        }
    }
    let ghost before = requests_view(requests@);
    requests.push(last);
    assert(requests_view(requests@) =~= before.push(record_request(id, name@)));
    assert(requests_view(requests@) =~= migration_requests(id, name@, texts));
    Ok(Script::reading_record(requests, 1))
}

/// Writes the statements that create a table and its indices.
fn write_table(
    schema: &toasty_core::schema::db::Schema,
    table: &toasty_core::schema::db::Table,
) -> (r: TableSql)
    requires
        table_has_text(*schema, *table),
    ensures
        r@ == table_sql(*schema, *table),
{
    let create = serialize(schema, &create_table(table));
    let list = indices(table);
    let mut texts: Vec<String> = Vec::new();
    assert(strings_view(texts@) =~= Seq::<Seq<char>>::empty());
    let mut i: usize = 0;
    while i < list.len()
        invariant
            i <= list@.len(),
            list@ == indices_of(*table),
            table_has_text(*schema, *table),
            strings_view(texts@) == index_texts(*schema, list@, i as nat),
        decreases list@.len() - i,
    {
        assert(index_has_text(*schema, indices_of(*table)[i as int]));
        let index = &list[i];
        if !primary_key(index) {
            let ghost before = strings_view(texts@);
            let text = serialize(schema, &create_index(index));
            texts.push(text);
            assert(strings_view(texts@) =~= before.push(text@));
        }
        i += 1;
    }
    TableSql { create, indices: texts }
}

/// Creates tables one by one, each with its indices.
pub fn creation_script(tables: Vec<TableSql>) -> (r: Script)
    ensures
        r@ == script_of(creation_commands(table_sqls_view(tables@), tables@.len()), None),
{
    let ghost all = tables@;
    let ghost views = table_sqls_view(all);
    let mut requests: Vec<Request> = Vec::new();
    assert(requests_view(requests@) =~= Seq::<RequestView>::empty());
    for table in it: tables
        invariant
            it.seq() == all,
            all == tables@,
            views == table_sqls_view(all),
            requests_view(requests@) == creation_commands(views, it.index() as nat),
    {
        let ghost at = it.index();
        assert(views[at] == table@);
        push_table(&mut requests, table);
    }
    Script::new(requests)
}

/// Appends what creates a table and its indices.
fn push_table(requests: &mut Vec<Request>, table: TableSql)
    ensures
        requests_view(final(requests)@) == requests_view(old(requests)@) + table_commands(table@),
{
    let ghost before = requests_view(requests@);
    let ghost first = command(table.create@);
    let ghost texts = table@.indices;
    let ghost all = table.indices@;
    requests.push(Request::command(table.create));
    assert(requests_view(requests@) =~= before + (seq![first] + Seq::new(
        0,
        |i: int| command(texts[i]),
    )));
    for index in it: table.indices
        invariant
            it.seq() == all,
            texts == strings_view(all),
            requests_view(requests@) == before + (seq![first] + Seq::new(
                it.index() as nat,
                |i: int| command(texts[i]),
            )),
    {
        let ghost at = it.index();
        let ghost so_far = requests_view(requests@);
        requests.push(Request::command(index));
        proof {
            assert(texts[at] == index@);
            assert(requests_view(requests@) =~= so_far.push(command(texts[at])));
            assert(requests_view(requests@) =~= before + (seq![first] + Seq::new(
                (at + 1) as nat,
                |i: int| command(texts[i]),
            )));
        }
    }
}

impl D1 {
    /// Writes down the steps from one schema to another.
    pub fn generate_migration<'a>(
        &self,
        schema_diff: &'a toasty_core::schema::diff::Schema<'a>,
    ) -> (r: toasty_core::schema::db::Migration)
        requires
            steps_of(*schema_diff) is Some,
            forall|i: int|
                0 <= i < (steps_of(*schema_diff)->0).len() ==> step_text(
                    #[trigger] (steps_of(*schema_diff)->0)[i],
                ) is Some,
        ensures
            migration_text(r) == joined(step_texts(steps_of(*schema_diff)->0), BREAKPOINT@),
            forall|i: int|
                0 <= i < step_texts(steps_of(*schema_diff)->0).len() ==> ends_in_semicolon(
                    #[trigger] step_texts(steps_of(*schema_diff)->0)[i],
                ),
    {
        let list = steps(schema_diff);
        let mut texts: Vec<String> = Vec::new();
        let mut i: usize = 0;
        while i < list.len()
            invariant
                i == texts@.len(),
                i <= list@.len(),
                steps_of(*schema_diff) == Some(list@),
                forall|k: int|
                    0 <= k < (steps_of(*schema_diff)->0).len() ==> step_text(
                        #[trigger] (steps_of(*schema_diff)->0)[k],
                    ) is Some,
                forall|k: int|
                    0 <= k < i ==> (#[trigger] texts@[k])@ == step_text(list@[k])->0
                        && ends_in_semicolon(texts@[k]@),
            decreases list@.len() - i,
        {
            assert(step_text((steps_of(*schema_diff)->0)[i as int]) is Some);
            texts.push(serialize(schema_of_step(&list[i]), statement_of_step(&list[i])));
            i += 1;
        }
        assert(strings_view(texts@) =~= step_texts(list@));
        assert forall|k: int| 0 <= k < step_texts(list@).len() implies ends_in_semicolon(
            #[trigger] step_texts(list@)[k],
        ) by {
            assert(texts@[k]@ == step_texts(list@)[k]);
        }
        migration_from(&texts)
    }
}

/// A migration's statements are sent in their order, and its record last. It
/// is recorded only once they have all succeeded.
pub proof fn failed_migration_is_not_recorded(
    id: u64,
    name: Seq<char>,
    statements: Seq<Seq<char>>,
    outcomes: Seq<Result<RawOutcomeView, TransportErrorView>>,
)
    requires
        migration_script(id, name, statements) is Ok,
    ensures
        ({
            let script = migration_script(id, name, statements)->Ok_0;
            let requests = script.requests;
            let count = sent(script, outcomes).len();
            &&& recorded(id, name) == Ok::<RequestView, DriverErrorView>(requests.last())
            &&& forall|i: int|
                0 <= i < statements.len() ==> #[trigger] requests[i + 2] == command(statements[i])
            &&& count <= requests.len()
            &&& sent(script, outcomes) == requests.take(count as int)
            &&& count == requests.len() ==> run(script, outcomes).position >= requests.len() - 1
        }),
{
    let requests = migration_requests(id, name, statements);
    script_sends_up_to_the_first_failure(requests, Some(1), outcomes);
}

/// Whether a value is no integer that D1's JSON API would corrupt.
pub open spec fn arrives_unchanged(json: JsonView) -> bool {
    json matches JsonView::Number(NumberView::Integer(n)) ==> is_safe_integer(n)
}

/// A migration whose identifier D1's JSON API would corrupt is refused, and no
/// other. No statement of a migration carries an integer that would be
/// corrupted.
pub proof fn migrations_send_only_safe_integers(
    id: u64,
    name: Seq<char>,
    statements: Seq<Seq<char>>,
)
    ensures
        migration_script(id, name, statements) is Ok <==> is_safe_integer(as_signed(id)),
        migration_script(id, name, statements) is Ok ==> {
            let requests = (migration_script(id, name, statements)->Ok_0).requests;
            forall|i: int, j: int|
                0 <= i < requests.len() && 0 <= j < requests[i].params.len()
                    ==> arrives_unchanged(#[trigger] requests[i].params[j])
        },
{
}

/// A step's text can be told apart in a migration: it ends in a semicolon, as
/// all that the serializer writes does, and holds no breakpoint marker.
pub open spec fn separable(text: Seq<char>) -> bool {
    ends_in_semicolon(text) && !occurs(text, BREAKPOINT@)
}

proof fn lemma_joined_front(parts: Seq<Seq<char>>, separator: Seq<char>)
    requires
        parts.len() > 1,
    ensures
        joined(parts, separator) == parts[0] + separator + joined(parts.skip(1), separator),
    decreases parts.len(),
{
    let rest = parts.skip(1);
    if parts.len() == 2 {
        assert(joined(parts.drop_last(), separator) == parts[0]);
        assert(joined(rest, separator) == parts[1]);
    } else {
        lemma_joined_front(parts.drop_last(), separator);
        assert(parts.drop_last().skip(1) =~= rest.drop_last());
        assert(rest.last() == parts.last());
        assert(joined(parts, separator) =~= parts[0] + separator + joined(rest, separator));
    }
}

proof fn lemma_first_marker(text: Seq<char>, rest: Seq<char>)
    requires
        separable(text),
    ensures
        first_occurs_at(text + BREAKPOINT@ + rest, BREAKPOINT@, text.len() as int),
        BREAKPOINT@.len() > 0,
{
    reveal_strlit("\n-- #[toasty::breakpoint]\n");
    let marker = BREAKPOINT@;
    let whole = text + marker + rest;
    assert(whole.subrange(text.len() as int, (text.len() + marker.len()) as int) =~= marker);
    assert(occurs_at(whole, marker, text.len() as int));
    assert forall|i: int| 0 <= i < text.len() implies !occurs_at(whole, marker, i) by {
        if occurs_at(whole, marker, i) {
            if i + marker.len() <= text.len() {
                assert(text.subrange(i, i + marker.len()) =~= marker);
                assert(occurs_at(text, marker, i));
            } else {
                let k = text.len() - 1 - i;
                assert(marker[k] == whole.subrange(i, i + marker.len())[k]);
                assert(marker[k] == ';');
            }
        }
    }
}

/// The statements of a migration are those that it was made of.
pub proof fn migration_keeps_its_statements(texts: Seq<Seq<char>>)
    requires
        texts.len() > 0,
        forall|i: int| 0 <= i < texts.len() ==> separable(#[trigger] texts[i]),
    ensures
        split(joined(texts, BREAKPOINT@), BREAKPOINT@) == texts,
    decreases texts.len(),
{
    let marker = BREAKPOINT@;
    let whole = joined(texts, marker);
    if texts.len() == 1 {
        assert(separable(texts[0]));
        assert(split(whole, marker) =~= texts);
    } else {
        let first = texts[0];
        let rest = joined(texts.skip(1), marker);
        assert(separable(first));
        lemma_joined_front(texts, marker);
        lemma_first_marker(first, rest);
        assert forall|i: int| 0 <= i < texts.skip(1).len() implies separable(
            #[trigger] texts.skip(1)[i],
        ) by {
            assert(texts.skip(1)[i] == texts[i + 1]);
        }
        migration_keeps_its_statements(texts.skip(1));
        assert(occurs_at(whole, marker, first.len() as int));
        let at = choose|at: int| first_occurs_at(whole, marker, at);
        assert(first_occurs_at(whole, marker, at));
        assert(at == first.len());
        assert(whole.take(at) =~= first);
        assert(whole.skip(at + marker.len()) =~= rest);
        assert(split(whole, marker) =~= texts);
    }
}

/// A migration that was generated is applied step by step: what is sent are
/// the texts of the steps, each by itself. A migration without steps is left
/// out: it has one statement, which is empty.
pub proof fn generated_migration_applies_its_steps(
    migration: toasty_core::schema::db::Migration,
    steps: Seq<toasty_sql::MigrationStatement>,
    id: u64,
    name: Seq<char>,
)
    requires
        migration_text(migration) == joined(step_texts(steps), BREAKPOINT@),
        steps.len() > 0,
        forall|i: int| 0 <= i < steps.len() ==> separable(#[trigger] step_texts(steps)[i]),
    ensures
        migration_script(id, name, split(migration_text(migration), BREAKPOINT@))
            == migration_script(id, name, step_texts(steps)),
{
    migration_keeps_its_statements(step_texts(steps));
}

/// What creates tables stands for itself: tables and indices keep their number
/// and their places.
pub proof fn table_sql_stands_for_itself(tables: Seq<TableSql>, i: int, j: int)
    ensures
        table_sqls_view(tables).len() == tables.len(),
        0 <= i < tables.len() ==> table_sqls_view(tables)[i].create == tables[i].create@,
        0 <= i < tables.len() ==> table_sqls_view(tables)[i].indices.len()
            == tables[i].indices@.len(),
        0 <= i < tables.len() && 0 <= j < tables[i].indices@.len() ==> table_sqls_view(
            tables,
        )[i].indices[j] == tables[i].indices@[j]@,
{
}

/// A script or an error stands for itself.
pub proof fn script_result_stands_for_itself(script: Script, err: DriverError)
    ensures
        script_result(Ok(script)) == Ok::<ScriptView, DriverErrorView>(script@),
        script_result(Err(err)) == Err::<ScriptView, DriverErrorView>(err@),
{
}

/// Each index gets its text, but for that of the primary key: one for each, in
/// the order of the indices, and nothing else.
pub proof fn indices_are_written_in_order(
    schema: toasty_core::schema::db::Schema,
    indices: Seq<toasty_core::schema::db::Index>,
)
    ensures
        index_texts(schema, indices, indices.len()) == indices.filter(
            |index: toasty_core::schema::db::Index| !is_primary_key(index),
        ).map_values(
            |index: toasty_core::schema::db::Index|
                sqlite_text(schema, create_index_of(index))->0,
        ),
    decreases indices.len(),
{
    reveal(Seq::filter);
    let kept = |index: toasty_core::schema::db::Index| !is_primary_key(index);
    let written = |index: toasty_core::schema::db::Index|
        sqlite_text(schema, create_index_of(index))->0;
    if indices.len() > 0 {
        let fewer = indices.drop_last();
        indices_are_written_in_order(schema, fewer);
        lemma_index_texts_of_prefix(schema, indices, fewer, fewer.len());
        let before = fewer.filter(kept);
        if is_primary_key(indices.last()) {
            assert(indices.filter(kept) =~= before);
        } else {
            assert(indices.filter(kept) =~= before.push(indices.last()));
            assert(indices.filter(kept).map_values(written) =~= before.map_values(written).push(
                written(indices.last()),
            ));
        }
    } else {
        assert(indices.filter(kept).map_values(written) =~= index_texts(schema, indices, 0));
    }
}

proof fn lemma_index_texts_of_prefix(
    schema: toasty_core::schema::db::Schema,
    indices: Seq<toasty_core::schema::db::Index>,
    fewer: Seq<toasty_core::schema::db::Index>,
    n: nat,
)
    requires
        n <= fewer.len() <= indices.len(),
        fewer == indices.take(fewer.len() as int),
    ensures
        index_texts(schema, indices, n) == index_texts(schema, fewer, n),
    decreases n,
{
    if n > 0 {
        lemma_index_texts_of_prefix(schema, indices, fewer, (n - 1) as nat);
    }
}

/// The tables of a schema are written one by one, each with the text that
/// creates it and those of its indices.
pub proof fn schema_is_written_table_by_table(schema: toasty_core::schema::db::Schema, i: int)
    requires
        0 <= i < tables_of(schema).len(),
    ensures
        schema_sql(schema).len() == tables_of(schema).len(),
        schema_sql(schema)[i].create == sqlite_text(
            schema,
            create_table_of(tables_of(schema)[i]),
        )->0,
        schema_sql(schema)[i].indices == indices_of(tables_of(schema)[i]).filter(
            |index: toasty_core::schema::db::Index| !is_primary_key(index),
        ).map_values(
            |index: toasty_core::schema::db::Index|
                sqlite_text(schema, create_index_of(index))->0,
        ),
{
    indices_are_written_in_order(schema, indices_of(tables_of(schema)[i]));
}

/// A table is created first, and then its indices in their order. Each
/// statement is sent as it is, for its effect.
pub proof fn table_comes_before_its_indices(table: TableSqlView, i: int)
    ensures
        table_commands(table).len() == table.indices.len() + 1,
        table_commands(table)[0].sql == table.create,
        0 <= i < table.indices.len() ==> table_commands(table)[i + 1].sql == table.indices[i],
        0 <= i <= table.indices.len() ==> table_commands(table)[i].params.len() == 0
            && table_commands(table)[i].want is Changes,
{
}

proof fn lemma_creation_of_prefix(
    tables: Seq<TableSqlView>,
    more: Seq<TableSqlView>,
    n: nat,
)
    requires
        n <= tables.len() <= more.len(),
        tables == more.take(tables.len() as int),
    ensures
        creation_commands(more, n) == creation_commands(tables, n),
    decreases n,
{
    if n > 0 {
        lemma_creation_of_prefix(tables, more, (n - 1) as nat);
    }
}

/// Each table is created after those before it. Without tables there is
/// nothing to create.
pub proof fn tables_are_created_in_order(tables: Seq<TableSqlView>, table: TableSqlView)
    ensures
        creation_commands(Seq::empty(), 0).len() == 0,
        creation_commands(tables.push(table), tables.push(table).len()) == creation_commands(
            tables,
            tables.len(),
        ) + table_commands(table),
{
    assert(tables.push(table).take(tables.len() as int) =~= tables);
    lemma_creation_of_prefix(tables, tables.push(table), tables.len());
}

/// A migration first makes room for the record and reads it, then runs its
/// statements in their order, and then records itself.
pub proof fn migration_runs_in_order(
    id: u64,
    name: Seq<char>,
    statements: Seq<Seq<char>>,
    i: int,
)
    ensures
        ({
            let requests = migration_requests(id, name, statements);
            &&& requests.len() == statements.len() + 3
            &&& requests[0].sql == CREATE_RECORD@
            &&& requests[0].want is Changes
            &&& requests[1].sql == READ_RECORD@
            &&& requests[1].want is Rows
            &&& 0 <= i < statements.len() ==> requests[i + 2].sql == statements[i]
                && requests[i + 2].want is Changes
            &&& 0 <= i < statements.len() + 2 ==> requests[i].params.len() == 0
            &&& recorded(id, name) is Ok ==> requests.last() == recorded(
                id,
                name,
            )->Ok_0
        }),
{
}

/// A migration is applied from its start, with the second statement reading the
/// record. It is refused exactly if it could not be recorded, and as that would
/// be refused.
pub proof fn migration_is_applied_if_it_can_be_recorded(
    id: u64,
    name: Seq<char>,
    statements: Seq<Seq<char>>,
)
    ensures
        match recorded(id, name) {
            Ok(request) => {
                &&& migration_script(id, name, statements) is Ok
                &&& (migration_script(id, name, statements)->Ok_0).requests == migration_requests(
                    id,
                    name,
                    statements,
                )
                &&& (migration_script(id, name, statements)->Ok_0).record_at == Some(1int)
                &&& (migration_script(id, name, statements)->Ok_0).position == 0
                &&& !(migration_script(id, name, statements)->Ok_0).failed
            },
            Err(err) => migration_script(id, name, statements) == Err::<
                ScriptView,
                DriverErrorView,
            >(err),
        },
{
}

/// Each step of a migration gets its text, at its place: that of its statement
/// in the schema that the step applies to.
pub proof fn steps_are_written_in_order(steps: Seq<toasty_sql::MigrationStatement>, i: int)
    requires
        0 <= i < steps.len(),
        sqlite_text(step_schema(steps[i]), step_statement(steps[i])) is Some,
    ensures
        step_texts(steps).len() == steps.len(),
        sqlite_text(step_schema(steps[i]), step_statement(steps[i])) == Some(step_texts(steps)[i]),
{
}

proof fn lemma_first_occurrence(text: Seq<char>, separator: Seq<char>, at: int)
    requires
        occurs_at(text, separator, at),
    ensures
        exists|first: int| first_occurs_at(text, separator, first),
    decreases at,
{
    if exists|i: int| 0 <= i < at && occurs_at(text, separator, i) {
        let i = choose|i: int| 0 <= i < at && occurs_at(text, separator, i);
        lemma_first_occurrence(text, separator, i);
    } else {
        assert(first_occurs_at(text, separator, at));
    }
}

/// The pieces of a text give the text again when they are joined with what
/// stood between them.
pub proof fn pieces_join_to_the_text(text: Seq<char>, separator: Seq<char>)
    requires
        separator.len() > 0,
    ensures
        split(text, separator).len() > 0,
        joined(split(text, separator), separator) == text,
    decreases text.len(),
{
    if occurs(text, separator) {
        let some = choose|at: int| occurs_at(text, separator, at);
        lemma_first_occurrence(text, separator, some);
        let at = choose|at: int| first_occurs_at(text, separator, at);
        let rest = text.skip(at + separator.len());
        pieces_join_to_the_text(rest, separator);
        let pieces = split(text, separator);
        assert(pieces.skip(1) =~= split(rest, separator));
        lemma_joined_front(pieces, separator);
        assert(text =~= text.take(at) + separator + rest);
    }
}

} // verus!
