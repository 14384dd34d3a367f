//! A connection: which statements its operations send, and what the answers
//! mean.
//!
//! A connection does no I/O of its own. An operation is turned into a plan;
//! whoever drives the connection sends what the plan says, and hands the
//! outcome back.

use vstd::prelude::*;

use crate::binding::js_arg;
use crate::error::{D1Error, DriverError, DriverErrorView};
use crate::http::D1ClientView;
use crate::json::{json_views, Json, JsonView};
use crate::outcome::{RawOutcomeView, Request, RequestView, Want};
use crate::response::{
    response_to, typed_cells, typed_rows, wanted, ResponseView, SqlReturn, SqlReturnView,
};
use crate::sql::{
    debug_operation, kind_of, operation_text, serialize, sql_statement, sqlite_text,
    statement_kind, to_sql_statement, StatementKind,
};
use crate::transport::{call_for, Transport, TransportView};
use crate::value::{
    belongs_to, bound_json, bound_value_reads_back, cell_of, param_to_json, CellView, ColumnType,
    SqlValue, SqlValueView,
};

verus! {

/// What a list of values stands for.
pub open spec fn values_view(values: Seq<SqlValue>) -> Seq<SqlValueView> {
    Seq::new(values.len(), |i: int| values[i]@)
}

/// The JSON that binds the first `n` values, or the message of the first that
/// cannot be bound.
pub open spec fn bound_params(params: Seq<SqlValueView>, n: nat) -> Result<
    Seq<JsonView>,
    Seq<char>,
>
    decreases n,
{
    if n == 0 {
        Ok(Seq::empty())
    } else {
        match bound_params(params, (n - 1) as nat) {
            Err(message) => Err(message),
            Ok(done) => match bound_json(params[n - 1]) {
                Err(message) => Err(message),
                Ok(json) => Ok(done.push(json)),
            },
        }
    }
}

proof fn lemma_bound_params_fail(params: Seq<SqlValueView>, n: nat, m: nat)
    requires
        n <= m,
        bound_params(params, n) is Err,
    ensures
        bound_params(params, m) == bound_params(params, n),
    decreases m,
{
    if n < m {
        lemma_bound_params_fail(params, n, (m - 1) as nat);
    }
}

/// Encodes the values that a statement binds.
pub fn bind_params(params: &Vec<SqlValue>) -> (r: Result<Vec<Json>, D1Error>)
    ensures
        match r {
            Ok(done) => bound_params(values_view(params@), params@.len()) == Ok::<
                Seq<JsonView>,
                Seq<char>,
            >(json_views(done@)),
            Err(err) => bound_params(values_view(params@), params@.len()) == Err::<
                Seq<JsonView>,
                Seq<char>,
            >(err@),
        },
{
    let ghost views = values_view(params@);
    let mut done: Vec<Json> = Vec::new();
    assert(json_views(done@) =~= Seq::<JsonView>::empty());
    let mut i: usize = 0;
    while i < params.len()
        invariant
            i <= params@.len(),
            views == values_view(params@),
            bound_params(views, i as nat) == Ok::<Seq<JsonView>, Seq<char>>(json_views(done@)),
        decreases params@.len() - i,
    {
        assert(views[i as int] == params@[i as int]@);
        match param_to_json(&params[i]) {
            Err(err) => {
                proof {
                    lemma_bound_params_fail(views, (i + 1) as nat, views.len());
                }
                return Err(err);
            },
            Ok(json) => {
                let ghost before = done@;
                done.push(json);
                assert(json_views(done@) =~= json_views(before).push(json@));
            },
        }
        i += 1;
    }
    Ok(done)
}

/// A statement of Toasty's engine.
pub struct QuerySql {
    pub statement: toasty_sql::Statement,
    /// The values that the statement binds.
    pub params: Vec<SqlValue>,
    /// The types of the columns that the statement returns.
    pub ret: Option<Vec<ColumnType>>,
    /// A workaround for another database, which D1 has no use for.
    pub last_insert_id_hack: Option<u64>,
}

impl QuerySql {
    /// Takes a statement over from the engine.
    pub fn new(
        stmt: toasty_core::stmt::Statement,
        params: Vec<SqlValue>,
        ret: Option<Vec<ColumnType>>,
        last_insert_id_hack: Option<u64>,
    ) -> (r: QuerySql)
        ensures
            r == (QuerySql { statement: sql_statement(stmt), params, ret, last_insert_id_hack }),
    {
        QuerySql { statement: to_sql_statement(stmt), params, ret, last_insert_id_hack }
    }

    /// Whether the statement is fit to run by itself: see [`well_made`].
    pub fn is_well_made(&self) -> (r: bool)
        ensures
            r == (self.last_insert_id_hack is None && well_made(
                kind_of(self.statement),
                types_view(self.ret),
            )),
    {
        let kind = statement_kind(&self.statement);
        let conditional: bool = match kind {
            StatementKind::Update { returning: _, condition } => condition,
            _ => false,
        };
        let rows: bool = match kind {
            StatementKind::Select => true,
            _ => returns_rows(kind),
        };
        self.last_insert_id_hack.is_none() && !conditional && (!rows || self.ret.is_some())
    }

    /// Whether the statement is fit to run in a batch: if it returns rows, it
    /// declares their columns.
    pub fn declares_columns(&self) -> (r: bool)
        ensures
            r == (returning(kind_of(self.statement)) ==> self.ret is Some),
    {
        !returns_rows(statement_kind(&self.statement)) || self.ret.is_some()
    }
}

/// A statement in the user's own words.
pub struct RawSql {
    pub sql: String,
    /// The values that the statement binds.
    pub params: Vec<SqlValue>,
    pub ret: SqlReturn,
}

/// An operation of Toasty's engine, as far as the driver looks.
pub enum Op {
    QuerySql(QuerySql),
    RawSql(RawSql),
    /// A transaction is to be started or ended.
    Transaction,
    /// An operation for databases without SQL.
    Other(toasty_core::driver::Operation),
}

/// A statement to be run, and what its outcome is to become.
pub struct Plan {
    pub request: Request,
    pub ret: SqlReturn,
}

/// What a [`Plan`] stands for.
#[verifier::ext_equal]
pub struct PlanView {
    pub request: RequestView,
    pub ret: SqlReturnView,
}

impl View for Plan {
    type V = PlanView;

    open spec fn view(&self) -> PlanView {
        PlanView { request: self.request@, ret: self.ret@ }
    }
}

/// A plan or an error, as the specifications speak of it.
pub open spec fn plan_result(r: Result<Plan, DriverError>) -> Result<PlanView, DriverErrorView> {
    match r {
        Ok(plan) => Ok(plan@),
        Err(err) => Err(err@),
    }
}

/// The types of the columns that a statement returns.
pub open spec fn types_view(ret: Option<Vec<ColumnType>>) -> Option<Seq<ColumnType>> {
    match ret {
        Some(types) => Some(types@),
        None => None,
    }
}

/// The plan for a statement's text.
pub open spec fn sql_plan(
    sql: Seq<char>,
    params: Seq<SqlValueView>,
    ret: SqlReturnView,
) -> Result<PlanView, DriverErrorView> {
    match bound_params(params, params.len()) {
        Err(message) => Err(DriverErrorView::DriverOperationFailed(message)),
        Ok(bound) => Ok(
            PlanView { request: RequestView { sql, params: bound, want: wanted(ret) }, ret },
        ),
    }
}

/// Whether a statement of this kind returns rows.
pub open spec fn returning(kind: StatementKind) -> bool {
    match kind {
        StatementKind::Insert { returning } => returning,
        StatementKind::Update { returning, condition } => returning,
        StatementKind::Delete { returning } => returning,
        _ => false,
    }
}

/// What a statement that runs by itself is to give back.
pub open spec fn single_return(kind: StatementKind, ret: Option<Seq<ColumnType>>) -> Result<
    SqlReturnView,
    DriverErrorView,
> {
    if kind is OtherQuery {
        Err(
            DriverErrorView::UnsupportedFeature(
                "non-SELECT query bodies are not supported by the D1 driver"@,
            ),
        )
    } else if kind is Select || returning(kind) {
        Ok(SqlReturnView::Types(ret->0))
    } else {
        Ok(SqlReturnView::Count)
    }
}

/// What a statement that runs in a batch is to give back.
pub open spec fn batch_return(kind: StatementKind, ret: Option<Seq<ColumnType>>) -> SqlReturnView {
    if returning(kind) {
        SqlReturnView::Types(ret->0)
    } else {
        SqlReturnView::Count
    }
}

/// Whether a statement that runs by itself is one that the engine makes: an
/// update has no condition, and what returns rows declares their columns.
pub open spec fn well_made(kind: StatementKind, ret: Option<Seq<ColumnType>>) -> bool {
    &&& kind is Select || returning(kind) ==> ret is Some
    &&& kind matches StatementKind::Update { returning, condition } ==> !condition
}

/// The error about an operation that the driver does not have.
pub open spec fn unsupported(operation: Seq<char>) -> DriverErrorView {
    DriverErrorView::UnsupportedFeature("operation not supported by the D1 driver: "@ + operation)
}

/// The plan for an operation.
pub open spec fn op_plan(schema: toasty_core::schema::db::Schema, op: Op) -> Result<
    PlanView,
    DriverErrorView,
> {
    match op {
        Op::QuerySql(query) => {
            match single_return(kind_of(query.statement), types_view(query.ret)) {
                Err(err) => Err(err),
                Ok(ret) => sql_plan(
                    sqlite_text(schema, query.statement)->0,
                    values_view(query.params@),
                    ret,
                ),
            }
        },
        Op::RawSql(raw) => sql_plan(raw.sql@, values_view(raw.params@), raw.ret@),
        Op::Transaction => Err(
            DriverErrorView::UnsupportedFeature(
                "the D1 HTTP API does not support interactive transactions"@,
            ),
        ),
        Op::Other(other) => Err(unsupported(operation_text(other))),
    }
}

/// Whether an operation is one that the engine makes: see [`well_made`]. A
/// statement has been lowered for SQLite, so the serializer has a text for it.
pub open spec fn executable(schema: toasty_core::schema::db::Schema, op: Op) -> bool {
    op matches Op::QuerySql(query) ==> {
        &&& query.last_insert_id_hack is None
        &&& well_made(kind_of(query.statement), types_view(query.ret))
        &&& kind_of(query.statement) !is OtherQuery ==> sqlite_text(
            schema,
            query.statement,
        ) is Some
    }
}

/// The error about an operation that the driver does not have.
pub fn unsupported_operation(operation: &str) -> (r: DriverError)
    ensures
        r@ == unsupported(operation@),
{
    let mut message = "operation not supported by the D1 driver: ".to_string();
    message.append(operation);
    DriverError::UnsupportedFeature(message)
}

/// Whether a statement of this kind returns rows.
fn returns_rows(kind: StatementKind) -> (r: bool)
    ensures
        r == returning(kind),
{
    match kind {
        StatementKind::Insert { returning } => returning,
        StatementKind::Update { returning, condition: _ } => returning,
        StatementKind::Delete { returning } => returning,
        _ => false,
    }
}

/// What a statement that runs by itself is to give back.
pub fn single_sql_return(kind: StatementKind, ret: Option<Vec<ColumnType>>) -> (r: Result<
    SqlReturn,
    DriverError,
>)
    requires
        well_made(kind, types_view(ret)),
    ensures
        match r {
            Ok(done) => single_return(kind, types_view(ret)) == Ok::<
                SqlReturnView,
                DriverErrorView,
            >(done@),
            Err(err) => single_return(kind, types_view(ret)) == Err::<
                SqlReturnView,
                DriverErrorView,
            >(err@),
        },
{
    match kind {
        StatementKind::OtherQuery => Err(
            DriverError::UnsupportedFeature(
                "non-SELECT query bodies are not supported by the D1 driver".to_string(),
            ),
        ),
        StatementKind::Select => Ok(SqlReturn::Types(ret.unwrap())),
        _ => Ok(batch_sql_return(kind, ret)),
    }
}

/// What a statement that runs in a batch is to give back.
pub fn batch_sql_return(kind: StatementKind, ret: Option<Vec<ColumnType>>) -> (r: SqlReturn)
    requires
        returning(kind) ==> ret is Some,
    ensures
        r@ == batch_return(kind, types_view(ret)),
{
    if returns_rows(kind) {
        SqlReturn::Types(ret.unwrap())
    } else {
        SqlReturn::Count
    }
}

/// A connection to a D1 database. Stateless: each operation is a call of its
/// own.
pub struct Connection {
    client: Transport,
}

impl Connection {
    /// How the connection reaches the database.
    pub closed spec fn transport(self) -> TransportView {
        self.client@
    }

    /// A connection over the given transport.
    pub fn new(client: Transport) -> (r: Connection)
        ensures
            r.transport() == client@,
    {
        Connection { client }
    }

    /// How the connection reaches the database.
    pub fn client(&self) -> (r: &Transport)
        ensures
            r@ == self.transport(),
    {
        &self.client
    }

    /// Plans the run of a statement.
    pub fn exec_sql(&self, sql: String, params: Vec<SqlValue>, ret: SqlReturn) -> (r: Result<
        Plan,
        DriverError,
    >)
        ensures
            plan_result(r) == sql_plan(sql@, values_view(params@), ret@),
    {
        match bind_params(&params) {
            Err(err) => Err(DriverError::DriverOperationFailed(err)),
            Ok(bound) => {
                // Which half of the outcome the plan will read, decided before
                // the statement runs because the binding cannot produce both.
                let want = match &ret {
                    SqlReturn::Count => Want::Changes,
                    SqlReturn::Infer | SqlReturn::Types(_) => Want::Rows,
                };
                Ok(Plan { request: Request { sql, params: bound, want }, ret })
            },
        }
    }

    /// Plans an operation.
    ///
    /// Interactive transactions are refused: the HTTP API has none.
    pub fn exec(&self, schema: &toasty_core::schema::db::Schema, op: Op) -> (r: Result<
        Plan,
        DriverError,
    >)
        requires
            executable(*schema, op),
        ensures
            plan_result(r) == op_plan(*schema, op),
    {
        match op {
            Op::QuerySql(query) => {
                match single_sql_return(statement_kind(&query.statement), query.ret) {
                    Err(err) => Err(err),
                    Ok(ret) => {
                        let sql = serialize(schema, &query.statement);
                        self.exec_sql(sql, query.params, ret)
                    },
                }
            },
            Op::RawSql(raw) => self.exec_sql(raw.sql, raw.params, raw.ret),
            Op::Transaction => Err(
                DriverError::UnsupportedFeature(
                    "the D1 HTTP API does not support interactive transactions".to_string(),
                ),
            ),
            Op::Other(other) => Err(unsupported_operation(debug_operation(&other).as_str())),
        }
    }
}

/// Transactions are always refused.
pub proof fn transactions_are_refused(schema: toasty_core::schema::db::Schema)
    ensures
        op_plan(schema, Op::Transaction) == Err::<PlanView, DriverErrorView>(
            DriverErrorView::UnsupportedFeature(
                "the D1 HTTP API does not support interactive transactions"@,
            ),
        ),
{
}

proof fn lemma_bound_params(params: Seq<SqlValueView>, n: nat)
    ensures
        bound_params(params, n) is Ok <==> forall|i: int|
            0 <= i < n ==> bound_json(#[trigger] params[i]) is Ok,
        bound_params(params, n) is Ok ==> {
            &&& (bound_params(params, n)->Ok_0).len() == n
            &&& forall|i: int|
                0 <= i < n ==> bound_json(params[i]) == Ok::<JsonView, Seq<char>>(
                    #[trigger] (bound_params(params, n)->Ok_0)[i],
                )
        },
    decreases n,
{
    if n > 0 {
        lemma_bound_params(params, (n - 1) as nat);
    }
}

/// A statement is planned exactly if each of its values can be bound, and then
/// it binds each value in its place.
pub proof fn statement_binds_every_value(
    sql: Seq<char>,
    params: Seq<SqlValueView>,
    ret: SqlReturnView,
)
    ensures
        sql_plan(sql, params, ret) is Ok <==> forall|i: int|
            0 <= i < params.len() ==> bound_json(#[trigger] params[i]) is Ok,
        sql_plan(sql, params, ret) is Ok ==> {
            let request = (sql_plan(sql, params, ret)->Ok_0).request;
            &&& request.sql == sql
            &&& request.params.len() == params.len()
            &&& forall|i: int|
                0 <= i < params.len() ==> bound_json(params[i]) == Ok::<JsonView, Seq<char>>(
                    #[trigger] request.params[i],
                )
        },
{
    lemma_bound_params(params, params.len());
}

proof fn lemma_row_reads_back(
    values: Seq<SqlValueView>,
    types: Seq<ColumnType>,
    row: Seq<JsonView>,
    n: nat,
)
    requires
        n <= values.len() == types.len(),
        bound_params(values, values.len()) == Ok::<Seq<JsonView>, Seq<char>>(row),
        forall|i: int| 0 <= i < values.len() ==> belongs_to(#[trigger] values[i], types[i]),
    ensures
        typed_cells(row, types, n) == Ok::<Seq<CellView>, Seq<char>>(
            Seq::new(n, |i: int| cell_of(values[i])),
        ),
    decreases n,
{
    lemma_bound_params(values, values.len());
    if n == 0 {
        assert(Seq::new(0, |i: int| cell_of(values[i])) =~= Seq::<CellView>::empty());
    } else {
        lemma_row_reads_back(values, types, row, (n - 1) as nat);
        assert(belongs_to(values[n - 1], types[n - 1]));
        assert(bound_json(values[n - 1]) == Ok::<JsonView, Seq<char>>(row[n - 1]));
        bound_value_reads_back(values[n - 1], types[n - 1]);
        assert(Seq::new((n - 1) as nat, |i: int| cell_of(values[i])).push(cell_of(values[n - 1]))
            =~= Seq::new(n, |i: int| cell_of(values[i])));
    }
}

/// A row that was written is read back with the values that were bound for it,
/// under the types of its columns. For blobs and UUIDs this is so over the HTTP
/// API only: the Workers binding binds no arrays.
pub proof fn written_row_reads_back(
    sql: Seq<char>,
    values: Seq<SqlValueView>,
    types: Seq<ColumnType>,
    changes: u64,
)
    requires
        values.len() == types.len(),
        forall|i: int| 0 <= i < values.len() ==> belongs_to(#[trigger] values[i], types[i]),
        sql_plan(sql, values, SqlReturnView::Count) is Ok,
    ensures
        ({
            let row = (sql_plan(sql, values, SqlReturnView::Count)->Ok_0).request.params;
            response_to(
                RawOutcomeView { rows: seq![row], changes },
                SqlReturnView::Types(types),
            ) == Ok::<ResponseView, DriverErrorView>(
                ResponseView::Rows(
                    seq![Seq::new(values.len(), |i: int| cell_of(values[i]))],
                ),
            )
        }),
{
    let row = (sql_plan(sql, values, SqlReturnView::Count)->Ok_0).request.params;
    lemma_row_reads_back(values, types, row, values.len());
    let rows = seq![row];
    reveal_with_fuel(typed_rows, 2);
    assert(typed_rows(rows, types, 0) == Ok::<Seq<Seq<CellView>>, Seq<char>>(Seq::empty()));
    assert(Seq::<Seq<CellView>>::empty().push(Seq::new(values.len(), |i: int| cell_of(values[i])))
        =~= seq![Seq::new(values.len(), |i: int| cell_of(values[i]))]);
}

/// Values, plans and declared types stand for themselves.
pub proof fn plan_stands_for_itself(
    values: Seq<SqlValue>,
    plan: Plan,
    err: DriverError,
    types: Vec<ColumnType>,
    i: int,
)
    ensures
        values_view(values).len() == values.len(),
        0 <= i < values.len() ==> values_view(values)[i] == values[i]@,
        plan@.request == plan.request@,
        plan@.ret == plan.ret@,
        plan_result(Ok(plan)) == Ok::<PlanView, DriverErrorView>(plan@),
        plan_result(Err(err)) == Err::<PlanView, DriverErrorView>(err@),
        types_view(Some(types)) == Some(types@),
        types_view(None) is None,
{
}

proof fn lemma_bound_params_error(params: Seq<SqlValueView>, n: nat)
    ensures
        match bound_params(params, n) {
            Ok(_) => true,
            Err(message) => exists|i: int|
                {
                    &&& 0 <= i < n
                    &&& bound_json(#[trigger] params[i]) == Err::<JsonView, Seq<char>>(message)
                    &&& forall|k: int| 0 <= k < i ==> bound_json(#[trigger] params[k]) is Ok
                },
        },
    decreases n,
{
    lemma_bound_params(params, n);
    if n > 0 {
        lemma_bound_params_error(params, (n - 1) as nat);
        lemma_bound_params(params, (n - 1) as nat);
    }
}

/// The values of a statement are bound exactly if each of them can be, each in
/// its place. Otherwise the error is that of the first that cannot be.
pub proof fn values_are_bound_in_order(params: Seq<SqlValueView>)
    ensures
        match bound_params(params, params.len()) {
            Ok(bound) => {
                &&& bound.len() == params.len()
                &&& forall|i: int|
                    0 <= i < params.len() ==> bound_json(#[trigger] params[i]) == Ok::<
                        JsonView,
                        Seq<char>,
                    >(bound[i])
            },
            Err(message) => exists|i: int|
                {
                    &&& 0 <= i < params.len()
                    &&& bound_json(#[trigger] params[i]) == Err::<JsonView, Seq<char>>(message)
                    &&& forall|k: int| 0 <= k < i ==> bound_json(#[trigger] params[k]) is Ok
                },
        },
{
    lemma_bound_params(params, params.len());
    lemma_bound_params_error(params, params.len());
    if bound_params(params, params.len()) is Ok {
        let bound = bound_params(params, params.len())->Ok_0;
        assert forall|i: int| 0 <= i < params.len() implies bound_json(#[trigger] params[i]) == Ok::<
            JsonView,
            Seq<char>,
        >(bound[i]) by {
            assert(bound[i] == bound[i]);
        }
    }
}

/// A plan runs the statement's text as it is, with what its values bind, and
/// asks for the change count or the rows, whichever is to be given back. It is
/// refused as its first value that cannot be bound is.
pub proof fn plan_runs_the_statement(
    sql: Seq<char>,
    params: Seq<SqlValueView>,
    ret: SqlReturnView,
)
    ensures
        match bound_params(params, params.len()) {
            Ok(bound) => {
                &&& sql_plan(sql, params, ret) is Ok
                &&& (sql_plan(sql, params, ret)->Ok_0).request.sql == sql
                &&& (sql_plan(sql, params, ret)->Ok_0).request.params == bound
                &&& (sql_plan(sql, params, ret)->Ok_0).ret == ret
                &&& ret is Count ==> (sql_plan(sql, params, ret)->Ok_0).request.want is Changes
                &&& !(ret is Count) ==> (sql_plan(sql, params, ret)->Ok_0).request.want is Rows
            },
            Err(message) => sql_plan(sql, params, ret) == Err::<PlanView, DriverErrorView>(
                DriverErrorView::DriverOperationFailed(message),
            ),
        },
{
}

/// The k-th value that a statement binds is the k-th item of the array that is
/// sent, and there are as many items as values.
pub proof fn kth_value_is_the_kth_item_sent(
    client: D1ClientView,
    sql: Seq<char>,
    params: Seq<SqlValueView>,
    ret: SqlReturnView,
    k: int,
)
    requires
        sql_plan(sql, params, ret) is Ok,
        0 <= k < params.len(),
    ensures
        ({
            let call = call_for(
                TransportView::Rest(client),
                (sql_plan(sql, params, ret)->Ok_0).request,
            );
            &&& call is Rest
            &&& (call->Rest_0).body is Object
            &&& ((call->Rest_0).body->Object_0).len() == 2
            &&& ((call->Rest_0).body->Object_0)[0] == ("sql"@, JsonView::String(sql))
            &&& ((call->Rest_0).body->Object_0)[1].0 == "params"@
            &&& ((call->Rest_0).body->Object_0)[1].1 is Array
            &&& (((call->Rest_0).body->Object_0)[1].1->Array_0).len() == params.len()
            &&& bound_json(params[k]) == Ok::<JsonView, Seq<char>>(
                (((call->Rest_0).body->Object_0)[1].1->Array_0)[k],
            )
        }),
{
    statement_binds_every_value(sql, params, ret);
    let request = (sql_plan(sql, params, ret)->Ok_0).request;
    assert(bound_json(params[k]) == Ok::<JsonView, Seq<char>>(request.params[k]));
}

/// Rows come back of a `SELECT` and of a write that returns them, under the
/// declared types. A count comes back of any other statement, but queries of
/// another kind are refused. In a batch only writes give rows back.
pub proof fn kind_decides_what_comes_back(kind: StatementKind, ret: Option<Seq<ColumnType>>)
    ensures
        match kind {
            StatementKind::Select => {
                &&& single_return(kind, ret) == Ok::<SqlReturnView, DriverErrorView>(
                    SqlReturnView::Types(ret->0),
                )
                &&& batch_return(kind, ret) is Count
                &&& !returning(kind)
                &&& well_made(kind, ret) <==> ret is Some
            },
            StatementKind::OtherQuery => {
                &&& single_return(kind, ret) == Err::<SqlReturnView, DriverErrorView>(
                    DriverErrorView::UnsupportedFeature(
                        "non-SELECT query bodies are not supported by the D1 driver"@,
                    ),
                )
                &&& batch_return(kind, ret) is Count
                &&& !returning(kind)
                &&& well_made(kind, ret)
            },
            StatementKind::Insert { returning: rows } | StatementKind::Delete {
                returning: rows,
            } => {
                &&& returning(kind) == rows
                &&& well_made(kind, ret) <==> (rows ==> ret is Some)
            },
            StatementKind::Update { returning: rows, condition } => {
                &&& returning(kind) == rows
                &&& well_made(kind, ret) <==> !condition && (rows ==> ret is Some)
            },
            StatementKind::Other => !returning(kind) && well_made(kind, ret),
        },
        !(kind is Select || kind is OtherQuery) ==> single_return(kind, ret) == Ok::<
            SqlReturnView,
            DriverErrorView,
        >(batch_return(kind, ret)),
        returning(kind) ==> batch_return(kind, ret) == SqlReturnView::Types(ret->0),
        !returning(kind) ==> batch_return(kind, ret) is Count,
{
}

/// A statement of the engine runs with the serializer's text, one in the
/// user's own words as it is, each with its own values. A transaction is
/// refused, and so is any other operation, by name.
pub proof fn operation_decides_what_runs(schema: toasty_core::schema::db::Schema, op: Op)
    ensures
        match op {
            Op::QuerySql(query) => match single_return(
                kind_of(query.statement),
                types_view(query.ret),
            ) {
                Err(err) => op_plan(schema, op) == Err::<PlanView, DriverErrorView>(err),
                Ok(ret) => op_plan(schema, op) == sql_plan(
                    sqlite_text(schema, query.statement)->0,
                    values_view(query.params@),
                    ret,
                ),
            },
            Op::RawSql(raw) => op_plan(schema, op) == sql_plan(
                raw.sql@,
                values_view(raw.params@),
                raw.ret@,
            ),
            Op::Transaction => op_plan(schema, op) == Err::<PlanView, DriverErrorView>(
                DriverErrorView::UnsupportedFeature(
                    "the D1 HTTP API does not support interactive transactions"@,
                ),
            ),
            Op::Other(other) => op_plan(schema, op) == Err::<PlanView, DriverErrorView>(
                DriverErrorView::UnsupportedFeature(
                    "operation not supported by the D1 driver: "@ + operation_text(other),
                ),
            ),
        },
{
}

/// An operation that the driver does not have is refused by name.
pub proof fn unsupported_names_the_operation(operation: Seq<char>)
    ensures
        unsupported(operation) == DriverErrorView::UnsupportedFeature(
            "operation not supported by the D1 driver: "@ + operation,
        ),
{
}

/// Whatever the transport, an operation that runs sends its values in their
/// order: the k-th value is the k-th item of the array over HTTP, and the k-th
/// argument of a binding. There are as many of them as values.
pub proof fn operation_sends_its_values_in_order(
    schema: toasty_core::schema::db::Schema,
    op: Op,
    client: D1ClientView,
    database: worker::D1Database,
    k: int,
)
    requires
        op_plan(schema, op) is Ok,
    ensures
        op is QuerySql || op is RawSql,
        ({
            let values = match op {
                Op::QuerySql(query) => query.params@,
                Op::RawSql(raw) => raw.params@,
                _ => Seq::empty(),
            };
            let request = (op_plan(schema, op)->Ok_0).request;
            let rest = call_for(TransportView::Rest(client), request);
            let binding = call_for(TransportView::Binding(database), request);
            &&& rest is Rest
            &&& (rest->Rest_0).body is Object
            &&& ((rest->Rest_0).body->Object_0)[1].0 == "params"@
            &&& ((rest->Rest_0).body->Object_0)[1].1 is Array
            &&& (((rest->Rest_0).body->Object_0)[1].1->Array_0).len() == values.len()
            &&& binding is Binding
            &&& (binding->Binding_0).args.len() == values.len()
            &&& 0 <= k < values.len() ==> bound_json(values[k]@) == Ok::<JsonView, Seq<char>>(
                (((rest->Rest_0).body->Object_0)[1].1->Array_0)[k],
            )
            &&& 0 <= k < values.len() ==> (binding->Binding_0).args[k] == js_arg(
                bound_json(values[k]@)->Ok_0,
            )
        }),
{
    match op {
        Op::QuerySql(query) => {
            values_are_bound_in_order(values_view(query.params@));
            if 0 <= k < query.params@.len() {
                assert(values_view(query.params@)[k] == query.params@[k]@);
            }
        },
        Op::RawSql(raw) => {
            values_are_bound_in_order(values_view(raw.params@));
            if 0 <= k < raw.params@.len() {
                assert(values_view(raw.params@)[k] == raw.params@[k]@);
            }
        },
        _ => {},
    }
}

} // verus!
