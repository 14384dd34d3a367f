//! What an operation gives back, and how it comes of a statement's outcome.

use vstd::prelude::*;

use crate::error::{
    core_error, into_core_error, D1Error, DriverError, DriverErrorView, TransportError,
    TransportErrorView,
};
use crate::json::{json_views, Json, JsonView};
use crate::outcome::{
    outcome_result, outcomes_result, outcomes_view, rows_view, RawOutcome, RawOutcomeView, Want,
};
use crate::text::{decimal, push_decimal};
use crate::value::{
    decoded_cell, inferred_cell, json_to_value, json_to_value_infer, Cell, CellView, ColumnType,
    SqlValueView,
};

verus! {

/// What a statement is to give back.
#[derive(Debug, PartialEq)]
pub enum SqlReturn {
    /// How many rows it changed.
    Count,
    /// Its rows, each cell by its own shape.
    Infer,
    /// Its rows, with these column types.
    Types(Vec<ColumnType>),
}

/// What a [`SqlReturn`] stands for.
#[verifier::ext_equal]
pub enum SqlReturnView {
    Count,
    Infer,
    Types(Seq<ColumnType>),
}

impl View for SqlReturn {
    type V = SqlReturnView;

    open spec fn view(&self) -> SqlReturnView {
        match self {
            SqlReturn::Count => SqlReturnView::Count,
            SqlReturn::Infer => SqlReturnView::Infer,
            SqlReturn::Types(types) => SqlReturnView::Types(types@),
        }
    }
}

/// What a list of [`SqlReturn`]s stands for.
pub open spec fn rets_view(rets: Seq<SqlReturn>) -> Seq<SqlReturnView> {
    Seq::new(rets.len(), |i: int| rets[i]@)
}

/// What an operation gives back.
#[derive(Debug, PartialEq)]
pub enum Response {
    Count(u64),
    Rows(Vec<Vec<Cell>>),
}

/// What a [`Response`] stands for.
#[verifier::ext_equal]
pub enum ResponseView {
    Count(u64),
    Rows(Seq<Seq<CellView>>),
}

/// What a list of cells stands for.
pub open spec fn cells_view(cells: Seq<Cell>) -> Seq<CellView> {
    Seq::new(cells.len(), |i: int| cells[i]@)
}

/// What a list of rows of cells stands for.
pub open spec fn cell_rows_view(rows: Seq<Vec<Cell>>) -> Seq<Seq<CellView>> {
    Seq::new(rows.len(), |i: int| cells_view(rows[i]@))
}

impl View for Response {
    type V = ResponseView;

    open spec fn view(&self) -> ResponseView {
        match self {
            Response::Count(n) => ResponseView::Count(*n),
            Response::Rows(rows) => ResponseView::Rows(cell_rows_view(rows@)),
        }
    }
}

/// What a list of responses stands for.
pub open spec fn responses_view(responses: Seq<Response>) -> Seq<ResponseView> {
    Seq::new(responses.len(), |i: int| responses[i]@)
}

/// A response or an error, as the specifications speak of it.
pub open spec fn response_result(r: Result<Response, DriverError>) -> Result<
    ResponseView,
    DriverErrorView,
> {
    match r {
        Ok(response) => Ok(response@),
        Err(err) => Err(err@),
    }
}

/// Several responses or an error, as the specifications speak of them.
pub open spec fn responses_result(r: Result<Vec<Response>, DriverError>) -> Result<
    Seq<ResponseView>,
    DriverErrorView,
> {
    match r {
        Ok(responses) => Ok(responses_view(responses@)),
        Err(err) => Err(err@),
    }
}

/// The cell of a row, or null where the row is too short.
pub open spec fn cell_at(row: Seq<JsonView>, i: int) -> JsonView {
    if 0 <= i < row.len() {
        row[i]
    } else {
        JsonView::Null
    }
}

/// The first `n` cells of a row under the declared types, or the message of the
/// first that does not decode.
pub open spec fn typed_cells(row: Seq<JsonView>, types: Seq<ColumnType>, n: nat) -> Result<
    Seq<CellView>,
    Seq<char>,
>
    decreases n,
{
    if n == 0 {
        Ok(Seq::empty())
    } else {
        match typed_cells(row, types, (n - 1) as nat) {
            Err(message) => Err(message),
            Ok(cells) => match decoded_cell(cell_at(row, n - 1), types[n - 1]) {
                Err(message) => Err(message),
                Ok(cell) => Ok(cells.push(cell)),
            },
        }
    }
}

/// The first `n` rows under the declared types, or the message of the first
/// that does not decode.
pub open spec fn typed_rows(rows: Seq<Seq<JsonView>>, types: Seq<ColumnType>, n: nat) -> Result<
    Seq<Seq<CellView>>,
    Seq<char>,
>
    decreases n,
{
    if n == 0 {
        Ok(Seq::empty())
    } else {
        match typed_rows(rows, types, (n - 1) as nat) {
            Err(message) => Err(message),
            Ok(done) => match typed_cells(rows[n - 1], types, types.len()) {
                Err(message) => Err(message),
                Ok(cells) => Ok(done.push(cells)),
            },
        }
    }
}

/// A row whose cells are decoded by their own shape.
pub open spec fn inferred_cells(row: Seq<JsonView>) -> Seq<CellView> {
    Seq::new(row.len(), |i: int| inferred_cell(row[i]))
}

/// What an outcome gives back, in the shape that the plan expects.
pub open spec fn response_to(outcome: RawOutcomeView, ret: SqlReturnView) -> Result<
    ResponseView,
    DriverErrorView,
> {
    match ret {
        SqlReturnView::Count => Ok(ResponseView::Count(outcome.changes)),
        SqlReturnView::Infer => Ok(
            ResponseView::Rows(
                Seq::new(outcome.rows.len(), |i: int| inferred_cells(outcome.rows[i])),
            ),
        ),
        SqlReturnView::Types(types) => match typed_rows(outcome.rows, types, outcome.rows.len()) {
            Err(message) => Err(DriverErrorView::DriverOperationFailed(message)),
            Ok(rows) => Ok(ResponseView::Rows(rows)),
        },
    }
}

/// Decodes a row under the declared types.
fn row_to_cells(row: &Vec<Json>, types: &Vec<ColumnType>) -> (r: Result<Vec<Cell>, D1Error>)
    ensures
        match r {
            Ok(cells) => typed_cells(json_views(row@), types@, types@.len()) == Ok::<
                Seq<CellView>,
                Seq<char>,
            >(cells_view(cells@)),
            Err(err) => typed_cells(json_views(row@), types@, types@.len()) == Err::<
                Seq<CellView>,
                Seq<char>,
            >(err@),
        },
{
    let ghost views = json_views(row@);
    let absent = Json::Null;
    let mut cells: Vec<Cell> = Vec::new();
    assert(cells_view(cells@) =~= Seq::<CellView>::empty());
    let mut i: usize = 0;
    while i < types.len()
        invariant
            i <= types@.len(),
            absent@ == JsonView::Null,
            views == json_views(row@),
            typed_cells(views, types@, i as nat) == Ok::<Seq<CellView>, Seq<char>>(
                cells_view(cells@),
            ),
        decreases types@.len() - i,
    {
        let value: &Json = if i < row.len() {
            &row[i]
        } else {
            &absent
        };
        assert(value@ == cell_at(views, i as int));
        match json_to_value(value, &types[i]) {
            Err(err) => {
                proof {
                    lemma_typed_cells_fail(views, types@, (i + 1) as nat, types@.len());
                }
                return Err(err);
            },
            Ok(cell) => {
                let ghost before = cells@;
                cells.push(cell);
                assert(cells_view(cells@) =~= cells_view(before).push(cell@));
            },
        }
        i += 1;
    }
    Ok(cells)
}

proof fn lemma_typed_cells_fail(
    row: Seq<JsonView>,
    types: Seq<ColumnType>,
    n: nat,
    m: nat,
)
    requires
        n <= m,
        typed_cells(row, types, n) is Err,
    ensures
        typed_cells(row, types, m) == typed_cells(row, types, n),
    decreases m,
{
    if n < m {
        lemma_typed_cells_fail(row, types, n, (m - 1) as nat);
    }
}

proof fn lemma_typed_rows_fail(
    rows: Seq<Seq<JsonView>>,
    types: Seq<ColumnType>,
    n: nat,
    m: nat,
)
    requires
        n <= m,
        typed_rows(rows, types, n) is Err,
    ensures
        typed_rows(rows, types, m) == typed_rows(rows, types, n),
    decreases m,
{
    if n < m {
        lemma_typed_rows_fail(rows, types, n, (m - 1) as nat);
    }
}

/// Decodes the cells of a row by their own shape.
fn row_to_inferred_cells(row: &Vec<Json>) -> (r: Vec<Cell>)
    ensures
        cells_view(r@) == inferred_cells(json_views(row@)),
{
    let mut cells: Vec<Cell> = Vec::new();
    let mut i: usize = 0;
    while i < row.len()
        invariant
            i == cells@.len(),
            i <= row@.len(),
            forall|k: int| 0 <= k < i ==> (#[trigger] cells@[k])@ == inferred_cell(row@[k]@),
        decreases row@.len() - i,
    {
        cells.push(json_to_value_infer(&row[i]));
        i += 1;
    }
    assert(cells_view(cells@) =~= inferred_cells(json_views(row@)));
    cells
}

/// Turns one statement's outcome into the response that the plan expects.
pub fn rows_to_response(outcome: &RawOutcome, ret: &SqlReturn) -> (r: Result<Response, DriverError>)
    ensures
        response_result(r) == response_to(outcome@, ret@),
{
    match ret {
        SqlReturn::Count => Ok(Response::Count(outcome.changes)),
        SqlReturn::Infer => {
            let mut rows: Vec<Vec<Cell>> = Vec::new();
            let mut i: usize = 0;
            while i < outcome.rows.len()
                invariant
                    i == rows@.len(),
                    i <= outcome.rows@.len(),
                    forall|k: int|
                        0 <= k < i ==> cells_view((#[trigger] rows@[k])@) == inferred_cells(
                            json_views(outcome.rows@[k]@),
                        ),
                decreases outcome.rows@.len() - i,
            {
                rows.push(row_to_inferred_cells(&outcome.rows[i]));
                i += 1;
            }
            assert(cell_rows_view(rows@) =~= Seq::new(
                outcome@.rows.len(),
                |i: int| inferred_cells(outcome@.rows[i]),
            ));
            Ok(Response::Rows(rows))
        },
        SqlReturn::Types(types) => {
            let ghost views = rows_view(outcome.rows@);
            let mut rows: Vec<Vec<Cell>> = Vec::new();
            assert(cell_rows_view(rows@) =~= Seq::<Seq<CellView>>::empty());
            let mut i: usize = 0;
            while i < outcome.rows.len()
                invariant
                    i <= outcome.rows@.len(),
                    views == rows_view(outcome.rows@),
                    views == outcome@.rows,
                    ret@ == SqlReturnView::Types(types@),
                    typed_rows(views, types@, i as nat) == Ok::<Seq<Seq<CellView>>, Seq<char>>(
                        cell_rows_view(rows@),
                    ),
                decreases outcome.rows@.len() - i,
            {
                assert(views[i as int] == json_views(outcome.rows@[i as int]@));
                match row_to_cells(&outcome.rows[i], types) {
                    Err(err) => {
                        proof {
                            lemma_typed_rows_fail(views, types@, (i + 1) as nat, views.len());
                        }
                        return Err(DriverError::DriverOperationFailed(err));
                    },
                    Ok(cells) => {
                        let ghost before = rows@;
                        rows.push(cells);
                        assert(cell_rows_view(rows@) =~= cell_rows_view(before).push(
                            cells_view(cells@),
                        ));
                    },
                }
                i += 1;
            }
            Ok(Response::Rows(rows))
        },
    }
}

/// What comes of one statement's outcome.
pub open spec fn answer(
    outcome: Result<RawOutcomeView, TransportErrorView>,
    ret: SqlReturnView,
) -> Result<ResponseView, DriverErrorView> {
    match outcome {
        Err(err) => Err(core_error(err)),
        Ok(outcome) => response_to(outcome, ret),
    }
}

/// The responses to the first `n` outcomes, or the first that cannot be given.
pub open spec fn responses_to(
    outcomes: Seq<RawOutcomeView>,
    rets: Seq<SqlReturnView>,
    n: nat,
) -> Result<Seq<ResponseView>, DriverErrorView>
    decreases n,
{
    if n == 0 {
        Ok(Seq::empty())
    } else {
        match responses_to(outcomes, rets, (n - 1) as nat) {
            Err(err) => Err(err),
            Ok(done) => match response_to(outcomes[n - 1], rets[n - 1]) {
                Err(err) => Err(err),
                Ok(response) => Ok(done.push(response)),
            },
        }
    }
}

/// What comes of a batch's outcomes. There has to be one for each statement.
pub open spec fn answers(
    outcomes: Result<Seq<RawOutcomeView>, TransportErrorView>,
    rets: Seq<SqlReturnView>,
) -> Result<Seq<ResponseView>, DriverErrorView> {
    match outcomes {
        Err(err) => Err(core_error(err)),
        Ok(outcomes) => if outcomes.len() != rets.len() {
            Err(
                DriverErrorView::DriverOperationFailed(
                    "D1 returned "@ + decimal(outcomes.len() as int) + " results for "@ + decimal(
                        rets.len() as int,
                    ) + " statements"@,
                ),
            )
        } else {
            responses_to(outcomes, rets, rets.len())
        },
    }
}

proof fn lemma_responses_fail(
    outcomes: Seq<RawOutcomeView>,
    rets: Seq<SqlReturnView>,
    n: nat,
    m: nat,
)
    requires
        n <= m,
        responses_to(outcomes, rets, n) is Err,
    ensures
        responses_to(outcomes, rets, m) == responses_to(outcomes, rets, n),
    decreases m,
{
    if n < m {
        lemma_responses_fail(outcomes, rets, n, (m - 1) as nat);
    }
}

/// Answers an operation, once its statement has run.
pub fn finish(outcome: Result<RawOutcome, TransportError>, ret: &SqlReturn) -> (r: Result<
    Response,
    DriverError,
>)
    ensures
        response_result(r) == answer(outcome_result(outcome), ret@),
{
    match outcome {
        Err(err) => Err(into_core_error(err)),
        Ok(outcome) => rows_to_response(&outcome, ret),
    }
}

/// Answers a batch, once its statements have run.
pub fn finish_batch(
    outcomes: Result<Vec<RawOutcome>, TransportError>,
    rets: &Vec<SqlReturn>,
) -> (r: Result<Vec<Response>, DriverError>)
    ensures
        responses_result(r) == answers(outcomes_result(outcomes), rets_view(rets@)),
{
    match outcomes {
        Err(err) => Err(into_core_error(err)),
        Ok(done) => {
            let returned: usize = done.len();
            let expected: usize = rets.len();
            if returned != expected {
                let mut message = "D1 returned ".to_string();
                push_decimal(&mut message, returned as i128);
                message.append(" results for ");
                push_decimal(&mut message, expected as i128);
                message.append(" statements");
                return Err(DriverError::DriverOperationFailed(D1Error::new(message)));
            }
            let ghost outcome_views = outcomes_view(done@);
            let ghost ret_views = rets_view(rets@);
            let mut responses: Vec<Response> = Vec::new();
            assert(responses_view(responses@) =~= Seq::<ResponseView>::empty());
            let mut i: usize = 0;
            while i < rets.len()
                invariant
                    i <= rets@.len(),
                    rets@.len() == done@.len(),
                    outcome_views == outcomes_view(done@),
                    ret_views == rets_view(rets@),
                    outcomes == Ok::<Vec<RawOutcome>, TransportError>(done),
                    responses_to(outcome_views, ret_views, i as nat) == Ok::<
                        Seq<ResponseView>,
                        DriverErrorView,
                    >(responses_view(responses@)),
                decreases rets@.len() - i,
            {
                assert(outcome_views[i as int] == done@[i as int]@);
                assert(ret_views[i as int] == rets@[i as int]@);
                match rows_to_response(&done[i], &rets[i]) {
                    Err(err) => {
                        proof {
                            lemma_responses_fail(
                                outcome_views,
                                ret_views,
                                (i + 1) as nat,
                                ret_views.len(),
                            );
                        }
                        return Err(err);
                    },
                    Ok(response) => {
                        let ghost before = responses@;
                        responses.push(response);
                        assert(responses_view(responses@) =~= responses_view(before).push(
                            response@,
                        ));
                    },
                }
                i += 1;
            }
            Ok(responses)
        },
    }
}

/// The half of an outcome that the binding reports.
pub open spec fn half(outcome: RawOutcomeView, want: Want) -> RawOutcomeView {
    match want {
        Want::Rows => RawOutcomeView { rows: outcome.rows, changes: 0 },
        Want::Changes => RawOutcomeView { rows: Seq::empty(), changes: outcome.changes },
    }
}

/// Which half of an outcome is needed to answer.
pub open spec fn wanted(ret: SqlReturnView) -> Want {
    match ret {
        SqlReturnView::Count => Want::Changes,
        SqlReturnView::Infer | SqlReturnView::Types(_) => Want::Rows,
    }
}

/// The half that a plan asks for is all that its answer depends on: the
/// binding, which reports no more, gives the same answer as the HTTP API.
pub proof fn wanted_half_is_enough(outcome: RawOutcomeView, ret: SqlReturnView)
    ensures
        response_to(half(outcome, wanted(ret)), ret) == response_to(outcome, ret),
{
}

proof fn lemma_typed_cells(row: Seq<JsonView>, types: Seq<ColumnType>, n: nat)
    requires
        typed_cells(row, types, n) is Ok,
    ensures
        (typed_cells(row, types, n)->Ok_0).len() == n,
        forall|i: int|
            0 <= i < n ==> decoded_cell(cell_at(row, i), types[i]) == Ok::<CellView, Seq<char>>(
                #[trigger] (typed_cells(row, types, n)->Ok_0)[i],
            ),
    decreases n,
{
    if n > 0 {
        lemma_typed_cells(row, types, (n - 1) as nat);
    }
}

proof fn lemma_typed_rows(rows: Seq<Seq<JsonView>>, types: Seq<ColumnType>, n: nat)
    requires
        typed_rows(rows, types, n) is Ok,
    ensures
        (typed_rows(rows, types, n)->Ok_0).len() == n,
        forall|i: int|
            0 <= i < n ==> typed_cells(rows[i], types, types.len()) == Ok::<
                Seq<CellView>,
                Seq<char>,
            >(#[trigger] (typed_rows(rows, types, n)->Ok_0)[i]),
    decreases n,
{
    if n > 0 {
        lemma_typed_rows(rows, types, (n - 1) as nat);
    }
}

/// An answer with declared types has a row for each row of the outcome and a
/// cell for each type, which is the row's cell at the same place under that
/// type, and null where the row is too short.
pub proof fn typed_answer_has_declared_shape(
    outcome: RawOutcomeView,
    types: Seq<ColumnType>,
    i: int,
    j: int,
)
    requires
        response_to(outcome, SqlReturnView::Types(types)) is Ok,
        0 <= i < outcome.rows.len(),
        0 <= j < types.len(),
    ensures
        response_to(outcome, SqlReturnView::Types(types))->Ok_0 is Rows,
        (response_to(outcome, SqlReturnView::Types(types))->Ok_0->Rows_0).len()
            == outcome.rows.len(),
        (response_to(outcome, SqlReturnView::Types(types))->Ok_0->Rows_0)[i].len() == types.len(),
        decoded_cell(cell_at(outcome.rows[i], j), types[j]) == Ok::<CellView, Seq<char>>(
            (response_to(outcome, SqlReturnView::Types(types))->Ok_0->Rows_0)[i][j],
        ),
        j >= outcome.rows[i].len() ==> (response_to(
            outcome,
            SqlReturnView::Types(types),
        )->Ok_0->Rows_0)[i][j] == CellView::Exact(SqlValueView::Null),
{
    let rows = response_to(outcome, SqlReturnView::Types(types))->Ok_0->Rows_0;
    lemma_typed_rows(outcome.rows, types, outcome.rows.len());
    assert(typed_cells(outcome.rows[i], types, types.len()) == Ok::<Seq<CellView>, Seq<char>>(
        rows[i],
    ));
    lemma_typed_cells(outcome.rows[i], types, types.len());
}

proof fn lemma_responses(outcomes: Seq<RawOutcomeView>, rets: Seq<SqlReturnView>, n: nat)
    requires
        responses_to(outcomes, rets, n) is Ok,
    ensures
        (responses_to(outcomes, rets, n)->Ok_0).len() == n,
        forall|i: int|
            0 <= i < n ==> response_to(outcomes[i], rets[i]) == Ok::<ResponseView, DriverErrorView>(
                #[trigger] (responses_to(outcomes, rets, n)->Ok_0)[i],
            ),
    decreases n,
{
    if n > 0 {
        lemma_responses(outcomes, rets, (n - 1) as nat);
    }
}

/// A batch is answered only if every statement was: there are as many outcomes
/// as statements, and the answer to each is the one that it would have had by
/// itself.
pub proof fn batch_answers_every_statement(
    outcomes: Result<Seq<RawOutcomeView>, TransportErrorView>,
    rets: Seq<SqlReturnView>,
    i: int,
)
    requires
        answers(outcomes, rets) is Ok,
        0 <= i < rets.len(),
    ensures
        outcomes is Ok,
        (outcomes->Ok_0).len() == rets.len(),
        (answers(outcomes, rets)->Ok_0).len() == rets.len(),
        answer(Ok((outcomes->Ok_0)[i]), rets[i]) == Ok::<ResponseView, DriverErrorView>(
            (answers(outcomes, rets)->Ok_0)[i],
        ),
{
    lemma_responses(outcomes->Ok_0, rets, rets.len());
}

/// A connection that is lost is always reported as lost, whatever was asked.
pub proof fn lost_connection_is_reported(
    message: Seq<char>,
    ret: SqlReturnView,
    rets: Seq<SqlReturnView>,
)
    ensures
        answer(Err(TransportErrorView::Lost(message)), ret) == Err::<ResponseView, DriverErrorView>(
            DriverErrorView::ConnectionLost(message),
        ),
        answers(Err(TransportErrorView::Lost(message)), rets) == Err::<
            Seq<ResponseView>,
            DriverErrorView,
        >(DriverErrorView::ConnectionLost(message)),
{
}

/// What is expected stands for itself, and so do the answers: rows and cells
/// keep their number and their places.
pub proof fn answer_stands_for_itself(
    types: Vec<ColumnType>,
    n: u64,
    rows: Vec<Vec<Cell>>,
    rets: Seq<SqlReturn>,
    responses: Seq<Response>,
    i: int,
    j: int,
)
    ensures
        SqlReturn::Count@ == SqlReturnView::Count,
        SqlReturn::Infer@ == SqlReturnView::Infer,
        SqlReturn::Types(types)@ == SqlReturnView::Types(types@),
        Response::Count(n)@ == ResponseView::Count(n),
        Response::Rows(rows)@ is Rows,
        (Response::Rows(rows)@->Rows_0).len() == rows@.len(),
        0 <= i < rows@.len() ==> (Response::Rows(rows)@->Rows_0)[i].len() == rows@[i]@.len(),
        0 <= i < rows@.len() && 0 <= j < rows@[i]@.len() ==> (Response::Rows(rows)@->Rows_0)[i][j]
            == rows@[i]@[j]@,
        rets_view(rets).len() == rets.len(),
        0 <= i < rets.len() ==> rets_view(rets)[i] == rets[i]@,
        responses_view(responses).len() == responses.len(),
        0 <= i < responses.len() ==> responses_view(responses)[i] == responses[i]@,
{
}

/// The results stand for themselves.
pub proof fn answer_results_stand_for_themselves(
    response: Response,
    responses: Vec<Response>,
    err: DriverError,
)
    ensures
        response_result(Ok(response)) == Ok::<ResponseView, DriverErrorView>(response@),
        response_result(Err(err)) == Err::<ResponseView, DriverErrorView>(err@),
        responses_result(Ok(responses)) == Ok::<Seq<ResponseView>, DriverErrorView>(
            responses_view(responses@),
        ),
        responses_result(Err(err)) == Err::<Seq<ResponseView>, DriverErrorView>(err@),
{
}

/// A count is answered with the change count. Rows without declared types are
/// answered row by row and cell by cell, each cell by its own shape.
pub proof fn counts_and_untyped_rows_are_answered(outcome: RawOutcomeView, i: int, j: int)
    ensures
        response_to(outcome, SqlReturnView::Count) == Ok::<ResponseView, DriverErrorView>(
            ResponseView::Count(outcome.changes),
        ),
        response_to(outcome, SqlReturnView::Infer) is Ok,
        response_to(outcome, SqlReturnView::Infer)->Ok_0 is Rows,
        (response_to(outcome, SqlReturnView::Infer)->Ok_0->Rows_0).len() == outcome.rows.len(),
        0 <= i < outcome.rows.len() ==> (response_to(
            outcome,
            SqlReturnView::Infer,
        )->Ok_0->Rows_0)[i].len() == outcome.rows[i].len(),
        0 <= i < outcome.rows.len() && 0 <= j < outcome.rows[i].len() ==> (response_to(
            outcome,
            SqlReturnView::Infer,
        )->Ok_0->Rows_0)[i][j] == inferred_cell(outcome.rows[i][j]),
{
}

/// What a cell of a row decodes into under the type of its column. Where the
/// row is too short, the cell is null.
pub open spec fn decoded_at(
    rows: Seq<Seq<JsonView>>,
    types: Seq<ColumnType>,
    i: int,
    j: int,
) -> Result<CellView, Seq<char>> {
    decoded_cell(
        if j < rows[i].len() {
            rows[i][j]
        } else {
            JsonView::Null
        },
        types[j],
    )
}

proof fn lemma_typed_cells_error(row: Seq<JsonView>, types: Seq<ColumnType>, n: nat)
    requires
        n <= types.len(),
    ensures
        match typed_cells(row, types, n) {
            Ok(cells) => forall|j: int|
                0 <= j < n ==> #[trigger] decoded_at(seq![row], types, 0, j) is Ok,
            Err(message) => exists|j: int|
                {
                    &&& 0 <= j < n
                    &&& #[trigger] decoded_at(seq![row], types, 0, j) == Err::<CellView, Seq<char>>(
                        message,
                    )
                    &&& forall|k: int|
                        0 <= k < j ==> #[trigger] decoded_at(seq![row], types, 0, k) is Ok
                },
        },
    decreases n,
{
    if n > 0 {
        lemma_typed_cells_error(row, types, (n - 1) as nat);
        let last = decoded_at(seq![row], types, 0, n - 1);
        assert(last == decoded_cell(cell_at(row, n - 1), types[n - 1]));
    }
}

proof fn lemma_typed_rows_error(rows: Seq<Seq<JsonView>>, types: Seq<ColumnType>, n: nat)
    requires
        n <= rows.len(),
    ensures
        match typed_rows(rows, types, n) {
            Ok(done) => forall|i: int, j: int|
                0 <= i < n && 0 <= j < types.len() ==> #[trigger] decoded_at(
                    rows,
                    types,
                    i,
                    j,
                ) is Ok,
            Err(message) => exists|i: int, j: int|
                {
                    &&& 0 <= i < n
                    &&& 0 <= j < types.len()
                    &&& #[trigger] decoded_at(rows, types, i, j) == Err::<CellView, Seq<char>>(
                        message,
                    )
                    &&& forall|a: int, b: int|
                        0 <= a <= i && 0 <= b < types.len() && (a < i || b < j)
                            ==> #[trigger] decoded_at(rows, types, a, b) is Ok
                },
        },
    decreases n,
{
    if n > 0 {
        lemma_typed_rows_error(rows, types, (n - 1) as nat);
        let row = rows[n - 1];
        lemma_typed_cells_error(row, types, types.len());
        assert forall|j: int| 0 <= j < types.len() implies decoded_at(rows, types, n - 1, j)
            == #[trigger] decoded_at(seq![row], types, 0, j) by {}
        assert forall|j: int| 0 <= j < types.len() implies #[trigger] decoded_at(
            rows,
            types,
            n - 1,
            j,
        ) == decoded_at(seq![row], types, 0, j) by {}
        if typed_rows(rows, types, (n - 1) as nat) is Ok {
            match typed_cells(row, types, types.len()) {
                Ok(_) => {},
                Err(message) => {
                    let j = choose|j: int|
                        {
                            &&& 0 <= j < types.len()
                            &&& #[trigger] decoded_at(seq![row], types, 0, j) == Err::<
                                CellView,
                                Seq<char>,
                            >(message)
                            &&& forall|k: int|
                                0 <= k < j ==> #[trigger] decoded_at(seq![row], types, 0, k) is Ok
                        };
                    assert(decoded_at(rows, types, n - 1, j) == Err::<CellView, Seq<char>>(message));
                },
            }
        }
    }
}

/// Rows with declared types are answered exactly if every cell decodes: then
/// each row has a cell for each type, decoded under it. Otherwise the answer is
/// the error of the first cell that does not decode, row by row and in each
/// row from the first column on.
pub proof fn typed_rows_are_answered(outcome: RawOutcomeView, types: Seq<ColumnType>)
    ensures
        match response_to(outcome, SqlReturnView::Types(types)) {
            Ok(response) => {
                &&& response is Rows
                &&& (response->Rows_0).len() == outcome.rows.len()
                &&& forall|i: int|
                    0 <= i < outcome.rows.len() ==> (#[trigger] (response->Rows_0)[i]).len()
                        == types.len()
                &&& forall|i: int, j: int|
                    0 <= i < outcome.rows.len() && 0 <= j < types.len() ==> decoded_at(
                        outcome.rows,
                        types,
                        i,
                        j,
                    ) == Ok::<CellView, Seq<char>>(#[trigger] (response->Rows_0)[i][j])
            },
            Err(err) => exists|i: int, j: int|
                {
                    &&& 0 <= i < outcome.rows.len()
                    &&& 0 <= j < types.len()
                    &&& #[trigger] decoded_at(outcome.rows, types, i, j) is Err
                    &&& err == DriverErrorView::DriverOperationFailed(
                        decoded_at(outcome.rows, types, i, j)->Err_0,
                    )
                    &&& forall|a: int, b: int|
                        0 <= a <= i && 0 <= b < types.len() && (a < i || b < j)
                            ==> #[trigger] decoded_at(outcome.rows, types, a, b) is Ok
                },
        },
{
    let rows = outcome.rows;
    lemma_typed_rows_error(rows, types, rows.len());
    if typed_rows(rows, types, rows.len()) is Ok {
        let done = typed_rows(rows, types, rows.len())->Ok_0;
        lemma_typed_rows(rows, types, rows.len());
        assert forall|i: int| 0 <= i < rows.len() implies (#[trigger] done[i]).len()
            == types.len() by {
            assert(typed_cells(rows[i], types, types.len()) == Ok::<Seq<CellView>, Seq<char>>(
                done[i],
            ));
            lemma_typed_cells(rows[i], types, types.len());
        }
        assert forall|i: int, j: int| 0 <= i < rows.len() && 0 <= j < types.len() implies decoded_at(
            rows,
            types,
            i,
            j,
        ) == Ok::<CellView, Seq<char>>(#[trigger] done[i][j]) by {
            assert(typed_cells(rows[i], types, types.len()) == Ok::<Seq<CellView>, Seq<char>>(
                done[i],
            ));
            lemma_typed_cells(rows[i], types, types.len());
        }
    } else {
        let message = typed_rows(rows, types, rows.len())->Err_0;
        let (i, j) = choose|i: int, j: int|
            {
                &&& 0 <= i < rows.len()
                &&& 0 <= j < types.len()
                &&& #[trigger] decoded_at(rows, types, i, j) == Err::<CellView, Seq<char>>(message)
                &&& forall|a: int, b: int|
                    0 <= a <= i && 0 <= b < types.len() && (a < i || b < j)
                        ==> #[trigger] decoded_at(rows, types, a, b) is Ok
            };
        assert(decoded_at(rows, types, i, j) is Err);
    }
}

/// A statement that ran is answered from its outcome, and one that failed with
/// how it failed.
pub proof fn statement_is_answered_from_its_outcome(
    outcome: RawOutcomeView,
    err: TransportErrorView,
    ret: SqlReturnView,
    rets: Seq<SqlReturnView>,
)
    ensures
        answer(Ok(outcome), ret) == response_to(outcome, ret),
        answer(Err(err), ret) == Err::<ResponseView, DriverErrorView>(core_error(err)),
        answers(Err(err), rets) == Err::<Seq<ResponseView>, DriverErrorView>(core_error(err)),
        wanted(SqlReturnView::Count) is Changes,
        wanted(SqlReturnView::Infer) is Rows,
        ret is Types ==> wanted(ret) is Rows,
        half(outcome, Want::Rows) == (RawOutcomeView { rows: outcome.rows, changes: 0 }),
        half(outcome, Want::Changes) == (RawOutcomeView {
            rows: Seq::empty(),
            changes: outcome.changes,
        }),
{
}

proof fn lemma_responses_error(outcomes: Seq<RawOutcomeView>, rets: Seq<SqlReturnView>, n: nat)
    ensures
        match responses_to(outcomes, rets, n) {
            Ok(_) => true,
            Err(err) => exists|i: int|
                {
                    &&& 0 <= i < n
                    &&& #[trigger] response_to(outcomes[i], rets[i]) == Err::<
                        ResponseView,
                        DriverErrorView,
                    >(err)
                    &&& forall|k: int|
                        0 <= k < i ==> #[trigger] response_to(outcomes[k], rets[k]) is Ok
                },
        },
        responses_to(outcomes, rets, n) is Ok ==> forall|k: int|
            0 <= k < n ==> #[trigger] response_to(outcomes[k], rets[k]) is Ok,
    decreases n,
{
    if n > 0 {
        lemma_responses_error(outcomes, rets, (n - 1) as nat);
    }
}

/// A batch that was not answered in full is an error: that there are more or
/// fewer outcomes than statements, or that of the first statement whose outcome
/// gives no answer.
pub proof fn batch_errors_are_told(outcomes: Seq<RawOutcomeView>, rets: Seq<SqlReturnView>)
    ensures
        outcomes.len() != rets.len() ==> answers(Ok(outcomes), rets) == Err::<
            Seq<ResponseView>,
            DriverErrorView,
        >(
            DriverErrorView::DriverOperationFailed(
                "D1 returned "@ + decimal(outcomes.len() as int) + " results for "@ + decimal(
                    rets.len() as int,
                ) + " statements"@,
            ),
        ),
        outcomes.len() == rets.len() && answers(Ok(outcomes), rets) is Err ==> exists|i: int|
            {
                &&& 0 <= i < rets.len()
                &&& #[trigger] response_to(outcomes[i], rets[i]) == Err::<
                    ResponseView,
                    DriverErrorView,
                >(answers(Ok(outcomes), rets)->Err_0)
                &&& forall|k: int|
                    0 <= k < i ==> #[trigger] response_to(outcomes[k], rets[k]) is Ok
            },
        outcomes.len() == rets.len() && answers(Ok(outcomes), rets) is Ok ==> (answers(
            Ok(outcomes),
            rets,
        )->Ok_0).len() == rets.len(),
{
    lemma_responses_error(outcomes, rets, rets.len());
    if outcomes.len() == rets.len() && answers(Ok(outcomes), rets) is Ok {
        lemma_responses(outcomes, rets, rets.len());
    }
}

/// A column's cell is the one at its place in the row, and null where the row
/// is too short.
pub proof fn cell_stands_at_its_place(
    rows: Seq<Seq<JsonView>>,
    types: Seq<ColumnType>,
    i: int,
    j: int,
)
    requires
        0 <= i < rows.len(),
        0 <= j < types.len(),
    ensures
        j < rows[i].len() ==> cell_at(rows[i], j) == rows[i][j],
        j >= rows[i].len() ==> cell_at(rows[i], j) is Null,
        j < rows[i].len() ==> decoded_at(rows, types, i, j) == decoded_cell(rows[i][j], types[j]),
        j >= rows[i].len() ==> decoded_at(rows, types, i, j) == decoded_cell(
            JsonView::Null,
            types[j],
        ),
{
}

} // verus!
