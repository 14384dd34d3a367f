//! What a statement asks for and what it produced, in the shape that both
//! transports share.

use vstd::prelude::*;

use crate::error::{TransportError, TransportErrorView};
use crate::json::{json_views, Json, JsonView};

verus! {

/// One statement's outcome.
///
/// Rows are positional rather than keyed by column name, because the plan's
/// return types are matched against them by index.
#[derive(Debug, PartialEq)]
pub struct RawOutcome {
    pub rows: Vec<Vec<Json>>,
    pub changes: u64,
}

/// What a [`RawOutcome`] stands for.
#[verifier::ext_equal]
pub struct RawOutcomeView {
    pub rows: Seq<Seq<JsonView>>,
    pub changes: u64,
}

/// What a list of rows stands for.
pub open spec fn rows_view(rows: Seq<Vec<Json>>) -> Seq<Seq<JsonView>> {
    Seq::new(rows.len(), |i: int| json_views(rows[i]@))
}

impl View for RawOutcome {
    type V = RawOutcomeView;

    open spec fn view(&self) -> RawOutcomeView {
        RawOutcomeView { rows: rows_view(self.rows@), changes: self.changes }
    }
}

/// What a list of outcomes stands for.
pub open spec fn outcomes_view(outcomes: Seq<RawOutcome>) -> Seq<RawOutcomeView> {
    Seq::new(outcomes.len(), |i: int| outcomes[i]@)
}

/// One statement's outcome, as the specifications speak of it.
pub open spec fn outcome_result(r: Result<RawOutcome, TransportError>) -> Result<
    RawOutcomeView,
    TransportErrorView,
> {
    match r {
        Ok(outcome) => Ok(outcome@),
        Err(err) => Err(err@),
    }
}

/// Several statements' outcomes, as the specifications speak of them.
pub open spec fn outcomes_result(r: Result<Vec<RawOutcome>, TransportError>) -> Result<
    Seq<RawOutcomeView>,
    TransportErrorView,
> {
    match r {
        Ok(outcomes) => Ok(outcomes_view(outcomes@)),
        Err(err) => Err(err@),
    }
}

/// Which half of a [`RawOutcome`] the caller is going to read.
///
/// The HTTP API returns both for free, but the Workers binding splits them
/// across two calls, and running the statement twice to fill in both would be
/// wrong as well as wasteful.
#[derive(Debug, Clone, Copy, PartialEq, Eq, Structural)]
pub enum Want {
    Rows,
    Changes,
}

/// One statement to be run.
#[derive(Debug, PartialEq)]
pub struct Request {
    pub sql: String,
    pub params: Vec<Json>,
    pub want: Want,
}

/// What a [`Request`] stands for.
#[verifier::ext_equal]
pub struct RequestView {
    pub sql: Seq<char>,
    pub params: Seq<JsonView>,
    pub want: Want,
}

impl View for Request {
    type V = RequestView;

    open spec fn view(&self) -> RequestView {
        RequestView { sql: self.sql@, params: json_views(self.params@), want: self.want }
    }
}

impl Clone for Request {
    fn clone(&self) -> (r: Request)
        ensures
            r@ == self@,
    {
        let mut params: Vec<Json> = Vec::new();
        let mut i: usize = 0;
        while i < self.params.len()
            invariant
                i == params@.len(),
                i <= self.params@.len(),
                forall|k: int| 0 <= k < i ==> (#[trigger] params@[k])@ == self.params@[k]@,
            decreases self.params@.len() - i,
        {
            params.push(self.params[i].clone());
            i += 1;
        }
        let r = Request { sql: self.sql.clone(), params, want: self.want };
        assert(r@.params =~= self@.params);
        r
    }
}

/// What a list of requests stands for.
pub open spec fn requests_view(requests: Seq<Request>) -> Seq<RequestView> {
    Seq::new(requests.len(), |i: int| requests[i]@)
}

/// A statement without parameters, run for its effect.
pub open spec fn command(sql: Seq<char>) -> RequestView {
    RequestView { sql, params: Seq::empty(), want: Want::Changes }
}

/// A statement without parameters, run for its rows.
pub open spec fn query(sql: Seq<char>) -> RequestView {
    RequestView { sql, params: Seq::empty(), want: Want::Rows }
}

impl Request {
    /// A statement without parameters, run for its effect.
    pub fn command(sql: String) -> (r: Request)
        ensures
            r@ == command(sql@),
    {
        let r = Request { sql, params: Vec::new(), want: Want::Changes };
        assert(r@.params =~= Seq::<JsonView>::empty());
        r
    }

    /// A statement without parameters, run for its rows.
    pub fn query(sql: String) -> (r: Request)
        ensures
            r@ == query(sql@),
    {
        let r = Request { sql, params: Vec::new(), want: Want::Rows };
        assert(r@.params =~= Seq::<JsonView>::empty());
        r
    }
}

/// An outcome stands for itself: its rows and their cells keep their number
/// and their places.
pub proof fn outcome_stands_for_itself(
    outcome: RawOutcome,
    outcomes: Seq<RawOutcome>,
    err: TransportError,
    all: Vec<RawOutcome>,
    i: int,
    j: int,
)
    ensures
        outcome@.changes == outcome.changes,
        outcome@.rows.len() == outcome.rows@.len(),
        0 <= i < outcome.rows@.len() ==> outcome@.rows[i].len() == outcome.rows@[i]@.len(),
        0 <= i < outcome.rows@.len() && 0 <= j < outcome.rows@[i]@.len() ==> outcome@.rows[i][j]
            == outcome.rows@[i]@[j]@,
        rows_view(outcome.rows@) == outcome@.rows,
        outcomes_view(outcomes).len() == outcomes.len(),
        0 <= i < outcomes.len() ==> outcomes_view(outcomes)[i] == outcomes[i]@,
        outcome_result(Ok(outcome)) == Ok::<RawOutcomeView, TransportErrorView>(outcome@),
        outcome_result(Err(err)) == Err::<RawOutcomeView, TransportErrorView>(err@),
        outcomes_result(Ok(all)) == Ok::<Seq<RawOutcomeView>, TransportErrorView>(
            outcomes_view(all@),
        ),
        outcomes_result(Err(err)) == Err::<Seq<RawOutcomeView>, TransportErrorView>(err@),
{
}

/// A request stands for itself: its parameters keep their number and their
/// places.
pub proof fn request_stands_for_itself(request: Request, requests: Seq<Request>, i: int)
    ensures
        request@.sql == request.sql@,
        request@.want == request.want,
        request@.params.len() == request.params@.len(),
        0 <= i < request.params@.len() ==> request@.params[i] == request.params@[i]@,
        requests_view(requests).len() == requests.len(),
        0 <= i < requests.len() ==> requests_view(requests)[i] == requests[i]@,
{
}

/// A command and a query hold the statement as it is and bind nothing. A
/// command asks for the change count, a query for the rows.
pub proof fn bare_statements_bind_nothing(sql: Seq<char>)
    ensures
        command(sql).sql == sql,
        command(sql).params.len() == 0,
        command(sql).want is Changes,
        query(sql).sql == sql,
        query(sql).params.len() == 0,
        query(sql).want is Rows,
{
}

} // verus!
