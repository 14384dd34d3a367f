//! D1's Workers binding: what is asked of it, and what its answers mean.
//!
//! Same statements as over HTTP, reached differently: the binding is an object
//! that the runtime hands to the isolate, so there is no endpoint and no
//! token.

use std::sync::Arc;

use vstd::prelude::*;

use crate::error::{core_error, D1Error, TransportError, TransportErrorView};
use crate::json::{json_text, json_to_string, json_views, Json, JsonView, Number, NumberView};
use crate::outcome::{
    outcome_result, outcomes_result, outcomes_view, rows_view, RawOutcome, RawOutcomeView, Request,
    RequestView, Want,
};
use crate::text::{contains, occurs};

verus! {

/// The runtime's handle of a database.
#[verifier::external_type_specification]
#[verifier::external_body]
pub struct ExD1Database(worker::D1Database);

/// A database that is reached through its binding.
pub struct D1Binding {
    inner: Arc<worker::D1Database>,
}

impl D1Binding {
    /// The handle that the binding was made of.
    pub closed spec fn database(self) -> worker::D1Database {
        *self.inner
    }

    /// Wraps a handle.
    pub fn new(database: worker::D1Database) -> (r: D1Binding)
        ensures
            r.database() == database,
    {
        D1Binding { inner: Arc::new(database) }
    }

    /// The handle.
    pub fn handle(&self) -> (r: &worker::D1Database)
        ensures
            *r == self.database(),
    {
        &*self.inner
    }

    /// What is asked of the binding to run one statement.
    ///
    /// The wanted half decides which call is made, because the binding splits
    /// rows and the change count across two of them.
    pub fn raw(&self, request: Request) -> (r: BindingCall)
        ensures
            r@ == binding_call(request@),
    {
        let ghost views = json_views(request.params@);
        let mut args: Vec<JsArg> = Vec::new();
        let mut i: usize = 0;
        while i < request.params.len()
            invariant
                i == args@.len(),
                i <= request.params@.len(),
                forall|k: int|
                    0 <= k < i ==> (#[trigger] args@[k])@ == js_arg(request.params@[k]@),
            decreases request.params@.len() - i,
        {
            args.push(json_to_js(&request.params[i]));
            i += 1;
        }
        let call = BindingCall { sql: request.sql, args, want: request.want };
        assert(call@.args =~= binding_call(request@).args);
        call
    }
}

impl Clone for D1Binding {
    fn clone(&self) -> (r: D1Binding)
        ensures
            r.database() == self.database(),
    {
        D1Binding { inner: self.inner.clone() }
    }
}

/// A JavaScript value that D1 binds.
#[derive(Debug, PartialEq)]
pub enum JsArg {
    Null,
    Bool(bool),
    Number(Number),
    Text(String),
}

/// What a [`JsArg`] stands for.
#[verifier::ext_equal]
pub enum JsArgView {
    Null,
    Bool(bool),
    Number(NumberView),
    Text(Seq<char>),
}

impl View for JsArg {
    type V = JsArgView;

    open spec fn view(&self) -> JsArgView {
        match self {
            JsArg::Null => JsArgView::Null,
            JsArg::Bool(b) => JsArgView::Bool(*b),
            JsArg::Number(n) => JsArgView::Number(n@),
            JsArg::Text(s) => JsArgView::Text(s@),
        }
    }
}

/// A statement to be prepared, bound and run.
#[derive(Debug, PartialEq)]
pub struct BindingCall {
    pub sql: String,
    pub args: Vec<JsArg>,
    pub want: Want,
}

/// What a [`BindingCall`] stands for.
#[verifier::ext_equal]
pub struct BindingCallView {
    pub sql: Seq<char>,
    pub args: Seq<JsArgView>,
    pub want: Want,
}

impl View for BindingCall {
    type V = BindingCallView;

    open spec fn view(&self) -> BindingCallView {
        BindingCallView {
            sql: self.sql@,
            args: Seq::new(self.args@.len(), |i: int| self.args@[i]@),
            want: self.want,
        }
    }
}

/// How the binding answered a [`BindingCall`].
pub enum BindingReply {
    /// The parameters could not be bound, with the error's message.
    BindFailed(String),
    /// The statement failed, with the error's message.
    Failed(String),
    /// The rows that were wanted.
    Rows(Vec<Vec<Json>>),
    /// The statement ran, and may have told how many rows it changed.
    Ran(Option<usize>),
}

/// How the binding answered a batch.
pub enum BatchReply {
    /// The batch failed, with the error's message.
    Failed(String),
    /// The batch ran, and each statement may have told how many rows it
    /// changed.
    Ran(Vec<Option<usize>>),
}

/// The JavaScript value that binds a parameter.
pub open spec fn js_arg(value: JsonView) -> JsArgView {
    match value {
        JsonView::Null => JsArgView::Null,
        JsonView::Bool(b) => JsArgView::Bool(b),
        JsonView::Number(n) => JsArgView::Number(n),
        JsonView::String(s) => JsArgView::Text(s),
        JsonView::Array(_) | JsonView::Object(_) => JsArgView::Text(json_text(value)),
    }
}

/// What is asked of the binding to run a statement.
pub open spec fn binding_call(request: RequestView) -> BindingCallView {
    BindingCallView {
        sql: request.sql,
        args: Seq::new(request.params.len(), |i: int| js_arg(request.params[i])),
        want: request.want,
    }
}

/// How many rows a statement changed.
pub open spec fn changes_told(changes: Option<usize>) -> u64 {
    match changes {
        Some(n) => n as u64,
        None => 0,
    }
}

/// How a binding's failure to run `sql` is classified.
pub open spec fn classified(sql: Seq<char>, err: Seq<char>) -> TransportErrorView {
    let message = "D1 statement failed ("@ + sql + "): "@ + err;
    if occurs(err, "D1_ERROR"@) {
        TransportErrorView::Api(message)
    } else {
        TransportErrorView::Lost(message)
    }
}

/// What the answer to one statement means.
pub open spec fn binding_reply(sql: Seq<char>, reply: BindingReply) -> Result<
    RawOutcomeView,
    TransportErrorView,
> {
    match reply {
        BindingReply::BindFailed(err) => Err(
            TransportErrorView::Api("D1 bind failed: "@ + err@),
        ),
        BindingReply::Failed(err) => Err(classified(sql, err@)),
        BindingReply::Rows(rows) => Ok(RawOutcomeView { rows: rows_view(rows@), changes: 0 }),
        BindingReply::Ran(changes) => Ok(
            RawOutcomeView { rows: Seq::empty(), changes: changes_told(changes) },
        ),
    }
}

/// What the answer to a batch means.
pub open spec fn binding_batch_reply(sql: Seq<char>, reply: BatchReply) -> Result<
    Seq<RawOutcomeView>,
    TransportErrorView,
> {
    match reply {
        BatchReply::Failed(err) => Err(classified(sql, err@)),
        BatchReply::Ran(changes) => Ok(
            Seq::new(
                changes@.len(),
                |i: int| RawOutcomeView { rows: Seq::empty(), changes: changes_told(changes@[i]) },
            ),
        ),
    }
}

/// How many rows a statement changed.
pub fn changes_of(changes: Option<usize>) -> (r: u64)
    ensures
        r == changes_told(changes),
{
    match changes {
        Some(n) => n as u64,
        None => 0,
    }
}

/// Classifies a binding failure.
///
/// The binding surfaces both "the database rejected this" and "the call could
/// not be made" as one error type, so the message is all there is to go on.
/// Misclassifying a rejected statement as connection loss would have the pool
/// throw away a perfectly good connection, so anything recognisably from D1
/// is treated as an API error and only the rest as a lost connection.
pub fn classify(sql: &str, err: &str) -> (r: TransportError)
    ensures
        r@ == classified(sql@, err@),
{
    let mut message = "D1 statement failed (".to_string();
    message.append(sql);
    message.append("): ");
    message.append(err);
    if contains(err, "D1_ERROR") {
        TransportError::Api(D1Error::new(message))
    } else {
        TransportError::Lost(D1Error::new(message))
    }
}

/// The JavaScript value that binds a parameter.
///
/// D1 binds neither arrays nor objects. They are written as text rather than
/// dropped, so that D1 is not silently handed a null.
pub fn json_to_js(value: &Json) -> (r: JsArg)
    ensures
        r@ == js_arg(value@),
{
    match value {
        Json::Null => JsArg::Null,
        Json::Bool(b) => JsArg::Bool(*b),
        Json::Number(n) => JsArg::Number(n.clone()),
        Json::String(s) => JsArg::Text(s.clone()),
        Json::Array(_) | Json::Object(_) => JsArg::Text(json_to_string(value)),
    }
}

/// What the answer to one statement means.
pub fn binding_outcome(sql: &str, reply: BindingReply) -> (r: Result<RawOutcome, TransportError>)
    ensures
        outcome_result(r) == binding_reply(sql@, reply),
{
    match reply {
        BindingReply::BindFailed(err) => {
            let mut message = "D1 bind failed: ".to_string();
            message.append(err.as_str());
            Err(TransportError::Api(D1Error::new(message)))
        },
        BindingReply::Failed(err) => Err(classify(sql, err.as_str())),
        BindingReply::Rows(rows) => Ok(RawOutcome { rows, changes: 0 }),
        BindingReply::Ran(changes) => {
            let outcome = RawOutcome { rows: Vec::new(), changes: changes_of(changes) };
            assert(outcome@.rows =~= Seq::<Seq<JsonView>>::empty());
            Ok(outcome)
        },
    }
}

/// What the answer to a batch means.
pub fn binding_batch_outcomes(sql: &str, reply: BatchReply) -> (r: Result<
    Vec<RawOutcome>,
    TransportError,
>)
    ensures
        outcomes_result(r) == binding_batch_reply(sql@, reply),
{
    match reply {
        BatchReply::Failed(err) => Err(classify(sql, err.as_str())),
        BatchReply::Ran(changes) => {
            let mut outcomes: Vec<RawOutcome> = Vec::new();
            let mut i: usize = 0;
            while i < changes.len()
                invariant
                    i == outcomes@.len(),
                    i <= changes@.len(),
                    forall|k: int|
                        0 <= k < i ==> (#[trigger] outcomes@[k])@ == (RawOutcomeView {
                            rows: Seq::empty(),
                            changes: changes_told(changes@[k]),
                        }),
                decreases changes@.len() - i,
            {
                let outcome = RawOutcome { rows: Vec::new(), changes: changes_of(changes[i]) };
                assert(outcome@.rows =~= Seq::<Seq<JsonView>>::empty());
                outcomes.push(outcome);
                i += 1;
            }
            assert(outcomes_view(outcomes@) =~= binding_batch_reply(
                sql@,
                BatchReply::Ran(changes),
            )->Ok_0);
            Ok(outcomes)
        },
    }
}

/// A statement that D1 rejected never costs the connection, and whatever does
/// not come from D1 always does.
pub proof fn rejection_keeps_the_connection(sql: Seq<char>, err: Seq<char>)
    ensures
        core_error(classified(sql, err)) is DriverOperationFailed <==> occurs(err, "D1_ERROR"@),
        core_error(classified(sql, err)) is ConnectionLost <==> !occurs(err, "D1_ERROR"@),
{
}

/// A parameter is bound as the JavaScript value of its kind. Numbers and texts
/// are kept as they are, and what D1 does not bind is written as JSON.
pub proof fn parameters_keep_their_kind(
    b: bool,
    n: NumberView,
    s: Seq<char>,
    items: Seq<JsonView>,
    entries: Seq<(Seq<char>, JsonView)>,
)
    ensures
        js_arg(JsonView::Null) == JsArgView::Null,
        js_arg(JsonView::Bool(b)) == JsArgView::Bool(b),
        js_arg(JsonView::Number(n)) == JsArgView::Number(n),
        js_arg(JsonView::String(s)) == JsArgView::Text(s),
        js_arg(JsonView::Array(items)) == JsArgView::Text(json_text(JsonView::Array(items))),
        js_arg(JsonView::Object(entries)) == JsArgView::Text(json_text(JsonView::Object(entries))),
{
}

/// A call of the binding runs the statement as it is, asks for the wanted half
/// and binds the parameters, as many as there are and each in its place.
pub proof fn call_binds_the_parameters_in_order(request: RequestView, i: int)
    ensures
        binding_call(request).sql == request.sql,
        binding_call(request).want == request.want,
        binding_call(request).args.len() == request.params.len(),
        0 <= i < request.params.len() ==> binding_call(request).args[i] == js_arg(
            request.params[i],
        ),
{
}

/// What is asked of the binding stands for itself.
pub proof fn call_stands_for_itself(call: BindingCall, b: bool, n: Number, s: String, i: int)
    ensures
        call@.sql == call.sql@,
        call@.want == call.want,
        call@.args.len() == call.args@.len(),
        0 <= i < call.args@.len() ==> call@.args[i] == call.args@[i]@,
        JsArg::Null@ == JsArgView::Null,
        JsArg::Bool(b)@ == JsArgView::Bool(b),
        JsArg::Number(n)@ == JsArgView::Number(n@),
        JsArg::Text(s)@ == JsArgView::Text(s@),
{
}

/// An answer of the binding is an outcome with the rows or the change count
/// that it gave, and nothing in the other half. A failure tells the statement
/// and what went wrong.
pub proof fn binding_answers_are_kept(
    sql: Seq<char>,
    rows: Vec<Vec<Json>>,
    changes: Option<usize>,
    err: String,
)
    ensures
        binding_reply(sql, BindingReply::Rows(rows)) == Ok::<RawOutcomeView, TransportErrorView>(
            RawOutcomeView { rows: rows_view(rows@), changes: 0 },
        ),
        binding_reply(sql, BindingReply::Ran(changes)) is Ok,
        (binding_reply(sql, BindingReply::Ran(changes))->Ok_0).rows.len() == 0,
        (binding_reply(sql, BindingReply::Ran(changes))->Ok_0).changes == match changes {
            Some(n) => n as int,
            None => 0,
        },
        binding_reply(sql, BindingReply::BindFailed(err)) == Err::<
            RawOutcomeView,
            TransportErrorView,
        >(TransportErrorView::Api("D1 bind failed: "@ + err@)),
        occurs(err@, "D1_ERROR"@) ==> binding_reply(sql, BindingReply::Failed(err)) == Err::<
            RawOutcomeView,
            TransportErrorView,
        >(TransportErrorView::Api("D1 statement failed ("@ + sql + "): "@ + err@)),
        !occurs(err@, "D1_ERROR"@) ==> binding_reply(sql, BindingReply::Failed(err)) == Err::<
            RawOutcomeView,
            TransportErrorView,
        >(TransportErrorView::Lost("D1 statement failed ("@ + sql + "): "@ + err@)),
{
}

/// The answer to a batch has an outcome for each statement, in the order of
/// the statements, with the change count that the statement told. A batch
/// fails as a statement does.
pub proof fn binding_batch_answers_are_kept(
    sql: Seq<char>,
    changes: Vec<Option<usize>>,
    err: String,
    i: int,
)
    ensures
        binding_batch_reply(sql, BatchReply::Ran(changes)) is Ok,
        (binding_batch_reply(sql, BatchReply::Ran(changes))->Ok_0).len() == changes@.len(),
        0 <= i < changes@.len() ==> Ok::<RawOutcomeView, TransportErrorView>(
            (binding_batch_reply(sql, BatchReply::Ran(changes))->Ok_0)[i],
        ) == binding_reply(sql, BindingReply::Ran(changes@[i])),
        binding_batch_reply(sql, BatchReply::Failed(err)) is Err,
        Err::<RawOutcomeView, TransportErrorView>(
            binding_batch_reply(sql, BatchReply::Failed(err))->Err_0,
        ) == binding_reply(sql, BindingReply::Failed(err)),
        changes_told(None) == 0,
        0 <= i < changes@.len() && changes@[i] is Some ==> changes_told(changes@[i])
            == changes@[i]->0,
{
}

} // verus!
