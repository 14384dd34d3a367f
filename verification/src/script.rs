//! Statements that are sent one after the other, until one fails.

use vstd::prelude::*;

use crate::error::{
    core_error, into_core_error, DriverError, DriverErrorView, TransportError, TransportErrorView,
};
use crate::migration::{migration_id, migration_ids, read_record};
use crate::outcome::{
    outcome_result, requests_view, RawOutcome, RawOutcomeView, Request, RequestView,
};

verus! {

/// Statements to be sent one after the other.
///
/// Neither transport has transactions, so a script that fails leaves the
/// effects of the earlier statements behind, and sends no later one.
pub struct Script {
    requests: Vec<Request>,
    /// The statement that reads the record of migrations, if there is one.
    record_at: Option<usize>,
    position: usize,
    failed: bool,
}

/// How far a script has come.
#[verifier::ext_equal]
pub struct ScriptView {
    /// All statements of the script.
    pub requests: Seq<RequestView>,
    /// The statement that reads the record of migrations, if there is one.
    pub record_at: Option<int>,
    /// How many statements have succeeded.
    pub position: int,
    /// Whether a statement has failed.
    pub failed: bool,
}

impl View for Script {
    type V = ScriptView;

    closed spec fn view(&self) -> ScriptView {
        ScriptView {
            requests: requests_view(self.requests@),
            record_at: match self.record_at {
                Some(at) => Some(at as int),
                None => None,
            },
            position: self.position as int,
            failed: self.failed,
        }
    }
}

/// A script of which nothing has been sent.
pub open spec fn script_of(requests: Seq<RequestView>, record_at: Option<int>) -> ScriptView {
    ScriptView { requests, record_at, position: 0, failed: false }
}

/// The statement to be sent next, if any.
pub open spec fn upcoming(script: ScriptView) -> Option<RequestView> {
    if !script.failed && 0 <= script.position < script.requests.len() {
        Some(script.requests[script.position])
    } else {
        None
    }
}

/// What a statement's outcome means: a failure to be reported, a record that
/// does not read, or success.
pub open spec fn judged(
    script: ScriptView,
    outcome: Result<RawOutcomeView, TransportErrorView>,
) -> Result<RawOutcomeView, DriverErrorView> {
    match outcome {
        Err(err) => Err(core_error(err)),
        Ok(outcome) => if script.record_at == Some(script.position) {
            match migration_ids(outcome.rows) {
                Err(err) => Err(err),
                Ok(_) => Ok(outcome),
            }
        } else {
            Ok(outcome)
        },
    }
}

/// The script after a statement's outcome: one statement further, or failed.
pub open spec fn settled(
    script: ScriptView,
    outcome: Result<RawOutcomeView, TransportErrorView>,
) -> ScriptView {
    if judged(script, outcome) is Ok {
        ScriptView { position: script.position + 1, ..script }
    } else {
        ScriptView { failed: true, ..script }
    }
}

impl Script {
    /// A script of which nothing has been sent.
    pub fn new(requests: Vec<Request>) -> (r: Script)
        ensures
            r@ == script_of(requests_view(requests@), None),
    {
        Script { requests, record_at: None, position: 0, failed: false }
    }

    /// A script of which nothing has been sent, with a statement that reads
    /// the record of migrations.
    pub fn reading_record(requests: Vec<Request>, record_at: usize) -> (r: Script)
        ensures
            r@ == script_of(requests_view(requests@), Some(record_at as int)),
    {
        Script { requests, record_at: Some(record_at), position: 0, failed: false }
    }

    /// The statement to be sent next, if any.
    pub fn next(&self) -> (r: Option<&Request>)
        ensures
            match r {
                Some(request) => upcoming(self@) == Some(request@),
                None => upcoming(self@) is None,
            },
    {
        if !self.failed && self.position < self.requests.len() {
            assert(self@.requests[self.position as int] == self.requests@[self.position as int]@);
            Some(&self.requests[self.position])
        } else {
            None
        }
    }

    /// Takes note of how the statement that was sent ended.
    pub fn settle(&mut self, outcome: Result<RawOutcome, TransportError>) -> (r: Result<
        RawOutcome,
        DriverError,
    >)
        requires
            upcoming(old(self)@) is Some,
        ensures
            final(self)@ == settled(old(self)@, outcome_result(outcome)),
            match r {
                Ok(o) => judged(old(self)@, outcome_result(outcome)) == Ok::<
                    RawOutcomeView,
                    DriverErrorView,
                >(o@),
                Err(e) => judged(old(self)@, outcome_result(outcome)) == Err::<
                    RawOutcomeView,
                    DriverErrorView,
                >(e@),
            },
    {
        let len: usize = self.requests.len();
        match outcome {
            Err(err) => {
                self.failed = true;
                Err(into_core_error(err))
            },
            Ok(outcome) => {
                let reads_record: bool = match self.record_at {
                    Some(at) => at == self.position,
                    None => false,
                };
                if reads_record {
                    match read_record(&outcome.rows) {
                        Err(err) => {
                            self.failed = true;
                            return Err(err);
                        },
                        Ok(_) => {},
                    }
                }
                self.position = self.position + 1;
                Ok(outcome)
            },
        }
    }
}

/// A script after its statements were sent and ended like this, as far as it
/// got.
pub open spec fn run(
    script: ScriptView,
    outcomes: Seq<Result<RawOutcomeView, TransportErrorView>>,
) -> ScriptView
    decreases outcomes.len(),
{
    if outcomes.len() == 0 {
        script
    } else {
        let before = run(script, outcomes.drop_last());
        if upcoming(before) is Some {
            settled(before, outcomes.last())
        } else {
            before
        }
    }
}

/// The statements that were sent, given how they ended.
pub open spec fn sent(
    script: ScriptView,
    outcomes: Seq<Result<RawOutcomeView, TransportErrorView>>,
) -> Seq<RequestView>
    decreases outcomes.len(),
{
    if outcomes.len() == 0 {
        Seq::empty()
    } else {
        let before = sent(script, outcomes.drop_last());
        match upcoming(run(script, outcomes.drop_last())) {
            Some(request) => before.push(request),
            None => before,
        }
    }
}

/// A script sends its statements in their order and skips none. It stops at
/// the first that fails: that one was sent, and none after it.
pub proof fn script_sends_up_to_the_first_failure(
    requests: Seq<RequestView>,
    record_at: Option<int>,
    outcomes: Seq<Result<RawOutcomeView, TransportErrorView>>,
)
    ensures
        ({
            let script = run(script_of(requests, record_at), outcomes);
            let count = sent(script_of(requests, record_at), outcomes).len();
            &&& count <= requests.len()
            &&& sent(script_of(requests, record_at), outcomes) == requests.take(count as int)
            &&& script.requests == requests
            &&& script.record_at == record_at
            &&& script.position == if script.failed {
                count - 1
            } else {
                count as int
            }
            &&& 0 <= script.position
            &&& script.failed ==> upcoming(script) is None
            &&& !script.failed && outcomes.len() >= requests.len() ==> count == requests.len()
            &&& !script.failed && outcomes.len() <= requests.len() ==> count == outcomes.len()
        }),
    decreases outcomes.len(),
{
    let start = script_of(requests, record_at);
    if outcomes.len() == 0 {
        assert(requests.take(0) =~= Seq::<RequestView>::empty());
    } else {
        let fewer = outcomes.drop_last();
        script_sends_up_to_the_first_failure(requests, record_at, fewer);
        let before = sent(start, fewer);
        if upcoming(run(start, fewer)) is Some {
            assert(requests.take(before.len() as int).push(requests[before.len() as int])
                =~= requests.take((before.len() + 1) as int));
        }
    }
}

/// A new script holds its statements as they were given. Nothing has been sent
/// and nothing has failed, and the first statement is the one to send.
pub proof fn script_starts_at_its_first_statement(
    requests: Seq<RequestView>,
    record_at: Option<int>,
)
    ensures
        script_of(requests, record_at).requests == requests,
        script_of(requests, record_at).record_at == record_at,
        script_of(requests, record_at).position == 0,
        !script_of(requests, record_at).failed,
        requests.len() > 0 ==> upcoming(script_of(requests, record_at)) == Some(requests[0]),
        requests.len() == 0 ==> upcoming(script_of(requests, record_at)) is None,
{
}

/// The statement to be sent is the first that has not succeeded, if there is
/// one and nothing has failed.
pub proof fn upcoming_follows_what_succeeded(script: ScriptView)
    requires
        0 <= script.position <= script.requests.len(),
    ensures
        match upcoming(script) {
            Some(request) => {
                &&& !script.failed
                &&& script.requests.skip(script.position).len() > 0
                &&& request == script.requests.skip(script.position)[0]
            },
            None => script.failed || script.position == script.requests.len(),
        },
{
}

/// A statement fails if the transport says so, and then with the transport's
/// error. The one that reads the record also fails if some row holds no
/// identifier. What succeeds keeps its outcome.
pub proof fn outcome_is_judged(script: ScriptView, outcome: RawOutcomeView, err: TransportErrorView)
    ensures
        judged(script, Err(err)) == Err::<RawOutcomeView, DriverErrorView>(core_error(err)),
        script.record_at != Some(script.position) ==> judged(script, Ok(outcome)) == Ok::<
            RawOutcomeView,
            DriverErrorView,
        >(outcome),
        (forall|i: int| 0 <= i < outcome.rows.len() ==> migration_id(#[trigger] outcome.rows[i]) is Some)
            ==> judged(script, Ok(outcome)) == Ok::<RawOutcomeView, DriverErrorView>(outcome),
        script.record_at == Some(script.position) && (exists|i: int|
            0 <= i < outcome.rows.len() && migration_id(#[trigger] outcome.rows[i]) is None)
            ==> judged(script, Ok(outcome)) == Err::<RawOutcomeView, DriverErrorView>(
            DriverErrorView::DriverOperationFailed("migration id is not an integer"@),
        ),
{
}

/// A statement that succeeds takes the script one statement further. One that
/// fails ends it where it is. Neither changes the statements.
pub proof fn outcome_moves_the_script(
    script: ScriptView,
    outcome: Result<RawOutcomeView, TransportErrorView>,
)
    ensures
        settled(script, outcome).requests == script.requests,
        settled(script, outcome).record_at == script.record_at,
        judged(script, outcome) is Ok ==> settled(script, outcome).position == script.position + 1
            && settled(script, outcome).failed == script.failed,
        judged(script, outcome) is Err ==> settled(script, outcome).position == script.position
            && settled(script, outcome).failed,
{
}

} // verus!
