//! D1's `/raw` query endpoint: what is sent to it, and what its answers mean.
//!
//! `/raw` (not `/query`) because it returns rows as positional arrays,
//! matching how the query plan addresses result columns by index.

use vstd::prelude::*;

use crate::error::{D1Error, TransportError, TransportErrorView};
use crate::json::{json_views, Json, JsonView};
use crate::outcome::{
    outcome_result, outcomes_result, outcomes_view, rows_view, RawOutcome, RawOutcomeView,
};
use crate::text::{
    decimal, joined, joined_grows, lemma_joined_holds_part, lemma_occurs_transitive, lemma_occurs_within, occurs,
    push_decimal, trim_end_slashes, without_trailing_slashes,
};

verus! {

/// Where the API lives unless told otherwise.
pub const DEFAULT_BASE_URL: &'static str = "https://api.cloudflare.com/client/v4";

/// A client of one database.
pub struct D1Client {
    endpoint: String,
    token: String,
}

/// What a [`D1Client`] stands for.
pub struct D1ClientView {
    pub endpoint: Seq<char>,
    pub token: Seq<char>,
}

impl View for D1Client {
    type V = D1ClientView;

    closed spec fn view(&self) -> D1ClientView {
        D1ClientView { endpoint: self.endpoint@, token: self.token@ }
    }
}

/// A POST request that carries a bearer token and a JSON body.
pub struct HttpRequest {
    pub url: String,
    pub token: String,
    pub body: Json,
}

/// What an [`HttpRequest`] stands for.
pub struct HttpRequestView {
    pub url: Seq<char>,
    pub token: Seq<char>,
    pub body: JsonView,
}

impl View for HttpRequest {
    type V = HttpRequestView;

    open spec fn view(&self) -> HttpRequestView {
        HttpRequestView { url: self.url@, token: self.token@, body: self.body@ }
    }
}

/// The answer of the API.
pub struct Envelope {
    pub success: bool,
    pub errors: Vec<ApiError>,
    pub result: Vec<StatementResult>,
}

/// An error that the API reports.
pub struct ApiError {
    pub code: i64,
    pub message: String,
}

/// One statement's part of the answer.
pub struct StatementResult {
    pub results: Option<RawResults>,
    pub meta: Option<Meta>,
}

/// The rows of a statement.
pub struct RawResults {
    pub rows: Vec<Vec<Json>>,
}

/// The figures of a statement.
pub struct Meta {
    pub changes: u64,
}

/// The status of an HTTP response.
#[verifier::external_type_specification]
#[verifier::external_body]
pub struct ExStatusCode(reqwest::StatusCode);

/// A status as a text, its number first: what `Display` writes for a
/// `reqwest::StatusCode`.
pub uninterp spec fn status_text(status: reqwest::StatusCode) -> Seq<char>;

/// Writes a status with `reqwest::StatusCode`'s `Display`; the text depends on
/// the status alone.
#[verifier::external_body]
fn display_status(status: &reqwest::StatusCode) -> (r: String)
    ensures
        r@ == status_text(*status),
{
    status.to_string()
}

/// The endpoint of a database.
pub open spec fn endpoint_of(
    base_url: Seq<char>,
    account_id: Seq<char>,
    database_id: Seq<char>,
) -> Seq<char> {
    without_trailing_slashes(base_url) + "/accounts/"@ + account_id + "/d1/database/"@ + database_id
        + "/raw"@
}

/// The body that runs `sql` with `params`.
pub open spec fn raw_body(sql: Seq<char>, params: Seq<JsonView>) -> JsonView {
    JsonView::Object(
        seq![("sql"@, JsonView::String(sql)), ("params"@, JsonView::Array(params))],
    )
}

/// The request that runs `sql` with `params`.
pub open spec fn raw_request(
    client: D1ClientView,
    sql: Seq<char>,
    params: Seq<JsonView>,
) -> HttpRequestView {
    HttpRequestView { url: client.endpoint, token: client.token, body: raw_body(sql, params) }
}

/// An API error's line in a message.
pub open spec fn api_error_text(error: ApiError) -> Seq<char> {
    decimal(error.code as int) + ": "@ + error.message@
}

/// The lines of all API errors.
pub open spec fn api_errors_text(errors: Seq<ApiError>) -> Seq<char> {
    joined(Seq::new(errors.len(), |i: int| api_error_text(errors[i])), "; "@)
}

/// What a statement's part of the answer means.
pub open spec fn statement_outcome(result: StatementResult) -> RawOutcomeView {
    RawOutcomeView {
        rows: match result.results {
            Some(results) => rows_view(results.rows@),
            None => Seq::empty(),
        },
        changes: match result.meta {
            Some(meta) => meta.changes,
            None => 0,
        },
    }
}

/// The error of a request that was refused.
pub open spec fn refusal(status: Seq<char>, errors: Seq<ApiError>) -> TransportErrorView {
    TransportErrorView::Api(
        "D1 query failed (HTTP "@ + status + "): "@ + api_errors_text(errors),
    )
}

/// What the answer to a batch means.
pub open spec fn batch_reply(status: reqwest::StatusCode, envelope: Envelope) -> Result<
    Seq<RawOutcomeView>,
    TransportErrorView,
> {
    if envelope.success {
        Ok(
            Seq::new(
                envelope.result@.len(),
                |i: int| statement_outcome(envelope.result@[i]),
            ),
        )
    } else {
        Err(refusal(status_text(status), envelope.errors@))
    }
}

/// What the answer to one statement means.
pub open spec fn raw_reply(status: reqwest::StatusCode, envelope: Envelope) -> Result<
    RawOutcomeView,
    TransportErrorView,
> {
    match batch_reply(status, envelope) {
        Err(err) => Err(err),
        Ok(outcomes) => if outcomes.len() > 0 {
            Ok(outcomes[0])
        } else {
            Err(TransportErrorView::Api("D1 returned no statement result"@))
        },
    }
}

impl D1Client {
    /// A client for the given database.
    pub fn new(base_url: &str, account_id: &str, database_id: &str, token: &str) -> (r: D1Client)
        ensures
            r@ == (D1ClientView {
                endpoint: endpoint_of(base_url@, account_id@, database_id@),
                token: token@,
            }),
    {
        let mut endpoint = trim_end_slashes(base_url);
        endpoint.append("/accounts/");
        endpoint.append(account_id);
        endpoint.append("/d1/database/");
        endpoint.append(database_id);
        endpoint.append("/raw");
        D1Client { endpoint, token: token.to_string() }
    }

    /// The endpoint that requests go to. Fit for logs, where the token must
    /// never appear.
    pub fn endpoint(&self) -> (r: &str)
        ensures
            r@ == self@.endpoint,
    {
        self.endpoint.as_str()
    }

    /// The request that runs one statement.
    pub fn raw(&self, sql: String, params: Vec<Json>) -> (r: HttpRequest)
        ensures
            r@ == raw_request(self@, sql@, json_views(params@)),
    {
        let ghost views = json_views(params@);
        let ghost text = sql@;
        let sql = Json::String(sql);
        let params = Json::Array(params);
        assert(sql@ == JsonView::String(text));
        assert(params@->Array_0 =~= views);
        let mut entries: Vec<(String, Json)> = Vec::new();
        entries.push(("sql".to_string(), sql));
        entries.push(("params".to_string(), params));
        let body = Json::Object(entries);
        assert(body@->Object_0 =~= raw_body(text, views)->Object_0);
        HttpRequest { url: self.endpoint.clone(), token: self.token.clone(), body }
    }

    /// The request that runs several statements, all or none of them.
    pub fn raw_batch(&self, sql: String) -> (r: HttpRequest)
        ensures
            r@ == raw_request(self@, sql@, Seq::empty()),
    {
        let params: Vec<Json> = Vec::new();
        assert(json_views(params@) =~= Seq::<JsonView>::empty());
        self.raw(sql, params)
    }
}

impl Clone for D1Client {
    fn clone(&self) -> (r: D1Client)
        ensures
            r@ == self@,
    {
        D1Client { endpoint: self.endpoint.clone(), token: self.token.clone() }
    }
}

/// The lines of all API errors.
fn api_errors_to_string(errors: &Vec<ApiError>) -> (r: String)
    ensures
        r@ == api_errors_text(errors@),
{
    let ghost lines = Seq::new(errors@.len(), |i: int| api_error_text(errors@[i]));
    let mut out = String::new();
    let mut i: usize = 0;
    while i < errors.len()
        invariant
            i <= errors@.len(),
            lines == Seq::new(errors@.len(), |i: int| api_error_text(errors@[i])),
            out@ == joined(lines.take(i as int), "; "@),
        decreases errors@.len() - i,
    {
        let ghost before = out@;
        proof {
            assert(lines.take(i + 1).drop_last() =~= lines.take(i as int));
            assert(lines.take(i + 1).last() == lines[i as int]);
            if i == 0 {
                assert(lines.take(1)[0] == lines[0]);
            }
        }
        if i > 0 {
            out.append("; ");
        }
        push_decimal(&mut out, errors[i].code as i128);
        out.append(": ");
        out.append(errors[i].message.as_str());
        proof {
            if i == 0 {
                assert(out@ =~= lines[0]);
            } else {
                assert(out@ =~= before + "; "@ + lines[i as int]);
            }
        }
        i += 1;
    }
    proof {
        assert(lines.take(i as int) =~= lines);
    }
    out
}

/// The error of a request that was refused.
pub fn refused(status: &str, errors: &Vec<ApiError>) -> (r: TransportError)
    ensures
        r@ == refusal(status@, errors@),
{
    let mut message = "D1 query failed (HTTP ".to_string();
    message.append(status);
    message.append("): ");
    message.append(api_errors_to_string(errors).as_str());
    TransportError::Api(D1Error::new(message))
}

/// What the answer to a batch means.
pub fn batch_outcomes(status: &reqwest::StatusCode, envelope: Envelope) -> (r: Result<
    Vec<RawOutcome>,
    TransportError,
>)
    ensures
        outcomes_result(r) == batch_reply(*status, envelope),
{
    if !envelope.success {
        return Err(refused(display_status(status).as_str(), &envelope.errors));
    }
    let ghost results = envelope.result@;
    let mut outcomes: Vec<RawOutcome> = Vec::new();
    for result in it: envelope.result
        invariant
            it.seq() == results,
            outcomes@.len() == it.index(),
            forall|k: int|
                0 <= k < outcomes@.len() ==> (#[trigger] outcomes@[k])@ == statement_outcome(
                    results[k],
                ),
    {
        let rows: Vec<Vec<Json>> = match result.results {
            Some(results) => results.rows,
            None => Vec::new(),
        };
        let changes: u64 = match result.meta {
            Some(meta) => meta.changes,
            None => 0,
        };
        let outcome = RawOutcome { rows, changes };
        assert(outcome@.rows =~= statement_outcome(result).rows);
        outcomes.push(outcome);
    }
    assert(outcomes_view(outcomes@) =~= Seq::new(
        results.len(),
        |i: int| statement_outcome(results[i]),
    ));
    Ok(outcomes)
}

/// What the answer to one statement means: the first statement's outcome.
pub fn raw_outcome(status: &reqwest::StatusCode, envelope: Envelope) -> (r: Result<
    RawOutcome,
    TransportError,
>)
    ensures
        outcome_result(r) == raw_reply(*status, envelope),
{
    match batch_outcomes(status, envelope) {
        Err(err) => Err(err),
        Ok(mut outcomes) => {
            if outcomes.len() == 0 {
                return Err(
                    TransportError::Api(
                        D1Error::new("D1 returned no statement result".to_string()),
                    ),
                );
            }
            Ok(outcomes.swap_remove(0))
        },
    }
}

/// Slashes at the end of an origin make no difference.
pub proof fn endpoint_ignores_trailing_slashes(
    base_url: Seq<char>,
    slashes: nat,
    account_id: Seq<char>,
    database_id: Seq<char>,
)
    ensures
        endpoint_of(base_url + Seq::new(slashes, |i: int| '/'), account_id, database_id)
            == endpoint_of(base_url, account_id, database_id),
    decreases slashes,
{
    let padded = base_url + Seq::new(slashes, |i: int| '/');
    if slashes == 0 {
        assert(padded =~= base_url);
    } else {
        let fewer = (slashes - 1) as nat;
        endpoint_ignores_trailing_slashes(base_url, fewer, account_id, database_id);
        assert(padded.drop_last() =~= base_url + Seq::new(fewer, |i: int| '/'));
        assert(padded.last() == '/');
    }
}

/// The token authorizes a request and goes nowhere else: neither the address
/// nor the body depends on it.
pub proof fn token_only_authorizes(
    client: D1ClientView,
    token: Seq<char>,
    sql: Seq<char>,
    params: Seq<JsonView>,
)
    ensures
        raw_request(D1ClientView { token, ..client }, sql, params) == (HttpRequestView {
            token,
            ..raw_request(client, sql, params)
        }),
{
}

/// A refused request is answered with the code and the message of each error
/// that the API reported, and counts as a refusal, not as a lost connection.
pub proof fn refusal_tells_every_error(status: reqwest::StatusCode, envelope: Envelope, i: int)
    requires
        !envelope.success,
        0 <= i < envelope.errors@.len(),
    ensures
        raw_reply(status, envelope) == Err::<RawOutcomeView, TransportErrorView>(
            batch_reply(status, envelope)->Err_0,
        ),
        raw_reply(status, envelope)->Err_0 is Api,
        occurs(raw_reply(status, envelope)->Err_0->Api_0, api_error_text(envelope.errors@[i])),
        occurs(
            raw_reply(status, envelope)->Err_0->Api_0,
            decimal(envelope.errors@[i].code as int),
        ),
        occurs(raw_reply(status, envelope)->Err_0->Api_0, envelope.errors@[i].message@),
{
    let errors = envelope.errors@;
    let lines = Seq::new(errors.len(), |k: int| api_error_text(errors[k]));
    let message = raw_reply(status, envelope)->Err_0->Api_0;
    let prefix = "D1 query failed (HTTP "@ + status_text(status) + "): "@;
    let line = api_error_text(errors[i]);
    lemma_joined_holds_part(lines, "; "@, i);
    assert(lines[i] == line);
    assert(message =~= prefix + joined(lines, "; "@) + Seq::<char>::empty());
    lemma_occurs_within(prefix, joined(lines, "; "@), Seq::empty(), line);
    let code = decimal(errors[i].code as int);
    assert(line =~= Seq::<char>::empty() + code + (": "@ + errors[i].message@));
    assert(line =~= (code + ": "@) + errors[i].message@ + Seq::<char>::empty());
    lemma_occurs_within(Seq::empty(), code, ": "@ + errors[i].message@, code);
    lemma_occurs_within(code + ": "@, errors[i].message@, Seq::empty(), errors[i].message@);
    lemma_occurs_transitive(message, line, code);
    lemma_occurs_transitive(message, line, errors[i].message@);
}

/// The answer to one statement is the first of the answers to a batch.
pub proof fn single_reply_is_first_of_batch(status: reqwest::StatusCode, envelope: Envelope)
    requires
        envelope.success,
        envelope.result@.len() > 0,
    ensures
        batch_reply(status, envelope) is Ok,
        raw_reply(status, envelope) == Ok::<RawOutcomeView, TransportErrorView>(
            (batch_reply(status, envelope)->Ok_0)[0],
        ),
{
}

/// The endpoint of a database names the account and the database, behind an
/// origin without slashes at its end.
pub proof fn endpoint_names_the_database(
    base_url: Seq<char>,
    account_id: Seq<char>,
    database_id: Seq<char>,
)
    requires
        base_url.len() == 0 || base_url.last() != '/',
    ensures
        endpoint_of(base_url, account_id, database_id) == base_url + "/accounts/"@ + account_id
            + "/d1/database/"@ + database_id + "/raw"@,
{
}

/// The body of a request has two entries: the statement as it is, and the
/// parameters, as many as there are and each in its place. It goes to the
/// client's endpoint with the client's token.
pub proof fn request_carries_the_parameters_in_order(
    client: D1ClientView,
    sql: Seq<char>,
    params: Seq<JsonView>,
    i: int,
)
    ensures
        raw_request(client, sql, params).url == client.endpoint,
        raw_request(client, sql, params).token == client.token,
        raw_request(client, sql, params).body is Object,
        ({
            let entries = raw_request(client, sql, params).body->Object_0;
            &&& entries.len() == 2
            &&& entries[0].0 == "sql"@
            &&& entries[0].1 == JsonView::String(sql)
            &&& entries[1].0 == "params"@
            &&& entries[1].1 is Array
            &&& (entries[1].1->Array_0).len() == params.len()
            &&& 0 <= i < params.len() ==> (entries[1].1->Array_0)[i] == params[i]
        }),
{
}

/// An HTTP request stands for itself.
pub proof fn http_request_stands_for_itself(request: HttpRequest)
    ensures
        request@.url == request.url@,
        request@.token == request.token@,
        request@.body == request.body@,
{
}

/// A successful answer to a batch has an outcome for each statement, in the
/// order of the statements, with the statement's rows and change count. What
/// the answer leaves out counts as no rows and no changes.
pub proof fn success_gives_every_outcome(status: reqwest::StatusCode, envelope: Envelope, i: int)
    requires
        envelope.success,
    ensures
        batch_reply(status, envelope) is Ok,
        (batch_reply(status, envelope)->Ok_0).len() == envelope.result@.len(),
        0 <= i < envelope.result@.len() ==> {
            let outcome = (batch_reply(status, envelope)->Ok_0)[i];
            let result = envelope.result@[i];
            &&& match result.results {
                Some(results) => outcome.rows == rows_view(results.rows@),
                None => outcome.rows.len() == 0,
            }
            &&& match result.meta {
                Some(meta) => outcome.changes == meta.changes,
                None => outcome.changes == 0,
            }
        },
        envelope.result@.len() == 0 ==> raw_reply(status, envelope) == Err::<
            RawOutcomeView,
            TransportErrorView,
        >(TransportErrorView::Api("D1 returned no statement result"@)),
{
}

/// A refusal tells the status and then the errors, one after the other, each
/// with its code and its message.
pub proof fn refusal_is_spelled_out(
    status: reqwest::StatusCode,
    envelope: Envelope,
    shown: Seq<char>,
    errors: Seq<ApiError>,
    error: ApiError,
)
    ensures
        !envelope.success ==> batch_reply(status, envelope) == Err::<
            Seq<RawOutcomeView>,
            TransportErrorView,
        >(refusal(status_text(status), envelope.errors@)),
        refusal(shown, Seq::empty()) == TransportErrorView::Api(
            "D1 query failed (HTTP "@ + shown + "): "@,
        ),
        errors.len() == 0 ==> refusal(shown, errors.push(error)) == TransportErrorView::Api(
            "D1 query failed (HTTP "@ + shown + "): "@ + (decimal(error.code as int) + ": "@
                + error.message@),
        ),
        errors.len() > 0 ==> refusal(shown, errors) is Api && refusal(shown, errors.push(error))
            == TransportErrorView::Api(
            refusal(shown, errors)->Api_0 + "; "@ + (decimal(error.code as int) + ": "@
                + error.message@),
        ),
{
    let prefix = "D1 query failed (HTTP "@ + shown + "): "@;
    let lines = Seq::new(errors.len(), |i: int| api_error_text(errors[i]));
    let line = api_error_text(error);
    let longer = errors.push(error);
    assert(Seq::new(longer.len(), |i: int| api_error_text(longer[i])) =~= lines.push(line));
    joined_grows(lines, line, "; "@);
    assert(Seq::new(0, |i: int| api_error_text(Seq::<ApiError>::empty()[i])) =~= Seq::<
        Seq<char>,
    >::empty());
    assert(prefix + api_errors_text(Seq::empty()) =~= prefix);
    if errors.len() > 0 {
        assert(prefix + (joined(lines, "; "@) + "; "@ + line) =~= prefix + joined(lines, "; "@)
            + "; "@ + line);
    }
}

} // verus!
