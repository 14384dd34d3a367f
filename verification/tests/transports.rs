//! What the two transports send, and what their answers mean.

use reqwest::StatusCode;
use toasty_driver_d1::binding::{
    binding_batch_outcomes, binding_outcome, changes_of, classify, json_to_js, BatchReply,
    BindingReply, JsArg,
};
use toasty_driver_d1::driver::D1;
use toasty_driver_d1::error::{into_core_error, D1Error, DriverError, TransportError};
use toasty_driver_d1::http::{
    batch_outcomes, raw_outcome, refused, ApiError, D1Client, Envelope, Meta, RawResults,
    StatementResult,
};
use toasty_driver_d1::json::{json_to_string, Json, Number};
use toasty_driver_d1::outcome::{RawOutcome, Request, Want};
use toasty_driver_d1::transport::{Batch, BatchCall, Call};

fn integer(n: i128) -> Json {
    Json::Number(Number::Integer(n))
}

fn text(s: &str) -> Json {
    Json::String(s.to_string())
}

fn client() -> D1Client {
    D1Client::new("http://localhost:1234", "acct", "dbid", "sekrit")
}

fn statement(rows: Vec<Vec<Json>>, changes: u64) -> StatementResult {
    StatementResult { results: Some(RawResults { rows }), meta: Some(Meta { changes }) }
}

fn success(result: Vec<StatementResult>) -> Envelope {
    Envelope { success: true, errors: vec![], result }
}

#[test]
fn raw_posts_sql_with_bearer_auth_and_parses_rows() {
    let request = client().raw(
        "SELECT id, title FROM todos WHERE id = ?1".to_string(),
        vec![text("1")],
    );
    assert_eq!(request.url, "http://localhost:1234/accounts/acct/d1/database/dbid/raw");
    assert_eq!(format!("Bearer {}", request.token), "Bearer sekrit");
    assert_eq!(
        request.body,
        Json::Object(vec![
            ("sql".to_string(), text("SELECT id, title FROM todos WHERE id = ?1")),
            ("params".to_string(), Json::Array(vec![text("1")])),
        ])
    );

    let reply = success(vec![statement(vec![vec![integer(1), text("buy milk")]], 0)]);
    let outcome = raw_outcome(&StatusCode::OK, reply).expect("request should succeed");
    assert_eq!(outcome.rows.len(), 1);
    assert_eq!(outcome.rows[0][0], integer(1));
    assert_eq!(outcome.rows[0][1], text("buy milk"));
}

#[test]
fn raw_reports_write_counts_from_meta() {
    let request = client().raw("DELETE FROM todos".to_string(), vec![]);
    assert_eq!(json_to_string(&request.body), "{\"sql\":\"DELETE FROM todos\",\"params\":[]}");

    let outcome = raw_outcome(&StatusCode::OK, success(vec![statement(vec![], 3)]))
        .expect("request should succeed");
    assert_eq!(outcome.changes, 3);
}

#[test]
fn raw_surfaces_api_errors_with_code_and_message() {
    let reply = Envelope {
        success: false,
        errors: vec![ApiError { code: 7500, message: "no such table: nope".to_string() }],
        result: vec![],
    };
    match raw_outcome(&StatusCode::BAD_REQUEST, reply) {
        Ok(_) => panic!("request should fail"),
        Err(TransportError::Api(e)) => {
            let msg = e.message();
            assert!(msg.contains("7500"), "message was: {msg}");
            assert!(msg.contains("no such table"), "message was: {msg}");
        }
        Err(TransportError::Lost(_)) => panic!("expected an API error, got transport"),
    }
}

#[test]
fn refusal_lists_all_errors() {
    let reply = Envelope {
        success: false,
        errors: vec![
            ApiError { code: 7500, message: "one".to_string() },
            ApiError { code: -3, message: "two".to_string() },
        ],
        result: vec![statement(vec![], 1)],
    };
    assert_eq!(
        raw_outcome(&StatusCode::BAD_REQUEST, reply),
        Err(TransportError::Api(D1Error::new(
            "D1 query failed (HTTP 400 Bad Request): 7500: one; -3: two".to_string()
        )))
    );
    let reply = Envelope { success: false, errors: vec![], result: vec![] };
    assert_eq!(
        batch_outcomes(&StatusCode::INTERNAL_SERVER_ERROR, reply),
        Err(TransportError::Api(D1Error::new(
            "D1 query failed (HTTP 500 Internal Server Error): ".to_string()
        )))
    );
}

#[test]
fn answer_without_a_result_is_an_error() {
    assert_eq!(
        raw_outcome(&StatusCode::OK, success(vec![])),
        Err(TransportError::Api(D1Error::new("D1 returned no statement result".to_string())))
    );
}

#[test]
fn missing_parts_of_an_answer_count_as_empty() {
    let bare = StatementResult { results: None, meta: None };
    assert_eq!(
        raw_outcome(&StatusCode::OK, success(vec![bare])),
        Ok(RawOutcome { rows: vec![], changes: 0 })
    );
}

#[test]
fn batch_answers_come_in_order() {
    let reply = success(vec![statement(vec![vec![integer(1)]], 1), statement(vec![], 2)]);
    assert_eq!(
        batch_outcomes(&StatusCode::OK, reply),
        Ok(vec![
            RawOutcome { rows: vec![vec![integer(1)]], changes: 1 },
            RawOutcome { rows: vec![], changes: 2 },
        ])
    );
}

#[test]
fn endpoint_ignores_slashes_behind_the_origin() {
    for origin in ["http://h", "http://h/", "http://h///"] {
        assert_eq!(
            D1Client::new(origin, "a", "d", "t").endpoint(),
            "http://h/accounts/a/d1/database/d/raw"
        );
    }
    assert_eq!(D1Client::new("", "a", "d", "t").clone().endpoint(), "/accounts/a/d1/database/d/raw");
}

#[test]
fn http_transport_sends_one_text_for_a_batch() {
    let transport = D1::new("a".to_string(), "d".to_string(), "t".to_string()).client();
    let batch = Batch {
        statements: vec!["A;".to_string(), "B;".to_string()],
        sql: "A;B;".to_string(),
    };
    match transport.raw_batch(batch) {
        BatchCall::Rest(request) => {
            assert_eq!(request.url, "https://api.cloudflare.com/client/v4/accounts/a/d1/database/d/raw");
            assert_eq!(request.token, "t");
            assert_eq!(json_to_string(&request.body), "{\"sql\":\"A;B;\",\"params\":[]}");
        }
        BatchCall::Binding(_) => panic!("not over the binding"),
    }
}

#[test]
fn http_transport_sends_one_statement() {
    let transport = D1::new("a".to_string(), "d".to_string(), "t".to_string()).client().clone();
    for want in [Want::Rows, Want::Changes] {
        let request = Request { sql: "S".to_string(), params: vec![integer(1)], want };
        match transport.raw(request) {
            Call::Rest(request) => {
                assert_eq!(json_to_string(&request.body), "{\"sql\":\"S\",\"params\":[1]}");
            }
            Call::Binding(_) => panic!("not over the binding"),
        }
    }
}

#[test]
fn binding_arguments_are_javascript_values() {
    assert_eq!(json_to_js(&Json::Null), JsArg::Null);
    assert_eq!(json_to_js(&Json::Bool(true)), JsArg::Bool(true));
    assert_eq!(json_to_js(&integer(3)), JsArg::Number(Number::Integer(3)));
    assert_eq!(json_to_js(&text("x")), JsArg::Text("x".to_string()));
    assert_eq!(
        json_to_js(&Json::Array(vec![integer(1), text("a\"")])),
        JsArg::Text("[1,\"a\\\"\"]".to_string())
    );
}

#[test]
fn binding_reports_the_wanted_half() {
    assert_eq!(
        binding_outcome("S", BindingReply::Rows(vec![vec![integer(1)]])),
        Ok(RawOutcome { rows: vec![vec![integer(1)]], changes: 0 })
    );
    assert_eq!(
        binding_outcome("S", BindingReply::Ran(Some(4))),
        Ok(RawOutcome { rows: vec![], changes: 4 })
    );
    assert_eq!(
        binding_outcome("S", BindingReply::Ran(None)),
        Ok(RawOutcome { rows: vec![], changes: 0 })
    );
    assert_eq!(changes_of(Some(9)), 9);
}

#[test]
fn binding_failures_are_classified_by_their_message() {
    assert_eq!(
        binding_outcome("S", BindingReply::BindFailed("no".to_string())),
        Err(TransportError::Api(D1Error::new("D1 bind failed: no".to_string())))
    );
    assert_eq!(
        binding_outcome("SELECT 1", BindingReply::Failed("D1_ERROR: no such table".to_string())),
        Err(TransportError::Api(D1Error::new(
            "D1 statement failed (SELECT 1): D1_ERROR: no such table".to_string()
        )))
    );
    // The statement's own words do not count.
    assert_eq!(
        classify("SELECT 'D1_ERROR'", "gone"),
        TransportError::Lost(D1Error::new("D1 statement failed (SELECT 'D1_ERROR'): gone".to_string()))
    );
}

#[test]
fn binding_answers_a_batch_with_change_counts() {
    assert_eq!(
        binding_batch_outcomes("A;B;", BatchReply::Ran(vec![Some(1), None])),
        Ok(vec![
            RawOutcome { rows: vec![], changes: 1 },
            RawOutcome { rows: vec![], changes: 0 },
        ])
    );
    assert_eq!(
        binding_batch_outcomes("A;B;", BatchReply::Failed("socket".to_string())),
        Err(TransportError::Lost(D1Error::new("D1 statement failed (A;B;): socket".to_string())))
    );
}

#[test]
fn lost_connections_are_told_from_refusals() {
    assert_eq!(
        into_core_error(TransportError::Lost(D1Error::new("a".to_string()))),
        DriverError::ConnectionLost(D1Error::new("a".to_string()))
    );
    assert_eq!(
        into_core_error(TransportError::Api(D1Error::new("b".to_string()))),
        DriverError::DriverOperationFailed(D1Error::new("b".to_string()))
    );
}

#[test]
fn refusal_tells_the_status() {
    let errors = vec![ApiError { code: 1, message: "x".to_string() }];
    assert_eq!(
        refused("418 I'm a teapot", &errors),
        TransportError::Api(D1Error::new(
            "D1 query failed (HTTP 418 I'm a teapot): 1: x".to_string()
        ))
    );
}
