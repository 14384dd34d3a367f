//! The driver over a Workers binding.

use toasty_driver_d1::binding::JsArg;
use toasty_driver_d1::driver::D1;
use toasty_driver_d1::json::{Json, Number};
use toasty_driver_d1::outcome::{Request, Want};
use toasty_driver_d1::transport::{Batch, BatchCall, Call, Transport};
use wasm_bindgen::{JsCast, JsValue};

/// A driver whose handle is never called.
fn driver() -> D1 {
    D1::from_binding(JsValue::NULL.unchecked_into())
}

#[test]
fn binding_names_no_database() {
    assert_eq!(driver().url(), "d1://binding");
    assert_eq!(
        driver().debug_fields(),
        vec![("source".to_string(), "binding".to_string())]
    );
}

#[test]
fn binding_has_no_origin_to_override() {
    let driver = driver().with_base_url("http://elsewhere".to_string());
    assert_eq!(driver.url(), "d1://binding");
    assert!(matches!(driver.connect().client(), Transport::Binding(_)));
}

#[test]
fn binding_is_asked_for_the_wanted_half() {
    for want in [Want::Rows, Want::Changes] {
        let params = vec![
            Json::Number(Number::Integer(1)),
            Json::String("x".to_string()),
            Json::Array(vec![Json::Number(Number::Integer(2))]),
        ];
        let request = Request { sql: "S".to_string(), params, want };
        match driver().client().clone().raw(request) {
            Call::Binding(call) => {
                assert_eq!(call.sql, "S");
                assert_eq!(
                    call.args,
                    vec![
                        JsArg::Number(Number::Integer(1)),
                        JsArg::Text("x".to_string()),
                        JsArg::Text("[2]".to_string()),
                    ]
                );
                assert_eq!(call.want, want);
            }
            Call::Rest(_) => panic!("not over HTTP"),
        }
    }
}

#[test]
fn binding_prepares_each_statement_of_a_batch() {
    let batch = Batch {
        statements: vec!["A;".to_string(), "B;".to_string()],
        sql: "A;B;".to_string(),
    };
    match driver().client().raw_batch(batch) {
        BatchCall::Binding(statements) => assert_eq!(statements, vec!["A;", "B;"]),
        BatchCall::Rest(_) => panic!("not over HTTP"),
    }
}
