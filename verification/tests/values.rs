//! Values on their way to the database and back.

use toasty_core::stmt;
use toasty_driver_d1::json::{json_to_string, Float, Json, Number};
use toasty_driver_d1::value::{
    document_to_cell, document_to_json, json_array_to_bytes, json_to_value, json_to_value_infer,
    param_to_json, safe_integer, uuid_to_cell, Cell, ColumnType, SqlValue, MAX_SAFE_INTEGER,
};

fn integer(n: i128) -> Json {
    Json::Number(Number::Integer(n))
}

fn text(s: &str) -> Json {
    Json::String(s.to_string())
}

fn double(v: f64) -> Float {
    Float { bits: v.to_bits(), text: format!("{v:?}") }
}

fn decimal(v: f64) -> Json {
    Json::Number(Number::Float(double(v)))
}

/// The double that a cell holds.
fn rounded(cell: Cell) -> f64 {
    match cell {
        Cell::Exact(SqlValue::F64(f)) => f64::from_bits(f.bits),
        Cell::F64(Number::Integer(n)) => n as f64,
        other => panic!("not a double: {other:?}"),
    }
}

fn decode_error(value: &Json, ty: &ColumnType) -> String {
    json_to_value(value, ty).unwrap_err().message().to_string()
}

#[test]
fn params_encode_scalars() {
    assert_eq!(param_to_json(&SqlValue::String("hi".to_string())).unwrap(), text("hi"));
    assert_eq!(param_to_json(&SqlValue::I64(42)).unwrap(), integer(42));
    assert_eq!(param_to_json(&SqlValue::U64(7)).unwrap(), integer(7));
    assert_eq!(param_to_json(&SqlValue::Bool(true)).unwrap(), integer(1));
    assert_eq!(param_to_json(&SqlValue::Bool(false)).unwrap(), integer(0));
    assert_eq!(param_to_json(&SqlValue::Null).unwrap(), Json::Null);
}

#[test]
fn params_encode_small_integers() {
    assert_eq!(param_to_json(&SqlValue::I8(-128)).unwrap(), integer(-128));
    assert_eq!(param_to_json(&SqlValue::I16(-32768)).unwrap(), integer(-32768));
    assert_eq!(param_to_json(&SqlValue::I32(i32::MIN)).unwrap(), integer(-2147483648));
    assert_eq!(param_to_json(&SqlValue::U8(255)).unwrap(), integer(255));
    assert_eq!(param_to_json(&SqlValue::U16(65535)).unwrap(), integer(65535));
    assert_eq!(param_to_json(&SqlValue::U32(u32::MAX)).unwrap(), integer(4294967295));
}

#[test]
fn params_encode_doubles() {
    assert_eq!(param_to_json(&SqlValue::F64(double(2.5))).unwrap(), decimal(2.5));
    assert_eq!(param_to_json(&SqlValue::F32(double(0.5))).unwrap(), decimal(0.5));
    for v in [f64::NAN, f64::INFINITY, f64::NEG_INFINITY] {
        assert_eq!(param_to_json(&SqlValue::F64(double(v))).unwrap(), Json::Null);
    }
    assert_eq!(param_to_json(&SqlValue::F64(double(f64::MAX))).unwrap(), decimal(f64::MAX));
}

#[test]
fn params_reject_integers_beyond_the_safe_range() {
    assert!(param_to_json(&SqlValue::I64(MAX_SAFE_INTEGER)).is_ok());
    assert!(param_to_json(&SqlValue::I64(-MAX_SAFE_INTEGER)).is_ok());

    let err = param_to_json(&SqlValue::I64(i64::MAX)).unwrap_err();
    assert!(err.message().contains("2^53"), "message was: {}", err.message());
    assert!(param_to_json(&SqlValue::I64(MAX_SAFE_INTEGER + 1)).is_err());

    // The wrapped bit pattern is what has to be in range, so the top of the
    // range goes through while the middle does not.
    assert!(param_to_json(&SqlValue::U64(u64::MAX)).is_ok());
    assert!(param_to_json(&SqlValue::U64(1 << 60)).is_err());
}

#[test]
fn rejected_integer_is_named() {
    let err = param_to_json(&SqlValue::I64(i64::MAX)).unwrap_err();
    assert_eq!(
        err.message(),
        "integer 9223372036854775807 exceeds ±2^53, the range D1's JSON API carries without loss of precision"
    );
    let err = param_to_json(&SqlValue::I64(i64::MIN)).unwrap_err();
    assert!(err.message().starts_with("integer -9223372036854775808 exceeds"));
}

#[test]
fn unsigned_integers_are_bound_by_bit_pattern() {
    assert_eq!(param_to_json(&SqlValue::U64(u64::MAX)).unwrap(), integer(-1));
    let lowest_wrapped = u64::MAX - MAX_SAFE_INTEGER as u64 + 1;
    assert_eq!(
        param_to_json(&SqlValue::U64(lowest_wrapped)).unwrap(),
        integer(-(MAX_SAFE_INTEGER as i128))
    );
    assert!(param_to_json(&SqlValue::U64(lowest_wrapped - 1)).is_err());
    assert!(param_to_json(&SqlValue::U64(MAX_SAFE_INTEGER as u64)).is_ok());
    assert!(param_to_json(&SqlValue::U64(MAX_SAFE_INTEGER as u64 + 1)).is_err());
}

#[test]
fn blobs_round_trip_as_byte_arrays() {
    let bytes = SqlValue::Bytes(vec![1, 2, 255]);
    let encoded = param_to_json(&bytes).unwrap();
    assert_eq!(encoded, Json::Array(vec![integer(1), integer(2), integer(255)]));
    assert_eq!(json_to_value(&encoded, &ColumnType::Bytes).unwrap(), Cell::Exact(bytes));
}

#[test]
fn uuids_round_trip_as_blobs() {
    let uuid = uuid::Uuid::parse_str("67e55044-10b1-426f-9247-bb680e5fe0c8").unwrap();
    let encoded = param_to_json(&SqlValue::Uuid(uuid.into_bytes())).unwrap();
    match &encoded {
        Json::Array(items) => assert_eq!(items.len(), 16),
        other => panic!("not an array: {other:?}"),
    }
    assert_eq!(
        json_to_value(&encoded, &ColumnType::Uuid).unwrap(),
        Cell::Exact(SqlValue::Uuid(uuid.into_bytes()))
    );
}

#[test]
fn values_round_trip_under_their_types() {
    let values = [
        (SqlValue::Null, SqlValue::Null, ColumnType::I16),
        (SqlValue::Bool(true), SqlValue::Bool(true), ColumnType::Bool),
        (SqlValue::I8(-1), SqlValue::I8(-1), ColumnType::I8),
        (SqlValue::I16(-300), SqlValue::I16(-300), ColumnType::I16),
        (SqlValue::I32(i32::MAX), SqlValue::I32(i32::MAX), ColumnType::I32),
        (SqlValue::I64(-5), SqlValue::I64(-5), ColumnType::I64),
        (SqlValue::U8(200), SqlValue::U8(200), ColumnType::U8),
        (SqlValue::U16(60000), SqlValue::U16(60000), ColumnType::U16),
        (SqlValue::U32(u32::MAX), SqlValue::U32(u32::MAX), ColumnType::U32),
        (SqlValue::U64(u64::MAX), SqlValue::U64(u64::MAX), ColumnType::U64),
        (SqlValue::F64(double(0.25)), SqlValue::F64(double(0.25)), ColumnType::F64),
        (
            SqlValue::String("it's".to_string()),
            SqlValue::String("it's".to_string()),
            ColumnType::String,
        ),
    ];
    for (value, expected, ty) in values {
        let encoded = param_to_json(&value).unwrap();
        assert_eq!(json_to_value(&encoded, &ty).unwrap(), Cell::Exact(expected));
    }
    let encoded = param_to_json(&SqlValue::F32(double(0.5))).unwrap();
    assert_eq!(
        json_to_value(&encoded, &ColumnType::F32).unwrap(),
        Cell::F32(Number::Float(double(0.5)))
    );
}

#[test]
fn typed_decode_maps_sqlite_storage_classes() {
    assert_eq!(
        json_to_value(&integer(1), &ColumnType::Bool).unwrap(),
        Cell::Exact(SqlValue::Bool(true))
    );
    assert_eq!(
        json_to_value(&integer(0), &ColumnType::Bool).unwrap(),
        Cell::Exact(SqlValue::Bool(false))
    );
    assert_eq!(
        json_to_value(&integer(42), &ColumnType::U64).unwrap(),
        Cell::Exact(SqlValue::U64(42))
    );
    assert_eq!(
        json_to_value(&text("title"), &ColumnType::String).unwrap(),
        Cell::Exact(SqlValue::String("title".to_string()))
    );
    assert_eq!(
        json_to_value(&Json::Null, &ColumnType::String).unwrap(),
        Cell::Exact(SqlValue::Null)
    );
    // Integral floats come back as JSON integers.
    assert_eq!(rounded(json_to_value(&integer(3), &ColumnType::F64).unwrap()), 3.0);
}

#[test]
fn narrow_columns_keep_the_low_bits() {
    assert_eq!(
        json_to_value(&integer(300), &ColumnType::U8).unwrap(),
        Cell::Exact(SqlValue::U8(44))
    );
    assert_eq!(
        json_to_value(&integer(200), &ColumnType::I8).unwrap(),
        Cell::Exact(SqlValue::I8(-56))
    );
    assert_eq!(
        json_to_value(&integer(-1), &ColumnType::U16).unwrap(),
        Cell::Exact(SqlValue::U16(65535))
    );
    assert_eq!(
        json_to_value(&integer(1 << 31), &ColumnType::I32).unwrap(),
        Cell::Exact(SqlValue::I32(i32::MIN))
    );
}

#[test]
fn integer_that_came_back_as_a_float_is_an_error() {
    let lossy = Json::Number(Number::Float(Float {
        bits: 9223372036854776000f64.to_bits(),
        text: "9.223372036854776e18".to_string(),
    }));
    assert_eq!(
        decode_error(&lossy, &ColumnType::I64),
        "cannot decode 9.223372036854776e18 into I64: values beyond ±2^53 come back from D1 as floats and have already lost precision"
    );
    assert_eq!(rounded(json_to_value(&lossy, &ColumnType::F64).unwrap()), 9223372036854776000.0);
}

#[test]
fn decode_errors_name_the_type() {
    assert_eq!(decode_error(&integer(1), &ColumnType::String), "cannot decode integer into String");
    assert_eq!(
        decode_error(&Json::Bool(true), &ColumnType::I64),
        "cannot decode bool into I64"
    );
    assert_eq!(
        decode_error(&Json::Array(vec![integer(1)]), &ColumnType::String),
        "cannot decode blob into String"
    );
    assert_eq!(
        decode_error(&integer(9223372036854775808), &ColumnType::U64),
        "integer out of i64 range: 9223372036854775808"
    );
    assert_eq!(
        decode_error(&Json::Object(vec![("a".to_string(), integer(1))]), &ColumnType::String),
        "unexpected JSON object in result cell: {\"a\":1}"
    );
    assert_eq!(
        decode_error(&integer(1), &ColumnType::List(stmt::Type::I64)),
        "cannot decode integer into List(I64)"
    );
    assert_eq!(
        decode_error(&integer(1), &ColumnType::Other(stmt::Type::Null)),
        "cannot decode integer into Null"
    );
}

#[test]
fn uuids_are_read_from_text_and_blobs() {
    let id = uuid::Uuid::parse_str("67e55044-10b1-426f-9247-bb680e5fe0c8").unwrap();
    assert_eq!(
        json_to_value(&text("67e55044-10b1-426f-9247-bb680e5fe0c8"), &ColumnType::Uuid).unwrap(),
        Cell::Exact(SqlValue::Uuid(id.into_bytes()))
    );
    let parse_error = uuid::Uuid::parse_str("nope").unwrap_err();
    assert_eq!(
        decode_error(&text("nope"), &ColumnType::Uuid),
        format!("invalid uuid: {parse_error}")
    );
    assert_eq!(
        decode_error(&Json::Array(vec![integer(1), integer(2)]), &ColumnType::Uuid),
        "invalid uuid blob: invalid length: expected 16 bytes, found 2"
    );
}

#[test]
fn blob_items_have_to_be_bytes() {
    assert_eq!(json_array_to_bytes(&vec![integer(0), integer(255)]).unwrap(), vec![0, 255]);
    let err = json_array_to_bytes(&vec![integer(1), integer(256), text("x")]).unwrap_err();
    assert_eq!(err.message(), "blob element is not a byte: 256");
    let err = json_array_to_bytes(&vec![text("a\"b")]).unwrap_err();
    assert_eq!(err.message(), "blob element is not a byte: \"a\\\"b\"");
    assert!(json_array_to_bytes(&vec![integer(-1)]).is_err());
}

#[test]
fn documents_are_stored_as_text() {
    let list = stmt::Value::List(vec![stmt::Value::I64(1), stmt::Value::I64(2)]);
    let encoded = param_to_json(&SqlValue::Document(list.clone())).unwrap();
    assert_eq!(encoded, text("[1,2]"));
    assert_eq!(
        json_to_value(&encoded, &ColumnType::List(stmt::Type::I64)).unwrap(),
        Cell::Exact(SqlValue::Document(list))
    );

    let object = stmt::Value::Object(stmt::ValueObject::from_vec(vec![(
        "name".to_string(),
        stmt::Value::String("x".to_string()),
    )]));
    let encoded = param_to_json(&SqlValue::Document(object.clone())).unwrap();
    assert_eq!(encoded, text("{\"name\":\"x\"}"));
    assert_eq!(
        json_to_value(&encoded, &ColumnType::Object).unwrap(),
        Cell::Exact(SqlValue::Document(object))
    );
}

#[test]
fn document_errors_tell_the_cause() {
    let list = stmt::Value::List(vec![stmt::Value::Bytes(vec![1])]);
    let cause = toasty_sql::json::to_string(&list).unwrap_err();
    let err = param_to_json(&SqlValue::Document(list)).unwrap_err();
    assert_eq!(err.message(), format!("serialize document value: {cause}"));

    let cause = toasty_sql::json::list_from_str("[", &stmt::Type::I64).unwrap_err();
    assert_eq!(
        decode_error(&text("["), &ColumnType::List(stmt::Type::I64)),
        format!("decode collection column: {cause}")
    );
    let cause = toasty_sql::json::from_str("{", &stmt::Type::Object).unwrap_err();
    assert_eq!(
        decode_error(&text("{"), &ColumnType::Object),
        format!("decode document column: {cause}")
    );
}

#[test]
fn unsupported_parameters_are_named() {
    let record = stmt::Value::Record(stmt::ValueRecord::from_vec(vec![stmt::Value::I64(1)]));
    let shown = format!("{record:?}");
    let err = param_to_json(&SqlValue::Other(record)).unwrap_err();
    assert_eq!(err.message(), format!("unsupported bind parameter for D1: {shown}"));
}

#[test]
fn infer_decode_uses_json_shape() {
    assert_eq!(json_to_value_infer(&integer(5)), Cell::Exact(SqlValue::I64(5)));
    assert_eq!(rounded(json_to_value_infer(&decimal(2.5))), 2.5);
    assert_eq!(
        json_to_value_infer(&text("x")),
        Cell::Exact(SqlValue::String("x".to_string()))
    );
    assert_eq!(json_to_value_infer(&Json::Null), Cell::Exact(SqlValue::Null));
}

#[test]
fn infer_decode_takes_every_shape() {
    assert_eq!(json_to_value_infer(&Json::Bool(true)), Cell::Exact(SqlValue::Bool(true)));
    assert_eq!(
        json_to_value_infer(&Json::Array(vec![integer(1), integer(2)])),
        Cell::Exact(SqlValue::Bytes(vec![1, 2]))
    );
    assert_eq!(
        json_to_value_infer(&Json::Array(vec![integer(1), text("é\n")])),
        Cell::Exact(SqlValue::String("[1,\"é\\n\"]".to_string()))
    );
    assert_eq!(
        json_to_value_infer(&Json::Object(vec![("k".to_string(), Json::Null)])),
        Cell::Exact(SqlValue::String("{\"k\":null}".to_string()))
    );
    assert_eq!(
        json_to_value_infer(&integer(u64::MAX as i128)),
        Cell::F64(Number::Integer(u64::MAX as i128))
    );
}

#[test]
fn json_text_is_that_of_serde_json() {
    let odd = "quote \" slash \\ tab \t bell \u{7} del \u{7f} ü 𝄞 line\nend\r\u{8}\u{c}";
    assert_eq!(json_to_string(&text(odd)), serde_json::Value::String(odd.to_string()).to_string());
    let nested = Json::Array(vec![
        Json::Null,
        Json::Bool(false),
        decimal(-0.5),
        Json::Object(vec![("a".to_string(), Json::Array(vec![])), ("b".to_string(), integer(-7))]),
    ]);
    assert_eq!(json_to_string(&nested), "[null,false,-0.5,{\"a\":[],\"b\":-7}]");
}

#[test]
fn codec_and_parser_results_are_taken_as_they_come() {
    assert_eq!(document_to_json(Ok("[]".to_string())).unwrap(), text("[]"));
    let err = document_to_json(Err("why".to_string())).unwrap_err();
    assert_eq!(err.message(), "serialize document value: why");

    assert_eq!(uuid_to_cell(Ok([7; 16])).unwrap(), Cell::Exact(SqlValue::Uuid([7; 16])));
    let err = uuid_to_cell(Err("why".to_string())).unwrap_err();
    assert_eq!(err.message(), "invalid uuid: why");

    let value = stmt::Value::List(vec![]);
    assert_eq!(
        document_to_cell("doing: ", Ok(value.clone())).unwrap(),
        Cell::Exact(SqlValue::Document(value))
    );
    let err = document_to_cell("doing: ", Err("why".to_string())).unwrap_err();
    assert_eq!(err.message(), "doing: why");
}

#[test]
fn safe_integers_end_at_two_to_the_53() {
    assert_eq!(MAX_SAFE_INTEGER, 1 << 53);
    assert_eq!(safe_integer(1 << 53).unwrap(), integer(1 << 53));
    assert!(safe_integer((1 << 53) + 1).is_err());
    assert!(safe_integer(-(1 << 53) - 1).is_err());
}

#[test]
fn copies_are_equal() {
    let value = Json::Object(vec![
        ("a".to_string(), Json::Array(vec![integer(1), decimal(0.5), Json::Null])),
        ("b".to_string(), Json::Bool(true)),
        ("c".to_string(), text("x")),
    ]);
    assert_eq!(value.clone(), value);
}
