//! Conversions between column values and the JSON that crosses D1's API.

use vstd::prelude::*;

use crate::error::D1Error;
use crate::json::{
    json_text, json_to_string, json_views, push_number_text, Float, FloatView, Json,
    JsonView, Number, NumberView,
};
use crate::text::{decimal, push_decimal};

verus! {

/// Largest magnitude that D1's JSON transport carries without loss (2^53).
///
/// Beyond this the API answers with a JSON float: `i64::MAX` comes back as
/// 9223372036854776000 and the column's storage class flips to `real`, so the
/// value is silently corrupted. Binding rejects such values instead.
pub const MAX_SAFE_INTEGER: i64 = 9_007_199_254_740_992;

/// Toasty's value type, carried through where only Toasty looks inside.
#[verifier::external_type_specification]
#[verifier::external_body]
pub struct ExCoreValue(toasty_core::stmt::Value);

/// Toasty's column types, carried through where only Toasty looks inside.
#[verifier::external_type_specification]
#[verifier::external_body]
pub struct ExCoreType(toasty_core::stmt::Type);

/// The error of the document codec.
#[verifier::external_type_specification]
#[verifier::external_body]
pub struct ExSerdeJsonError(serde_json::Error);

/// The error of the UUID parser.
#[verifier::external_type_specification]
#[verifier::external_body]
pub struct ExUuidError(uuid::Error);

/// A column value.
#[derive(Debug, PartialEq)]
pub enum SqlValue {
    Null,
    Bool(bool),
    I8(i8),
    I16(i16),
    I32(i32),
    I64(i64),
    U8(u8),
    U16(u16),
    U32(u32),
    U64(u64),
    /// A single, known by the double that equals it.
    F32(Float),
    F64(Float),
    String(String),
    Bytes(Vec<u8>),
    Uuid([u8; 16]),
    /// A list or an object, stored as JSON text.
    Document(toasty_core::stmt::Value),
    /// A value of a kind that D1 cannot store.
    Other(toasty_core::stmt::Value),
}

/// The type that a column's values are to have.
#[derive(Debug, PartialEq)]
pub enum ColumnType {
    Bool,
    String,
    I8,
    I16,
    I32,
    I64,
    U8,
    U16,
    U32,
    U64,
    F32,
    F64,
    Uuid,
    Bytes,
    /// A document with named fields.
    Object,
    /// A list, with the type of its elements.
    List(toasty_core::stmt::Type),
    /// A type that no result cell decodes into, but for text.
    Other(toasty_core::stmt::Type),
}

/// A decoded result cell.
///
/// Rounding to a floating-point type is left to the caller, which gets the
/// number to be rounded.
#[derive(Debug, PartialEq)]
pub enum Cell {
    Exact(SqlValue),
    /// The single nearest to the number.
    F32(Number),
    /// The double nearest to the number.
    F64(Number),
}

/// What a [`SqlValue`] stands for.
#[verifier::ext_equal]
pub enum SqlValueView {
    Null,
    Bool(bool),
    I8(i8),
    I16(i16),
    I32(i32),
    I64(i64),
    U8(u8),
    U16(u16),
    U32(u32),
    U64(u64),
    F32(FloatView),
    F64(FloatView),
    String(Seq<char>),
    Bytes(Seq<u8>),
    Uuid(Seq<u8>),
    Document(toasty_core::stmt::Value),
    Other(toasty_core::stmt::Value),
}

/// What a [`Cell`] stands for.
#[verifier::ext_equal]
pub enum CellView {
    Exact(SqlValueView),
    F32(NumberView),
    F64(NumberView),
}

impl View for SqlValue {
    type V = SqlValueView;

    open spec fn view(&self) -> SqlValueView {
        match self {
            SqlValue::Null => SqlValueView::Null,
            SqlValue::Bool(v) => SqlValueView::Bool(*v),
            SqlValue::I8(v) => SqlValueView::I8(*v),
            SqlValue::I16(v) => SqlValueView::I16(*v),
            SqlValue::I32(v) => SqlValueView::I32(*v),
            SqlValue::I64(v) => SqlValueView::I64(*v),
            SqlValue::U8(v) => SqlValueView::U8(*v),
            SqlValue::U16(v) => SqlValueView::U16(*v),
            SqlValue::U32(v) => SqlValueView::U32(*v),
            SqlValue::U64(v) => SqlValueView::U64(*v),
            SqlValue::F32(v) => SqlValueView::F32(v@),
            SqlValue::F64(v) => SqlValueView::F64(v@),
            SqlValue::String(v) => SqlValueView::String(v@),
            SqlValue::Bytes(v) => SqlValueView::Bytes(v@),
            SqlValue::Uuid(v) => SqlValueView::Uuid(v@),
            SqlValue::Document(v) => SqlValueView::Document(*v),
            SqlValue::Other(v) => SqlValueView::Other(*v),
        }
    }
}

impl View for Cell {
    type V = CellView;

    open spec fn view(&self) -> CellView {
        match self {
            Cell::Exact(v) => CellView::Exact(v@),
            Cell::F32(n) => CellView::F32(n@),
            Cell::F64(n) => CellView::F64(n@),
        }
    }
}

/// The debug text of a column type: what `Debug` writes for a
/// `toasty_core::stmt::Type`.
pub uninterp spec fn core_type_text(ty: toasty_core::stmt::Type) -> Seq<char>;

/// The debug text of a value: what `Debug` writes for a
/// `toasty_core::stmt::Value`.
pub uninterp spec fn core_value_text(value: toasty_core::stmt::Value) -> Seq<char>;

/// The JSON text of a document, or the codec's error: what
/// `toasty_sql::json::to_string` returns.
pub uninterp spec fn document_json(value: toasty_core::stmt::Value) -> Result<
    Seq<char>,
    serde_json::Error,
>;

/// The list that a JSON text holds, or the codec's error: what
/// `toasty_sql::json::list_from_str` returns.
pub uninterp spec fn list_in(text: Seq<char>, elem: toasty_core::stmt::Type) -> Result<
    toasty_core::stmt::Value,
    serde_json::Error,
>;

/// The object that a JSON text holds, or the codec's error: what
/// `toasty_sql::json::from_str` returns for the object type.
pub uninterp spec fn object_in(text: Seq<char>) -> Result<
    toasty_core::stmt::Value,
    serde_json::Error,
>;

/// The message of a document codec's error: what `Display` writes for a
/// `serde_json::Error`.
pub uninterp spec fn codec_message(err: serde_json::Error) -> Seq<char>;

/// The 16 bytes of the UUID that a text denotes, or the parser's error: what
/// `uuid::Uuid`'s `FromStr` returns.
pub uninterp spec fn uuid_in(text: Seq<char>) -> Result<Seq<u8>, uuid::Error>;

/// The message of the UUID parser's error: what `Display` writes for a
/// `uuid::Error`.
pub uninterp spec fn uuid_message(err: uuid::Error) -> Seq<char>;

/// Writes a column type with `Debug`, as `format!("{ty:?}")` does.
#[verifier::external_body]
fn debug_type(ty: &toasty_core::stmt::Type) -> (r: String)
    ensures
        r@ == core_type_text(*ty),
{
    format!("{:?}", ty)
}

/// Writes a value with `Debug`, as `format!("{value:?}")` does.
#[verifier::external_body]
fn debug_value(value: &toasty_core::stmt::Value) -> (r: String)
    ensures
        r@ == core_value_text(*value),
{
    format!("{:?}", value)
}

/// Encodes a document with `toasty_sql::json::to_string`; the result depends
/// on the document alone.
#[verifier::external_body]
fn encode_document(value: &toasty_core::stmt::Value) -> (r: Result<String, serde_json::Error>)
    ensures
        match r {
            Ok(text) => document_json(*value) == Ok::<Seq<char>, serde_json::Error>(text@),
            Err(err) => document_json(*value) == Err::<Seq<char>, serde_json::Error>(err),
        },
{
    toasty_sql::json::to_string(value)
}

/// Decodes a list with `toasty_sql::json::list_from_str`; the result depends
/// on the text and the element type alone.
#[verifier::external_body]
fn decode_list(text: &str, elem: &toasty_core::stmt::Type) -> (r: Result<
    toasty_core::stmt::Value,
    serde_json::Error,
>)
    ensures
        r == list_in(text@, *elem),
{
    toasty_sql::json::list_from_str(text, elem)
}

/// Decodes an object with `toasty_sql::json::from_str`, which is given the
/// object type; the result depends on the text alone.
#[verifier::external_body]
fn decode_object(text: &str) -> (r: Result<toasty_core::stmt::Value, serde_json::Error>)
    ensures
        r == object_in(text@),
{
    toasty_sql::json::from_str(text, &toasty_core::stmt::Type::Object)
}

/// Writes a document codec's error with `Display`.
#[verifier::external_body]
fn display_codec_error(err: &serde_json::Error) -> (r: String)
    ensures
        r@ == codec_message(*err),
{
    err.to_string()
}

/// Parses a UUID with `uuid::Uuid`'s `FromStr`; the result depends on the text
/// alone.
#[verifier::external_body]
fn parse_uuid(text: &str) -> (r: Result<[u8; 16], uuid::Error>)
    ensures
        match r {
            Ok(bytes) => uuid_in(text@) == Ok::<Seq<u8>, uuid::Error>(bytes@),
            Err(err) => uuid_in(text@) == Err::<Seq<u8>, uuid::Error>(err),
        },
{
    text.parse::<uuid::Uuid>().map(|id| id.into_bytes())
}

/// Makes a UUID of a slice with `uuid::Uuid::from_slice`, which takes 16 bytes
/// as they are and rejects any other number of bytes with a message that
/// tells it.
#[verifier::external_body]
fn uuid_from_slice(bytes: &[u8]) -> (r: Result<[u8; 16], uuid::Error>)
    ensures
        match r {
            Ok(id) => bytes@.len() == 16 && id@ == bytes@,
            Err(err) => bytes@.len() != 16 && uuid_message(err)
                == "invalid length: expected 16 bytes, found "@ + decimal(bytes@.len() as int),
        },
{
    uuid::Uuid::from_slice(bytes).map(|id| id.into_bytes())
}

/// Writes a UUID parser's error with `Display`.
#[verifier::external_body]
fn display_uuid_error(err: &uuid::Error) -> (r: String)
    ensures
        r@ == uuid_message(*err),
{
    err.to_string()
}

/// A conversion's result, as the specifications speak of it.
pub open spec fn json_result(r: Result<Json, D1Error>) -> Result<JsonView, Seq<char>> {
    match r {
        Ok(json) => Ok(json@),
        Err(err) => Err(err@),
    }
}

/// A decoded cell or the message of the error.
pub open spec fn cell_result(r: Result<Cell, D1Error>) -> Result<CellView, Seq<char>> {
    match r {
        Ok(cell) => Ok(cell@),
        Err(err) => Err(err@),
    }
}

/// Decoded bytes or the message of the error.
pub open spec fn bytes_result(r: Result<Vec<u8>, D1Error>) -> Result<Seq<u8>, Seq<char>> {
    match r {
        Ok(bytes) => Ok(bytes@),
        Err(err) => Err(err@),
    }
}

/// Whether D1's JSON transport carries the integer without loss.
pub open spec fn is_safe_integer(n: int) -> bool {
    -MAX_SAFE_INTEGER <= n <= MAX_SAFE_INTEGER
}

/// The JSON of an integer.
pub open spec fn integer_json(n: int) -> JsonView {
    JsonView::Number(NumberView::Integer(n))
}

/// The JSON of an integer that may be too large to carry.
pub open spec fn safe_integer_json(n: int) -> Result<JsonView, Seq<char>> {
    if is_safe_integer(n) {
        Ok(integer_json(n))
    } else {
        Err(
            "integer "@ + decimal(n)
                + " exceeds ±2^53, the range D1's JSON API carries without loss of precision"@,
        )
    }
}

/// The integer whose 64-bit two's complement pattern is that of `v`.
pub open spec fn as_signed(v: u64) -> int {
    if v < 0x8000_0000_0000_0000 {
        v as int
    } else {
        v - 0x1_0000_0000_0000_0000
    }
}

/// Whether the double with this bit pattern is a number: its exponent field is
/// not all ones.
pub open spec fn is_finite(f: FloatView) -> bool {
    f.bits % 0x8000_0000_0000_0000 < 0x7ff0_0000_0000_0000
}

/// The JSON of a double. JSON has none for a double that is not finite.
pub open spec fn float_json(f: FloatView) -> JsonView {
    if is_finite(f) {
        JsonView::Number(NumberView::Float(f))
    } else {
        JsonView::Null
    }
}

/// The JSON array that D1 binds as a blob.
pub open spec fn blob_json(bytes: Seq<u8>) -> JsonView {
    JsonView::Array(Seq::new(bytes.len(), |i: int| integer_json(bytes[i] as int)))
}

/// The JSON that binds a document, given its text or the codec's message.
pub open spec fn document_json_of(encoded: Result<Seq<char>, Seq<char>>) -> Result<
    JsonView,
    Seq<char>,
> {
    match encoded {
        Ok(text) => Ok(JsonView::String(text)),
        Err(message) => Err("serialize document value: "@ + message),
    }
}

/// The text of a document, or the codec's message.
pub open spec fn document_text(value: toasty_core::stmt::Value) -> Result<Seq<char>, Seq<char>> {
    match document_json(value) {
        Ok(text) => Ok(text),
        Err(err) => Err(codec_message(err)),
    }
}

/// The JSON that binds a value, or the message that rejects it.
pub open spec fn bound_json(value: SqlValueView) -> Result<JsonView, Seq<char>> {
    match value {
        SqlValueView::Null => Ok(JsonView::Null),
        SqlValueView::Bool(v) => Ok(
            integer_json(
                if v {
                    1
                } else {
                    0
                },
            ),
        ),
        SqlValueView::I8(v) => Ok(integer_json(v as int)),
        SqlValueView::I16(v) => Ok(integer_json(v as int)),
        SqlValueView::I32(v) => Ok(integer_json(v as int)),
        SqlValueView::I64(v) => safe_integer_json(v as int),
        SqlValueView::U8(v) => Ok(integer_json(v as int)),
        SqlValueView::U16(v) => Ok(integer_json(v as int)),
        SqlValueView::U32(v) => Ok(integer_json(v as int)),
        SqlValueView::U64(v) => safe_integer_json(as_signed(v)),
        SqlValueView::F32(f) => Ok(float_json(f)),
        SqlValueView::F64(f) => Ok(float_json(f)),
        SqlValueView::String(s) => Ok(JsonView::String(s)),
        SqlValueView::Bytes(bytes) => Ok(blob_json(bytes)),
        SqlValueView::Uuid(bytes) => Ok(blob_json(bytes)),
        SqlValueView::Document(v) => document_json_of(document_text(v)),
        SqlValueView::Other(v) => Err("unsupported bind parameter for D1: "@ + core_value_text(v)),
    }
}

/// The name of a column type in messages.
pub open spec fn type_text(ty: ColumnType) -> Seq<char> {
    match ty {
        ColumnType::Bool => "Bool"@,
        ColumnType::String => "String"@,
        ColumnType::I8 => "I8"@,
        ColumnType::I16 => "I16"@,
        ColumnType::I32 => "I32"@,
        ColumnType::I64 => "I64"@,
        ColumnType::U8 => "U8"@,
        ColumnType::U16 => "U16"@,
        ColumnType::U32 => "U32"@,
        ColumnType::U64 => "U64"@,
        ColumnType::F32 => "F32"@,
        ColumnType::F64 => "F64"@,
        ColumnType::Uuid => "Uuid"@,
        ColumnType::Bytes => "Bytes"@,
        ColumnType::Object => "Object"@,
        ColumnType::List(elem) => "List("@ + core_type_text(elem) + ")"@,
        ColumnType::Other(other) => core_type_text(other),
    }
}

/// The lowest bits of `n`, as an unsigned number below `modulus`.
pub open spec fn low_bits(n: int, modulus: int) -> int {
    n % modulus
}

/// The lowest bits of `n`, as a two's complement number.
pub open spec fn signed_low_bits(n: int, modulus: int) -> int {
    if n % modulus < modulus / 2 {
        n % modulus
    } else {
        n % modulus - modulus
    }
}

/// The cell that a JSON integer in the 64-bit range decodes into.
pub open spec fn integer_cell(n: int, ty: ColumnType) -> Result<CellView, Seq<char>> {
    match ty {
        ColumnType::Bool => Ok(CellView::Exact(SqlValueView::Bool(n != 0))),
        ColumnType::I8 => Ok(CellView::Exact(SqlValueView::I8(signed_low_bits(n, 0x100) as i8))),
        ColumnType::I16 => Ok(
            CellView::Exact(SqlValueView::I16(signed_low_bits(n, 0x1_0000) as i16)),
        ),
        ColumnType::I32 => Ok(
            CellView::Exact(SqlValueView::I32(signed_low_bits(n, 0x1_0000_0000) as i32)),
        ),
        ColumnType::I64 => Ok(CellView::Exact(SqlValueView::I64(n as i64))),
        ColumnType::U8 => Ok(CellView::Exact(SqlValueView::U8(low_bits(n, 0x100) as u8))),
        ColumnType::U16 => Ok(CellView::Exact(SqlValueView::U16(low_bits(n, 0x1_0000) as u16))),
        ColumnType::U32 => Ok(
            CellView::Exact(SqlValueView::U32(low_bits(n, 0x1_0000_0000) as u32)),
        ),
        ColumnType::U64 => Ok(
            CellView::Exact(SqlValueView::U64(low_bits(n, 0x1_0000_0000_0000_0000) as u64)),
        ),
        // SQLite stores floats that happen to be integral as integers, and D1
        // then answers with JSON integers.
        ColumnType::F32 => Ok(CellView::F32(NumberView::Integer(n))),
        ColumnType::F64 => Ok(CellView::F64(NumberView::Integer(n))),
        _ => Err("cannot decode integer into "@ + type_text(ty)),
    }
}

/// The cell that a JSON number decodes into.
pub open spec fn number_cell(n: NumberView, ty: ColumnType) -> Result<CellView, Seq<char>> {
    match n {
        NumberView::Integer(i) => if i64::MIN <= i <= i64::MAX {
            integer_cell(i, ty)
        } else {
            Err("integer out of i64 range: "@ + decimal(i))
        },
        NumberView::Float(f) => match ty {
            ColumnType::F32 => Ok(CellView::F32(n)),
            ColumnType::F64 => Ok(CellView::Exact(SqlValueView::F64(f))),
            // An integer column that answers with a float holds a value
            // beyond what D1's JSON API can represent.
            _ => Err(
                "cannot decode "@ + f.text + " into "@ + type_text(ty)
                    + ": values beyond ±2^53 come back from D1 as floats and have already lost precision"@,
            ),
        },
    }
}

/// The cell of a UUID that was parsed, or the parser's message.
pub open spec fn uuid_cell(parsed: Result<Seq<u8>, Seq<char>>) -> Result<CellView, Seq<char>> {
    match parsed {
        Ok(bytes) => Ok(CellView::Exact(SqlValueView::Uuid(bytes))),
        Err(message) => Err("invalid uuid: "@ + message),
    }
}

/// The cell of a list or an object that was decoded, or the codec's message
/// behind what was being done.
pub open spec fn document_cell(
    doing: Seq<char>,
    decoded: Result<toasty_core::stmt::Value, Seq<char>>,
) -> Result<CellView, Seq<char>> {
    match decoded {
        Ok(document) => Ok(CellView::Exact(SqlValueView::Document(document))),
        Err(message) => Err(doing + message),
    }
}

/// The UUID that a text denotes, or the parser's message.
pub open spec fn uuid_of(text: Seq<char>) -> Result<Seq<u8>, Seq<char>> {
    match uuid_in(text) {
        Ok(bytes) => Ok(bytes),
        Err(err) => Err(uuid_message(err)),
    }
}

/// What the codec decoded, or its message.
pub open spec fn decoded_document(
    decoded: Result<toasty_core::stmt::Value, serde_json::Error>,
) -> Result<toasty_core::stmt::Value, Seq<char>> {
    match decoded {
        Ok(document) => Ok(document),
        Err(err) => Err(codec_message(err)),
    }
}

/// The cell that a JSON string decodes into.
pub open spec fn string_cell(text: Seq<char>, ty: ColumnType) -> Result<CellView, Seq<char>> {
    match ty {
        ColumnType::Uuid => uuid_cell(uuid_of(text)),
        ColumnType::List(elem) => document_cell(
            "decode collection column: "@,
            decoded_document(list_in(text, elem)),
        ),
        ColumnType::Object => document_cell(
            "decode document column: "@,
            decoded_document(object_in(text)),
        ),
        _ => Ok(CellView::Exact(SqlValueView::String(text))),
    }
}

/// Whether a JSON value is an integer that fits in a byte.
pub open spec fn is_byte(json: JsonView) -> bool {
    json matches JsonView::Number(NumberView::Integer(n)) && 0 <= n < 256
}

/// The byte that a JSON value is.
pub open spec fn byte_of(json: JsonView) -> u8 {
    json->Number_0->Integer_0 as u8
}

/// Whether the item at `at` is the first that is not a byte.
pub open spec fn first_non_byte(items: Seq<JsonView>, at: int) -> bool {
    &&& 0 <= at < items.len()
    &&& !is_byte(items[at])
    &&& forall|i: int| 0 <= i < at ==> is_byte(#[trigger] items[i])
}

/// The bytes that a JSON array holds, or the message that names the first item
/// that is not a byte.
pub open spec fn bytes_in(items: Seq<JsonView>) -> Result<Seq<u8>, Seq<char>> {
    if forall|i: int| 0 <= i < items.len() ==> is_byte(#[trigger] items[i]) {
        Ok(Seq::new(items.len(), |i: int| byte_of(items[i])))
    } else {
        Err(
            "blob element is not a byte: "@ + json_text(
                items[choose|at: int| first_non_byte(items, at)],
            ),
        )
    }
}

/// The cell that a JSON array decodes into.
pub open spec fn blob_cell(items: Seq<JsonView>, ty: ColumnType) -> Result<CellView, Seq<char>> {
    match bytes_in(items) {
        Err(message) => Err(message),
        Ok(bytes) => match ty {
            ColumnType::Bytes => Ok(CellView::Exact(SqlValueView::Bytes(bytes))),
            ColumnType::Uuid => if bytes.len() == 16 {
                Ok(CellView::Exact(SqlValueView::Uuid(bytes)))
            } else {
                Err(
                    "invalid uuid blob: "@ + ("invalid length: expected 16 bytes, found "@
                        + decimal(bytes.len() as int)),
                )
            },
            _ => Err("cannot decode blob into "@ + type_text(ty)),
        },
    }
}

/// The cell that a result's JSON decodes into under a declared type, or the
/// message of the error.
pub open spec fn decoded_cell(json: JsonView, ty: ColumnType) -> Result<CellView, Seq<char>> {
    match json {
        JsonView::Null => Ok(CellView::Exact(SqlValueView::Null)),
        JsonView::Number(n) => number_cell(n, ty),
        JsonView::String(text) => string_cell(text, ty),
        JsonView::Bool(v) => match ty {
            ColumnType::Bool => Ok(CellView::Exact(SqlValueView::Bool(v))),
            _ => Err("cannot decode bool into "@ + type_text(ty)),
        },
        JsonView::Array(items) => blob_cell(items, ty),
        JsonView::Object(_) => Err("unexpected JSON object in result cell: "@ + json_text(json)),
    }
}

/// The cell that a result's JSON decodes into when no type was declared.
pub open spec fn inferred_cell(json: JsonView) -> CellView {
    match json {
        JsonView::Null => CellView::Exact(SqlValueView::Null),
        JsonView::Number(NumberView::Integer(n)) => if i64::MIN <= n <= i64::MAX {
            CellView::Exact(SqlValueView::I64(n as i64))
        } else {
            CellView::F64(NumberView::Integer(n))
        },
        JsonView::Number(NumberView::Float(f)) => CellView::Exact(SqlValueView::F64(f)),
        JsonView::String(text) => CellView::Exact(SqlValueView::String(text)),
        JsonView::Array(items) => match bytes_in(items) {
            Ok(bytes) => CellView::Exact(SqlValueView::Bytes(bytes)),
            Err(_) => CellView::Exact(SqlValueView::String(json_text(json))),
        },
        JsonView::Bool(v) => CellView::Exact(SqlValueView::Bool(v)),
        JsonView::Object(_) => CellView::Exact(SqlValueView::String(json_text(json))),
    }
}

/// An error whose message is `prefix` and then `detail`.
pub fn error_with(prefix: &str, detail: &str) -> (r: D1Error)
    ensures
        r@ == prefix@ + detail@,
{
    let mut message = prefix.to_string();
    message.append(detail);
    D1Error::new(message)
}

/// The JSON of an integer, unless D1's JSON API would corrupt it.
pub fn safe_integer(v: i64) -> (r: Result<Json, D1Error>)
    ensures
        json_result(r) == safe_integer_json(v as int),
{
    if v > MAX_SAFE_INTEGER || v < -MAX_SAFE_INTEGER {
        let mut message = "integer ".to_string();
        push_decimal(&mut message, v as i128);
        message.append(
            " exceeds ±2^53, the range D1's JSON API carries without loss of precision",
        );
        return Err(D1Error::new(message));
    }
    Ok(Json::Number(Number::Integer(v as i128)))
}

/// The JSON of a double.
fn float_to_json(f: &Float) -> (r: Json)
    ensures
        r@ == float_json(f@),
{
    let magnitude: u64 = f.bits % 0x8000_0000_0000_0000;
    if magnitude < 0x7ff0_0000_0000_0000 {
        Json::Number(Number::Float(f.clone()))
    } else {
        Json::Null
    }
}

/// The JSON array that D1 binds as a blob.
fn bytes_to_json(bytes: &[u8]) -> (r: Json)
    ensures
        r@ == blob_json(bytes@),
{
    let mut items: Vec<Json> = Vec::new();
    let mut i: usize = 0;
    while i < bytes.len()
        invariant
            i == items@.len(),
            i <= bytes@.len(),
            forall|k: int| 0 <= k < i ==> (#[trigger] items@[k])@ == integer_json(bytes@[k] as int),
        decreases bytes@.len() - i,
    {
        items.push(Json::Number(Number::Integer(bytes[i] as i128)));
        i += 1;
    }
    let json = Json::Array(items);
    assert(json@->Array_0 =~= blob_json(bytes@)->Array_0);
    json
}

/// A text, as the specifications speak of it.
pub open spec fn text_result(r: Result<String, String>) -> Result<Seq<char>, Seq<char>> {
    match r {
        Ok(text) => Ok(text@),
        Err(message) => Err(message@),
    }
}

/// The JSON that binds a document, given its text or the codec's message.
pub fn document_to_json(encoded: Result<String, String>) -> (r: Result<Json, D1Error>)
    ensures
        json_result(r) == document_json_of(text_result(encoded)),
{
    match encoded {
        Ok(text) => Ok(Json::String(text)),
        Err(message) => Err(error_with("serialize document value: ", message.as_str())),
    }
}

/// A UUID, as the specifications speak of it.
pub open spec fn uuid_result(r: Result<[u8; 16], String>) -> Result<Seq<u8>, Seq<char>> {
    match r {
        Ok(bytes) => Ok(bytes@),
        Err(message) => Err(message@),
    }
}

/// The cell of a UUID that was parsed, or the parser's message.
pub fn uuid_to_cell(parsed: Result<[u8; 16], String>) -> (r: Result<Cell, D1Error>)
    ensures
        cell_result(r) == uuid_cell(uuid_result(parsed)),
{
    match parsed {
        Ok(bytes) => Ok(Cell::Exact(SqlValue::Uuid(bytes))),
        Err(message) => Err(error_with("invalid uuid: ", message.as_str())),
    }
}

/// A document, as the specifications speak of it.
pub open spec fn document_result(r: Result<toasty_core::stmt::Value, String>) -> Result<
    toasty_core::stmt::Value,
    Seq<char>,
> {
    match r {
        Ok(document) => Ok(document),
        Err(message) => Err(message@),
    }
}

/// The cell of a list or an object that was decoded, or the codec's message
/// behind what was being done.
pub fn document_to_cell(doing: &str, decoded: Result<toasty_core::stmt::Value, String>) -> (r:
    Result<Cell, D1Error>)
    ensures
        cell_result(r) == document_cell(doing@, document_result(decoded)),
{
    match decoded {
        Ok(document) => Ok(Cell::Exact(SqlValue::Document(document))),
        Err(message) => Err(error_with(doing, message.as_str())),
    }
}

/// What the codec decoded, or its message.
fn with_codec_message(decoded: Result<toasty_core::stmt::Value, serde_json::Error>) -> (r: Result<
    toasty_core::stmt::Value,
    String,
>)
    ensures
        document_result(r) == decoded_document(decoded),
{
    match decoded {
        Ok(document) => Ok(document),
        Err(err) => Err(display_codec_error(&err)),
    }
}

/// Encodes a bind parameter.
///
/// Blobs cross as JSON arrays of byte values; over the HTTP API D1 binds such
/// an array as a real BLOB and returns it in the same shape. Unsigned 64-bit integers wrap
/// into signed ones, as SQLite has no unsigned integer type; decoding casts the
/// bit pattern back.
pub fn param_to_json(value: &SqlValue) -> (r: Result<Json, D1Error>)
    ensures
        json_result(r) == bound_json(value@),
{
    match value {
        SqlValue::Null => Ok(Json::Null),
        SqlValue::Bool(v) => Ok(
            Json::Number(
                Number::Integer(
                    if *v {
                        1
                    } else {
                        0
                    },
                ),
            ),
        ),
        SqlValue::I8(v) => Ok(Json::Number(Number::Integer(*v as i128))),
        SqlValue::I16(v) => Ok(Json::Number(Number::Integer(*v as i128))),
        SqlValue::I32(v) => Ok(Json::Number(Number::Integer(*v as i128))),
        SqlValue::I64(v) => safe_integer(*v),
        SqlValue::U8(v) => Ok(Json::Number(Number::Integer(*v as i128))),
        SqlValue::U16(v) => Ok(Json::Number(Number::Integer(*v as i128))),
        SqlValue::U32(v) => Ok(Json::Number(Number::Integer(*v as i128))),
        SqlValue::U64(v) => {
            let v: u64 = *v;
            assert(v < 0x8000_0000_0000_0000 ==> (v as i64) == v) by (bit_vector);
            assert(v >= 0x8000_0000_0000_0000 ==> (v as i64) == v - 0x1_0000_0000_0000_0000)
                by (bit_vector);
            safe_integer(v as i64)
        },
        SqlValue::F32(f) => Ok(float_to_json(f)),
        SqlValue::F64(f) => Ok(float_to_json(f)),
        SqlValue::String(v) => Ok(Json::String(v.clone())),
        SqlValue::Bytes(v) => Ok(bytes_to_json(v.as_slice())),
        SqlValue::Uuid(v) => Ok(bytes_to_json(v.as_slice())),
        SqlValue::Document(v) => document_to_json(
            match encode_document(v) {
                Ok(text) => Ok(text),
                Err(err) => Err(display_codec_error(&err)),
            },
        ),
        SqlValue::Other(v) => {
            let text = debug_value(v);
            Err(error_with("unsupported bind parameter for D1: ", text.as_str()))
        },
    }
}

/// The name of a column type in messages.
fn type_to_string(ty: &ColumnType) -> (r: String)
    ensures
        r@ == type_text(*ty),
{
    match ty {
        ColumnType::Bool => "Bool".to_string(),
        ColumnType::String => "String".to_string(),
        ColumnType::I8 => "I8".to_string(),
        ColumnType::I16 => "I16".to_string(),
        ColumnType::I32 => "I32".to_string(),
        ColumnType::I64 => "I64".to_string(),
        ColumnType::U8 => "U8".to_string(),
        ColumnType::U16 => "U16".to_string(),
        ColumnType::U32 => "U32".to_string(),
        ColumnType::U64 => "U64".to_string(),
        ColumnType::F32 => "F32".to_string(),
        ColumnType::F64 => "F64".to_string(),
        ColumnType::Uuid => "Uuid".to_string(),
        ColumnType::Bytes => "Bytes".to_string(),
        ColumnType::Object => "Object".to_string(),
        ColumnType::List(elem) => {
            let mut text = "List(".to_string();
            let inner = debug_type(elem);
            text.append(inner.as_str());
            text.append(")");
            text
        },
        ColumnType::Other(other) => debug_type(other),
    }
}

/// Decodes a JSON integer in the 64-bit range.
fn integer_to_cell(v: i64, ty: &ColumnType) -> (r: Result<Cell, D1Error>)
    ensures
        cell_result(r) == integer_cell(v as int, *ty),
{
    assert(v as u8 == v % 0x100) by (bit_vector);
    assert(v as u16 == v % 0x1_0000) by (bit_vector);
    assert(v as u32 == v % 0x1_0000_0000) by (bit_vector);
    assert(v >= 0 ==> (v as u64) == v) by (bit_vector);
    assert(v < 0 ==> (v as u64) == v + 0x1_0000_0000_0000_0000) by (bit_vector);
    assert((v as u8) < 0x80 ==> (v as i8) == (v as u8)) by (bit_vector);
    assert((v as u8) >= 0x80 ==> (v as i8) == (v as u8) - 0x100) by (bit_vector);
    assert((v as u16) < 0x8000 ==> (v as i16) == (v as u16)) by (bit_vector);
    assert((v as u16) >= 0x8000 ==> (v as i16) == (v as u16) - 0x1_0000) by (bit_vector);
    assert((v as u32) < 0x8000_0000 ==> (v as i32) == (v as u32)) by (bit_vector);
    assert((v as u32) >= 0x8000_0000 ==> (v as i32) == (v as u32) - 0x1_0000_0000) by (bit_vector);
    match ty {
        ColumnType::Bool => Ok(Cell::Exact(SqlValue::Bool(v != 0))),
        ColumnType::I8 => Ok(Cell::Exact(SqlValue::I8(v as i8))),
        ColumnType::I16 => Ok(Cell::Exact(SqlValue::I16(v as i16))),
        ColumnType::I32 => Ok(Cell::Exact(SqlValue::I32(v as i32))),
        ColumnType::I64 => Ok(Cell::Exact(SqlValue::I64(v))),
        ColumnType::U8 => Ok(Cell::Exact(SqlValue::U8(v as u8))),
        ColumnType::U16 => Ok(Cell::Exact(SqlValue::U16(v as u16))),
        ColumnType::U32 => Ok(Cell::Exact(SqlValue::U32(v as u32))),
        ColumnType::U64 => Ok(Cell::Exact(SqlValue::U64(v as u64))),
        ColumnType::F32 => Ok(Cell::F32(Number::Integer(v as i128))),
        ColumnType::F64 => Ok(Cell::F64(Number::Integer(v as i128))),
        _ => {
            let name = type_to_string(ty);
            Err(error_with("cannot decode integer into ", name.as_str()))
        },
    }
}

/// Decodes a JSON number.
fn number_to_cell(n: &Number, ty: &ColumnType) -> (r: Result<Cell, D1Error>)
    ensures
        cell_result(r) == number_cell(n@, *ty),
{
    match n {
        Number::Integer(i) => {
            if i64::MIN as i128 <= *i && *i <= i64::MAX as i128 {
                integer_to_cell(*i as i64, ty)
            } else {
                let mut message = "integer out of i64 range: ".to_string();
                push_decimal(&mut message, *i);
                Err(D1Error::new(message))
            }
        },
        Number::Float(f) => match ty {
            ColumnType::F32 => Ok(Cell::F32(n.clone())),
            ColumnType::F64 => Ok(Cell::Exact(SqlValue::F64(f.clone()))),
            _ => {
                let mut message = "cannot decode ".to_string();
                push_number_text(&mut message, n);
                message.append(" into ");
                let name = type_to_string(ty);
                message.append(name.as_str());
                message.append(
                    ": values beyond ±2^53 come back from D1 as floats and have already lost precision",
                );
                Err(D1Error::new(message))
            },
        },
    }
}

/// Decodes a JSON string.
fn string_to_cell(text: &String, ty: &ColumnType) -> (r: Result<Cell, D1Error>)
    ensures
        cell_result(r) == string_cell(text@, *ty),
{
    match ty {
        ColumnType::Uuid => uuid_to_cell(
            match parse_uuid(text.as_str()) {
                Ok(bytes) => Ok(bytes),
                Err(err) => Err(display_uuid_error(&err)),
            },
        ),
        ColumnType::List(elem) => document_to_cell(
            "decode collection column: ",
            with_codec_message(decode_list(text.as_str(), elem)),
        ),
        ColumnType::Object => document_to_cell(
            "decode document column: ",
            with_codec_message(decode_object(text.as_str())),
        ),
        _ => Ok(Cell::Exact(SqlValue::String(text.clone()))),
    }
}

/// The bytes that a JSON array holds.
pub fn json_array_to_bytes(items: &Vec<Json>) -> (r: Result<Vec<u8>, D1Error>)
    ensures
        bytes_result(r) == bytes_in(json_views(items@)),
{
    let ghost views = json_views(items@);
    let mut bytes: Vec<u8> = Vec::new();
    let mut i: usize = 0;
    while i < items.len()
        invariant
            i == bytes@.len(),
            i <= items@.len(),
            views == json_views(items@),
            forall|k: int| 0 <= k < i ==> is_byte(#[trigger] views[k]),
            forall|k: int| 0 <= k < i ==> #[trigger] bytes@[k] == byte_of(views[k]),
        decreases items@.len() - i,
    {
        let byte: Option<u8> = match &items[i] {
            Json::Number(Number::Integer(n)) => if 0 <= *n && *n < 256 {
                Some(*n as u8)
            } else {
                None
            },
            _ => None,
        };
        assert(views[i as int] == items@[i as int]@);
        match byte {
            Some(byte) => bytes.push(byte),
            None => {
                let text = json_to_string(&items[i]);
                proof {
                    assert(first_non_byte(views, i as int));
                    let at = choose|at: int| first_non_byte(views, at);
                    assert(at == i);
                }
                return Err(error_with("blob element is not a byte: ", text.as_str()));
            },
        }
        i += 1;
    }
    assert(bytes@ =~= Seq::new(views.len(), |k: int| byte_of(views[k])));
    Ok(bytes)
}

/// Decodes a result cell according to the type that the query plan expects,
/// mirroring the SQLite driver's mapping of SQLite storage classes.
pub fn json_to_value(value: &Json, ty: &ColumnType) -> (r: Result<Cell, D1Error>)
    ensures
        cell_result(r) == decoded_cell(value@, *ty),
{
    match value {
        Json::Null => Ok(Cell::Exact(SqlValue::Null)),
        Json::Number(n) => number_to_cell(n, ty),
        Json::String(text) => string_to_cell(text, ty),
        Json::Bool(v) => match ty {
            ColumnType::Bool => Ok(Cell::Exact(SqlValue::Bool(*v))),
            _ => {
                let name = type_to_string(ty);
                Err(error_with("cannot decode bool into ", name.as_str()))
            },
        },
        Json::Array(items) => {
            assert(value@->Array_0 =~= json_views(items@));
            match json_array_to_bytes(items) {
                Err(err) => Err(err),
                Ok(bytes) => match ty {
                    ColumnType::Bytes => Ok(Cell::Exact(SqlValue::Bytes(bytes))),
                    ColumnType::Uuid => match uuid_from_slice(bytes.as_slice()) {
                        Ok(id) => Ok(Cell::Exact(SqlValue::Uuid(id))),
                        Err(err) => {
                            let message = display_uuid_error(&err);
                            Err(error_with("invalid uuid blob: ", message.as_str()))
                        },
                    },
                    _ => {
                        let name = type_to_string(ty);
                        Err(error_with("cannot decode blob into ", name.as_str()))
                    },
                },
            }
        },
        Json::Object(_) => {
            let text = json_to_string(value);
            Err(error_with("unexpected JSON object in result cell: ", text.as_str()))
        },
    }
}

/// Decodes a result cell when the plan declared no types.
pub fn json_to_value_infer(value: &Json) -> (r: Cell)
    ensures
        r@ == inferred_cell(value@),
{
    match value {
        Json::Null => Cell::Exact(SqlValue::Null),
        Json::Number(Number::Integer(n)) => if i64::MIN as i128 <= *n && *n <= i64::MAX as i128 {
            Cell::Exact(SqlValue::I64(*n as i64))
        } else {
            Cell::F64(Number::Integer(*n))
        },
        Json::Number(Number::Float(f)) => Cell::Exact(SqlValue::F64(f.clone())),
        Json::String(text) => Cell::Exact(SqlValue::String(text.clone())),
        Json::Array(items) => {
            assert(value@->Array_0 =~= json_views(items@));
            match json_array_to_bytes(items) {
                Ok(bytes) => Cell::Exact(SqlValue::Bytes(bytes)),
                Err(_) => Cell::Exact(SqlValue::String(json_to_string(value))),
            }
        },
        Json::Bool(v) => Cell::Exact(SqlValue::Bool(*v)),
        Json::Object(_) => Cell::Exact(SqlValue::String(json_to_string(value))),
    }
}

/// Whether a value is one of a column of this type. Null is one of every
/// column. Documents are left out: what the codec makes of them is its own.
pub open spec fn belongs_to(value: SqlValueView, ty: ColumnType) -> bool {
    match value {
        SqlValueView::Null => true,
        SqlValueView::Bool(_) => ty is Bool,
        SqlValueView::I8(_) => ty is I8,
        SqlValueView::I16(_) => ty is I16,
        SqlValueView::I32(_) => ty is I32,
        SqlValueView::I64(_) => ty is I64,
        SqlValueView::U8(_) => ty is U8,
        SqlValueView::U16(_) => ty is U16,
        SqlValueView::U32(_) => ty is U32,
        SqlValueView::U64(_) => ty is U64,
        SqlValueView::F32(_) => ty is F32,
        SqlValueView::F64(_) => ty is F64,
        SqlValueView::String(_) => ty is String,
        SqlValueView::Bytes(_) => ty is Bytes,
        SqlValueView::Uuid(bytes) => ty is Uuid && bytes.len() == 16,
        SqlValueView::Document(_) => false,
        SqlValueView::Other(_) => false,
    }
}

/// The cell that comes back of a value. JSON has nothing for a double that is
/// not finite, so null comes back of it.
pub open spec fn cell_of(value: SqlValueView) -> CellView {
    match value {
        SqlValueView::F32(f) => if is_finite(f) {
            CellView::F32(NumberView::Float(f))
        } else {
            CellView::Exact(SqlValueView::Null)
        },
        SqlValueView::F64(f) => if is_finite(f) {
            CellView::Exact(value)
        } else {
            CellView::Exact(SqlValueView::Null)
        },
        _ => CellView::Exact(value),
    }
}

/// The bytes of a blob come back as they were.
proof fn lemma_blob_reads_back(bytes: Seq<u8>)
    ensures
        bytes_in(blob_json(bytes)->Array_0) == Ok::<Seq<u8>, Seq<char>>(bytes),
{
    let items = blob_json(bytes)->Array_0;
    assert forall|i: int| 0 <= i < items.len() implies is_byte(#[trigger] items[i]) by {}
    assert(Seq::new(items.len(), |i: int| byte_of(items[i])) =~= bytes);
}

/// A value that can be bound is the same value when it is read back from a
/// column of its type. For blobs and UUIDs this is so over the HTTP API only:
/// the Workers binding binds no arrays.
pub proof fn bound_value_reads_back(value: SqlValueView, ty: ColumnType)
    requires
        belongs_to(value, ty),
        bound_json(value) is Ok,
    ensures
        decoded_cell(bound_json(value)->Ok_0, ty) == Ok::<CellView, Seq<char>>(cell_of(value)),
{
    match value {
        SqlValueView::Bytes(bytes) => lemma_blob_reads_back(bytes),
        SqlValueView::Uuid(bytes) => lemma_blob_reads_back(bytes),
        _ => {},
    }
}

/// A list or an object comes back as it was wherever the codec reads what it
/// wrote.
pub proof fn bound_document_reads_back(
    document: toasty_core::stmt::Value,
    text: Seq<char>,
    ty: ColumnType,
)
    requires
        document_json(document) == Ok::<Seq<char>, serde_json::Error>(text),
        match ty {
            ColumnType::List(elem) => list_in(text, elem) == Ok::<
                toasty_core::stmt::Value,
                serde_json::Error,
            >(document),
            ColumnType::Object => object_in(text) == Ok::<
                toasty_core::stmt::Value,
                serde_json::Error,
            >(document),
            _ => false,
        },
    ensures
        bound_json(SqlValueView::Document(document)) is Ok,
        decoded_cell(bound_json(SqlValueView::Document(document))->Ok_0, ty) == Ok::<
            CellView,
            Seq<char>,
        >(CellView::Exact(SqlValueView::Document(document))),
{
}

/// Texts, signed integers, finite doubles, null and, over the HTTP API, blobs
/// keep their values even where no type was declared for the column.
pub proof fn bound_value_reads_back_untyped(value: SqlValueView)
    requires
        match value {
            SqlValueView::Null => true,
            SqlValueView::I64(_) => bound_json(value) is Ok,
            SqlValueView::F64(f) => is_finite(f),
            SqlValueView::String(_) => true,
            SqlValueView::Bytes(_) => true,
            _ => false,
        },
    ensures
        inferred_cell(bound_json(value)->Ok_0) == CellView::Exact(value),
{
    match value {
        SqlValueView::Bytes(bytes) => lemma_blob_reads_back(bytes),
        _ => {},
    }
}

/// No integer is ever sent that the transport would corrupt.
pub proof fn only_safe_integers_are_sent(value: SqlValueView, n: int)
    requires
        bound_json(value) == Ok::<JsonView, Seq<char>>(integer_json(n)),
    ensures
        is_safe_integer(n),
{
}

/// A signed integer can be bound exactly if its magnitude is at most 2^53.
pub proof fn signed_integers_bound(v: i64)
    ensures
        bound_json(SqlValueView::I64(v)) is Ok <==> -0x20_0000_0000_0000 <= v
            <= 0x20_0000_0000_0000,
{
}

/// An unsigned integer goes by its bit pattern: it can be bound exactly if it
/// is among the lowest or the highest 2^53.
pub proof fn unsigned_integers_bound(v: u64)
    ensures
        bound_json(SqlValueView::U64(v)) is Ok <==> v <= 0x20_0000_0000_0000 || v
            >= 0xffe0_0000_0000_0000,
{
}

/// An integer that has already lost precision is never passed on: an integer
/// column that answers with a float is an error.
pub proof fn lost_precision_is_an_error(f: FloatView, ty: ColumnType)
    requires
        ty is I8 || ty is I16 || ty is I32 || ty is I64 || ty is U8 || ty is U16 || ty is U32
            || ty is U64,
    ensures
        decoded_cell(JsonView::Number(NumberView::Float(f)), ty) is Err,
{
}

/// A value stands for itself, whatever its kind.
pub proof fn value_stands_for_itself(value: SqlValue)
    ensures
        match value {
            SqlValue::Null => value@ == SqlValueView::Null,
            SqlValue::Bool(v) => value@ == SqlValueView::Bool(v),
            SqlValue::I8(v) => value@ == SqlValueView::I8(v),
            SqlValue::I16(v) => value@ == SqlValueView::I16(v),
            SqlValue::I32(v) => value@ == SqlValueView::I32(v),
            SqlValue::I64(v) => value@ == SqlValueView::I64(v),
            SqlValue::U8(v) => value@ == SqlValueView::U8(v),
            SqlValue::U16(v) => value@ == SqlValueView::U16(v),
            SqlValue::U32(v) => value@ == SqlValueView::U32(v),
            SqlValue::U64(v) => value@ == SqlValueView::U64(v),
            SqlValue::F32(v) => value@ == SqlValueView::F32(v@),
            SqlValue::F64(v) => value@ == SqlValueView::F64(v@),
            SqlValue::String(v) => value@ == SqlValueView::String(v@),
            SqlValue::Bytes(v) => value@ == SqlValueView::Bytes(v@),
            SqlValue::Uuid(v) => value@ == SqlValueView::Uuid(v@),
            SqlValue::Document(v) => value@ == SqlValueView::Document(v),
            SqlValue::Other(v) => value@ == SqlValueView::Other(v),
        },
{
}

/// A cell stands for itself, and so do the results of the conversions.
pub proof fn cell_stands_for_itself(
    value: SqlValue,
    n: Number,
    cell: Cell,
    json: Json,
    bytes: Vec<u8>,
    err: D1Error,
)
    ensures
        Cell::Exact(value)@ == CellView::Exact(value@),
        Cell::F32(n)@ == CellView::F32(n@),
        Cell::F64(n)@ == CellView::F64(n@),
        cell_result(Ok(cell)) == Ok::<CellView, Seq<char>>(cell@),
        cell_result(Err(err)) == Err::<CellView, Seq<char>>(err@),
        json_result(Ok(json)) == Ok::<JsonView, Seq<char>>(json@),
        json_result(Err(err)) == Err::<JsonView, Seq<char>>(err@),
        bytes_result(Ok(bytes)) == Ok::<Seq<u8>, Seq<char>>(bytes@),
        bytes_result(Err(err)) == Err::<Seq<u8>, Seq<char>>(err@),
{
}

/// What the codec and the parser gave stands for itself.
pub proof fn outside_result_stands_for_itself(
    text: String,
    bytes: [u8; 16],
    document: toasty_core::stmt::Value,
    message: String,
)
    ensures
        text_result(Ok(text)) == Ok::<Seq<char>, Seq<char>>(text@),
        text_result(Err(message)) == Err::<Seq<char>, Seq<char>>(message@),
        uuid_result(Ok(bytes)) == Ok::<Seq<u8>, Seq<char>>(bytes@),
        uuid_result(Err(message)) == Err::<Seq<u8>, Seq<char>>(message@),
        document_result(Ok(document)) == Ok::<toasty_core::stmt::Value, Seq<char>>(document),
        document_result(Err(message)) == Err::<toasty_core::stmt::Value, Seq<char>>(message@),
{
}

/// The integer that is bound for an integer of at most 32 bits is that
/// integer. For a truth value it is one or zero.
pub proof fn small_integers_are_bound_as_they_are(
    a: i8,
    b: i16,
    c: i32,
    d: u8,
    e: u16,
    f: u32,
    flag: bool,
)
    ensures
        bound_json(SqlValueView::I8(a)) == Ok::<JsonView, Seq<char>>(
            JsonView::Number(NumberView::Integer(a as int)),
        ),
        bound_json(SqlValueView::I16(b)) == Ok::<JsonView, Seq<char>>(
            JsonView::Number(NumberView::Integer(b as int)),
        ),
        bound_json(SqlValueView::I32(c)) == Ok::<JsonView, Seq<char>>(
            JsonView::Number(NumberView::Integer(c as int)),
        ),
        bound_json(SqlValueView::U8(d)) == Ok::<JsonView, Seq<char>>(
            JsonView::Number(NumberView::Integer(d as int)),
        ),
        bound_json(SqlValueView::U16(e)) == Ok::<JsonView, Seq<char>>(
            JsonView::Number(NumberView::Integer(e as int)),
        ),
        bound_json(SqlValueView::U32(f)) == Ok::<JsonView, Seq<char>>(
            JsonView::Number(NumberView::Integer(f as int)),
        ),
        bound_json(SqlValueView::Bool(flag)) == Ok::<JsonView, Seq<char>>(
            JsonView::Number(
                NumberView::Integer(
                    if flag {
                        1
                    } else {
                        0
                    },
                ),
            ),
        ),
{
}

/// A 64-bit integer that is bound is bound as it is, an unsigned one up to a
/// multiple of 2^64. One that is refused is named.
pub proof fn wide_integers_are_bound_as_they_are(v: i64, u: u64)
    ensures
        match bound_json(SqlValueView::I64(v)) {
            Ok(json) => json == JsonView::Number(NumberView::Integer(v as int)),
            Err(message) => message == "integer "@ + decimal(v as int)
                + " exceeds ±2^53, the range D1's JSON API carries without loss of precision"@,
        },
        match bound_json(SqlValueView::U64(u)) {
            Ok(json) => json matches JsonView::Number(NumberView::Integer(n)) && i64::MIN <= n
                <= i64::MAX && (n == u || n + 0x1_0000_0000_0000_0000 == u),
            Err(message) => message == "integer "@ + decimal(
                if u <= i64::MAX {
                    u as int
                } else {
                    u - 0x1_0000_0000_0000_0000
                },
            ) + " exceeds ±2^53, the range D1's JSON API carries without loss of precision"@,
        },
{
}

/// Null and texts are bound as they are. A double is bound as it is unless its
/// exponent bits are all ones; then it is no number, and null is bound.
pub proof fn doubles_and_texts_are_bound_as_they_are(f: FloatView, s: Seq<char>)
    ensures
        bound_json(SqlValueView::Null) == Ok::<JsonView, Seq<char>>(JsonView::Null),
        bound_json(SqlValueView::String(s)) == Ok::<JsonView, Seq<char>>(JsonView::String(s)),
        (f.bits >> 52u64) & 0x7ff != 0x7ff ==> bound_json(SqlValueView::F64(f)) == Ok::<
            JsonView,
            Seq<char>,
        >(JsonView::Number(NumberView::Float(f))),
        (f.bits >> 52u64) & 0x7ff == 0x7ff ==> bound_json(SqlValueView::F64(f)) == Ok::<
            JsonView,
            Seq<char>,
        >(JsonView::Null),
        bound_json(SqlValueView::F32(f)) == bound_json(SqlValueView::F64(f)),
{
    let bits = f.bits;
    assert((bits >> 52u64) & 0x7ff != 0x7ff <==> bits % 0x8000_0000_0000_0000
        < 0x7ff0_0000_0000_0000) by (bit_vector);
}

/// A blob is bound as the array of its bytes, each in its place, and a UUID as
/// the blob of its bytes.
pub proof fn blobs_are_bound_byte_by_byte(bytes: Seq<u8>, i: int)
    ensures
        bound_json(SqlValueView::Bytes(bytes)) is Ok,
        bound_json(SqlValueView::Bytes(bytes))->Ok_0 is Array,
        (bound_json(SqlValueView::Bytes(bytes))->Ok_0->Array_0).len() == bytes.len(),
        0 <= i < bytes.len() ==> (bound_json(SqlValueView::Bytes(bytes))->Ok_0->Array_0)[i]
            == JsonView::Number(NumberView::Integer(bytes[i] as int)),
        bound_json(SqlValueView::Uuid(bytes)) == bound_json(SqlValueView::Bytes(bytes)),
{
}

/// A document is bound as the text that the codec gave, or refused with the
/// codec's message. A value of any other kind is refused by name.
pub proof fn documents_are_bound_as_text(value: toasty_core::stmt::Value)
    ensures
        match document_json(value) {
            Ok(text) => bound_json(SqlValueView::Document(value)) == Ok::<JsonView, Seq<char>>(
                JsonView::String(text),
            ),
            Err(err) => bound_json(SqlValueView::Document(value)) == Err::<JsonView, Seq<char>>(
                "serialize document value: "@ + codec_message(err),
            ),
        },
        bound_json(SqlValueView::Other(value)) == Err::<JsonView, Seq<char>>(
            "unsupported bind parameter for D1: "@ + core_value_text(value),
        ),
{
}

/// An integer that goes into a floating-point column is handed over as it is,
/// to be rounded. So is a float that goes into a column of singles.
pub proof fn numbers_for_float_columns_are_kept(n: int, f: FloatView)
    requires
        i64::MIN <= n <= i64::MAX,
    ensures
        decoded_cell(JsonView::Number(NumberView::Integer(n)), ColumnType::F64) == Ok::<
            CellView,
            Seq<char>,
        >(CellView::F64(NumberView::Integer(n))),
        decoded_cell(JsonView::Number(NumberView::Integer(n)), ColumnType::F32) == Ok::<
            CellView,
            Seq<char>,
        >(CellView::F32(NumberView::Integer(n))),
        decoded_cell(JsonView::Number(NumberView::Float(f)), ColumnType::F64) == Ok::<
            CellView,
            Seq<char>,
        >(CellView::Exact(SqlValueView::F64(f))),
        decoded_cell(JsonView::Number(NumberView::Float(f)), ColumnType::F32) == Ok::<
            CellView,
            Seq<char>,
        >(CellView::F32(NumberView::Float(f))),
{
}

proof fn lemma_low_bits(n: int, modulus: int)
    requires
        modulus > 1,
        modulus % 2 == 0,
    ensures
        0 <= low_bits(n, modulus) < modulus,
        (low_bits(n, modulus) - n) % modulus == 0,
        -(modulus / 2) <= signed_low_bits(n, modulus) < modulus / 2,
        (signed_low_bits(n, modulus) - n) % modulus == 0,
{
    let times = -(n / modulus);
    vstd::arithmetic::div_mod::lemma_fundamental_div_mod(n, modulus);
    vstd::arithmetic::div_mod::lemma_mod_multiples_basic(times, modulus);
    vstd::arithmetic::div_mod::lemma_mod_multiples_basic(times - 1, modulus);
    vstd::arithmetic::div_mod::lemma_mod_bound(n, modulus);
    assert(times * modulus == -(modulus * (n / modulus))) by (nonlinear_arith)
        requires
            times == -(n / modulus),
    ;
    assert((times - 1) * modulus == times * modulus - modulus) by (nonlinear_arith);
}

/// An integer that goes into an integer column is kept up to a multiple of
/// what the column's width can count. In a column of truth values it is true
/// unless it is zero.
pub proof fn integers_are_decoded_by_their_low_bits(n: int)
    requires
        i64::MIN <= n <= i64::MAX,
    ensures
        ({
            let json = JsonView::Number(NumberView::Integer(n));
            &&& decoded_cell(json, ColumnType::I64) matches Ok(CellView::Exact(SqlValueView::I64(v)))
                && v == n
            &&& decoded_cell(json, ColumnType::U64) matches Ok(CellView::Exact(SqlValueView::U64(v)))
                && (v - n) % 0x1_0000_0000_0000_0000 == 0
            &&& decoded_cell(json, ColumnType::I32) matches Ok(CellView::Exact(SqlValueView::I32(v)))
                && (v - n) % 0x1_0000_0000 == 0
            &&& decoded_cell(json, ColumnType::U32) matches Ok(CellView::Exact(SqlValueView::U32(v)))
                && (v - n) % 0x1_0000_0000 == 0
            &&& decoded_cell(json, ColumnType::I16) matches Ok(CellView::Exact(SqlValueView::I16(v)))
                && (v - n) % 0x1_0000 == 0
            &&& decoded_cell(json, ColumnType::U16) matches Ok(CellView::Exact(SqlValueView::U16(v)))
                && (v - n) % 0x1_0000 == 0
            &&& decoded_cell(json, ColumnType::I8) matches Ok(CellView::Exact(SqlValueView::I8(v)))
                && (v - n) % 0x100 == 0
            &&& decoded_cell(json, ColumnType::U8) matches Ok(CellView::Exact(SqlValueView::U8(v)))
                && (v - n) % 0x100 == 0
            &&& decoded_cell(json, ColumnType::Bool) == Ok::<CellView, Seq<char>>(
                CellView::Exact(SqlValueView::Bool(n != 0)),
            )
        }),
{
    lemma_low_bits(n, 0x1_0000_0000_0000_0000);
    lemma_low_bits(n, 0x1_0000_0000);
    lemma_low_bits(n, 0x1_0000);
    lemma_low_bits(n, 0x100);
}

/// A number that a column cannot take is an error that tells why: the column
/// is not for numbers, the integer is beyond 64 bits, or the float is what was
/// left of a larger integer.
pub proof fn misplaced_numbers_are_errors(n: int, f: FloatView, ty: ColumnType)
    ensures
        i64::MIN <= n <= i64::MAX && (ty is String || ty is Uuid || ty is Bytes || ty is Object
            || ty is List || ty is Other) ==> decoded_cell(
            JsonView::Number(NumberView::Integer(n)),
            ty,
        ) == Err::<CellView, Seq<char>>("cannot decode integer into "@ + type_text(ty)),
        !(i64::MIN <= n <= i64::MAX) ==> decoded_cell(
            JsonView::Number(NumberView::Integer(n)),
            ty,
        ) == Err::<CellView, Seq<char>>("integer out of i64 range: "@ + decimal(n)),
        !(ty is F32 || ty is F64) ==> decoded_cell(JsonView::Number(NumberView::Float(f)), ty)
            == Err::<CellView, Seq<char>>(
            "cannot decode "@ + f.text + " into "@ + type_text(ty)
                + ": values beyond ±2^53 come back from D1 as floats and have already lost precision"@,
        ),
{
}

/// Null is null in every column. A truth value is itself in a column of truth
/// values and an error in any other, and an object is an error in every
/// column.
pub proof fn null_bool_and_object_cells(ty: ColumnType, b: bool, entries: Seq<(Seq<char>, JsonView)>)
    ensures
        decoded_cell(JsonView::Null, ty) == Ok::<CellView, Seq<char>>(
            CellView::Exact(SqlValueView::Null),
        ),
        ty is Bool ==> decoded_cell(JsonView::Bool(b), ty) == Ok::<CellView, Seq<char>>(
            CellView::Exact(SqlValueView::Bool(b)),
        ),
        !(ty is Bool) ==> decoded_cell(JsonView::Bool(b), ty) == Err::<CellView, Seq<char>>(
            "cannot decode bool into "@ + type_text(ty),
        ),
        decoded_cell(JsonView::Object(entries), ty) == Err::<CellView, Seq<char>>(
            "unexpected JSON object in result cell: "@ + json_text(JsonView::Object(entries)),
        ),
{
}

/// A text is kept as it is, unless the column is for UUIDs, lists or objects:
/// then it is what the parser or the codec reads in it, or the error that they
/// report.
pub proof fn text_cells(text: Seq<char>, ty: ColumnType, elem: toasty_core::stmt::Type)
    ensures
        !(ty is Uuid || ty is List || ty is Object) ==> decoded_cell(JsonView::String(text), ty)
            == Ok::<CellView, Seq<char>>(CellView::Exact(SqlValueView::String(text))),
        decoded_cell(JsonView::String(text), ColumnType::Uuid) == match uuid_in(text) {
            Ok(bytes) => Ok::<CellView, Seq<char>>(CellView::Exact(SqlValueView::Uuid(bytes))),
            Err(err) => Err("invalid uuid: "@ + uuid_message(err)),
        },
        decoded_cell(JsonView::String(text), ColumnType::List(elem)) == match list_in(text, elem) {
            Ok(list) => Ok::<CellView, Seq<char>>(CellView::Exact(SqlValueView::Document(list))),
            Err(err) => Err("decode collection column: "@ + codec_message(err)),
        },
        decoded_cell(JsonView::String(text), ColumnType::Object) == match object_in(text) {
            Ok(object) => Ok::<CellView, Seq<char>>(
                CellView::Exact(SqlValueView::Document(object)),
            ),
            Err(err) => Err("decode document column: "@ + codec_message(err)),
        },
{
}

/// An array whose items are all bytes is the blob of these bytes, each in its
/// place. Any other array is an error that shows the first item that is no
/// byte.
pub proof fn arrays_are_read_byte_by_byte(items: Seq<JsonView>)
    ensures
        match bytes_in(items) {
            Ok(bytes) => {
                &&& bytes.len() == items.len()
                &&& forall|i: int|
                    0 <= i < items.len() ==> #[trigger] items[i] == JsonView::Number(
                        NumberView::Integer(bytes[i] as int),
                    )
            },
            Err(message) => exists|at: int|
                {
                    &&& 0 <= at < items.len()
                    &&& message == "blob element is not a byte: "@ + json_text(#[trigger] items[at])
                    &&& !(items[at] matches JsonView::Number(NumberView::Integer(n)) && 0 <= n
                        <= 255)
                    &&& forall|i: int|
                        0 <= i < at ==> (#[trigger] items[i] matches JsonView::Number(
                            NumberView::Integer(n),
                        ) && 0 <= n <= 255)
                },
        },
{
    match bytes_in(items) {
        Ok(bytes) => {
            assert forall|i: int| 0 <= i < items.len() implies #[trigger] items[i]
                == JsonView::Number(NumberView::Integer(bytes[i] as int)) by {
                assert(is_byte(items[i]));
            }
        },
        Err(message) => {
            let bad = choose|i: int| 0 <= i < items.len() && !is_byte(#[trigger] items[i]);
            lemma_first_non_byte(items, bad);
            let at = choose|at: int| first_non_byte(items, at);
            assert(first_non_byte(items, at));
            assert forall|i: int| 0 <= i < at implies (#[trigger] items[i] matches JsonView::Number(
                NumberView::Integer(n),
            ) && 0 <= n <= 255) by {
                assert(is_byte(items[i]));
            }
        },
    }
}

proof fn lemma_first_non_byte(items: Seq<JsonView>, bad: int)
    requires
        0 <= bad < items.len(),
        !is_byte(items[bad]),
    ensures
        exists|at: int| first_non_byte(items, at),
    decreases bad,
{
    if forall|i: int| 0 <= i < bad ==> is_byte(#[trigger] items[i]) {
        assert(first_non_byte(items, bad));
    } else {
        let earlier = choose|i: int| 0 <= i < bad && !is_byte(#[trigger] items[i]);
        lemma_first_non_byte(items, earlier);
    }
}

/// A blob is itself in a column of blobs, a UUID in a column of UUIDs if it has
/// 16 bytes, and an error in any other column.
pub proof fn blob_cells(items: Seq<JsonView>, ty: ColumnType)
    ensures
        match bytes_in(items) {
            Err(message) => decoded_cell(JsonView::Array(items), ty) == Err::<CellView, Seq<char>>(
                message,
            ),
            Ok(bytes) => {
                &&& ty is Bytes ==> decoded_cell(JsonView::Array(items), ty) == Ok::<
                    CellView,
                    Seq<char>,
                >(CellView::Exact(SqlValueView::Bytes(bytes)))
                &&& ty is Uuid && bytes.len() == 16 ==> decoded_cell(JsonView::Array(items), ty)
                    == Ok::<CellView, Seq<char>>(CellView::Exact(SqlValueView::Uuid(bytes)))
                &&& ty is Uuid && bytes.len() != 16 ==> decoded_cell(JsonView::Array(items), ty)
                    == Err::<CellView, Seq<char>>(
                    "invalid uuid blob: "@ + ("invalid length: expected 16 bytes, found "@
                        + decimal(bytes.len() as int)),
                )
                &&& !(ty is Bytes || ty is Uuid) ==> decoded_cell(JsonView::Array(items), ty)
                    == Err::<CellView, Seq<char>>("cannot decode blob into "@ + type_text(ty))
            },
        },
{
}

/// Without a declared type a cell is what its shape says, and no shape is an
/// error.
pub proof fn untyped_cells(
    n: int,
    f: FloatView,
    text: Seq<char>,
    b: bool,
    items: Seq<JsonView>,
    entries: Seq<(Seq<char>, JsonView)>,
)
    ensures
        inferred_cell(JsonView::Null) == CellView::Exact(SqlValueView::Null),
        inferred_cell(JsonView::Bool(b)) == CellView::Exact(SqlValueView::Bool(b)),
        inferred_cell(JsonView::String(text)) == CellView::Exact(SqlValueView::String(text)),
        inferred_cell(JsonView::Number(NumberView::Float(f))) == CellView::Exact(
            SqlValueView::F64(f),
        ),
        i64::MIN <= n <= i64::MAX ==> (inferred_cell(
            JsonView::Number(NumberView::Integer(n)),
        ) matches CellView::Exact(SqlValueView::I64(v)) && v == n),
        !(i64::MIN <= n <= i64::MAX) ==> inferred_cell(JsonView::Number(NumberView::Integer(n)))
            == CellView::F64(NumberView::Integer(n)),
        inferred_cell(JsonView::Array(items)) == CellView::Exact(
            match bytes_in(items) {
                Ok(bytes) => SqlValueView::Bytes(bytes),
                Err(_) => SqlValueView::String(json_text(JsonView::Array(items))),
            },
        ),
        inferred_cell(JsonView::Object(entries)) == CellView::Exact(
            SqlValueView::String(json_text(JsonView::Object(entries))),
        ),
{
}

/// In messages a column type goes by its name. Types that only Toasty looks
/// into go by their debug text.
pub proof fn column_types_have_names(elem: toasty_core::stmt::Type)
    ensures
        type_text(ColumnType::Bool) == "Bool"@,
        type_text(ColumnType::String) == "String"@,
        type_text(ColumnType::I8) == "I8"@,
        type_text(ColumnType::I16) == "I16"@,
        type_text(ColumnType::I32) == "I32"@,
        type_text(ColumnType::I64) == "I64"@,
        type_text(ColumnType::U8) == "U8"@,
        type_text(ColumnType::U16) == "U16"@,
        type_text(ColumnType::U32) == "U32"@,
        type_text(ColumnType::U64) == "U64"@,
        type_text(ColumnType::F32) == "F32"@,
        type_text(ColumnType::F64) == "F64"@,
        type_text(ColumnType::Uuid) == "Uuid"@,
        type_text(ColumnType::Bytes) == "Bytes"@,
        type_text(ColumnType::Object) == "Object"@,
        type_text(ColumnType::List(elem)) == "List("@ + core_type_text(elem) + ")"@,
        type_text(ColumnType::Other(elem)) == core_type_text(elem),
{
}

/// What the codec or the parser gave is taken over, and their messages are put
/// behind what was being done.
pub proof fn outside_results_are_taken_over(
    text: Seq<char>,
    bytes: Seq<u8>,
    document: toasty_core::stmt::Value,
    doing: Seq<char>,
    message: Seq<char>,
)
    ensures
        document_json_of(Ok(text)) == Ok::<JsonView, Seq<char>>(JsonView::String(text)),
        document_json_of(Err(message)) == Err::<JsonView, Seq<char>>(
            "serialize document value: "@ + message,
        ),
        uuid_cell(Ok(bytes)) == Ok::<CellView, Seq<char>>(CellView::Exact(SqlValueView::Uuid(bytes))),
        uuid_cell(Err(message)) == Err::<CellView, Seq<char>>("invalid uuid: "@ + message),
        document_cell(doing, Ok(document)) == Ok::<CellView, Seq<char>>(
            CellView::Exact(SqlValueView::Document(document)),
        ),
        document_cell(doing, Err(message)) == Err::<CellView, Seq<char>>(doing + message),
{
}

/// An integer is safe to send exactly if its magnitude is at most 2^53, and
/// then it is sent as it is.
pub proof fn safe_integers_are_kept(n: int)
    ensures
        is_safe_integer(n) <==> -0x20_0000_0000_0000 <= n <= 0x20_0000_0000_0000,
        match safe_integer_json(n) {
            Ok(json) => is_safe_integer(n) && json == JsonView::Number(NumberView::Integer(n)),
            Err(message) => !is_safe_integer(n) && message == "integer "@ + decimal(n)
                + " exceeds ±2^53, the range D1's JSON API carries without loss of precision"@,
        },
{
}

} // verus!
