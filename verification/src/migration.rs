//! Which migrations have been applied, and the record that is kept of them.

use vstd::prelude::*;

use crate::error::{D1Error, DriverError, DriverErrorView};
use crate::json::{json_views, Json, JsonView, Number, NumberView};
use crate::outcome::{rows_view, Request, RequestView, Want};
use crate::value::{
    as_signed, integer_json, is_safe_integer, safe_integer, safe_integer_json,
};

verus! {

/// The statement that makes room for the record.
pub const CREATE_RECORD: &'static str = "CREATE TABLE IF NOT EXISTS __toasty_migrations (
                    id INTEGER PRIMARY KEY,
                    name TEXT NOT NULL,
                    applied_at TEXT NOT NULL
                )";

/// The statement that reads the record.
pub const READ_RECORD: &'static str = "SELECT id FROM __toasty_migrations ORDER BY applied_at";

/// The statement that adds to the record.
pub const ADD_TO_RECORD: &'static str =
    "INSERT INTO __toasty_migrations (id, name, applied_at) VALUES (?1, ?2, datetime('now'))";

/// The identifier whose 64-bit two's complement pattern is that of `n`.
pub open spec fn as_unsigned(n: int) -> u64 {
    if n < 0 {
        (n + 0x1_0000_0000_0000_0000) as u64
    } else {
        n as u64
    }
}

/// The identifier that a row of the record holds, if it holds one.
pub open spec fn migration_id(row: Seq<JsonView>) -> Option<u64> {
    if row.len() > 0 {
        match row[0] {
            JsonView::Number(NumberView::Integer(n)) => if i64::MIN <= n <= i64::MAX {
                Some(as_unsigned(n))
            } else {
                None
            },
            _ => None,
        }
    } else {
        None
    }
}

/// The identifiers that the rows of the record hold. Each row has to hold one.
pub open spec fn migration_ids(rows: Seq<Seq<JsonView>>) -> Result<Seq<u64>, DriverErrorView> {
    if forall|i: int| 0 <= i < rows.len() ==> migration_id(#[trigger] rows[i]) is Some {
        Ok(Seq::new(rows.len(), |i: int| migration_id(rows[i])->0))
    } else {
        Err(DriverErrorView::DriverOperationFailed("migration id is not an integer"@))
    }
}

/// What adds a migration to the record. SQLite's integers are signed, so the
/// identifier goes by its bit pattern.
pub open spec fn record_request(id: u64, name: Seq<char>) -> RequestView {
    RequestView {
        sql: ADD_TO_RECORD@,
        params: seq![integer_json(as_signed(id)), JsonView::String(name)],
        want: Want::Changes,
    }
}

/// What adds a migration to the record, or the error that refuses an
/// identifier that D1's JSON API would corrupt.
pub open spec fn recorded(id: u64, name: Seq<char>) -> Result<RequestView, DriverErrorView> {
    match safe_integer_json(as_signed(id)) {
        Err(message) => Err(DriverErrorView::DriverOperationFailed(message)),
        Ok(_) => Ok(record_request(id, name)),
    }
}

/// The identifier that a row of the record holds, if it holds one.
fn row_to_id(row: &Vec<Json>) -> (r: Option<u64>)
    ensures
        r == migration_id(json_views(row@)),
{
    if row.len() == 0 {
        return None;
    }
    match &row[0] {
        Json::Number(Number::Integer(n)) => if i64::MIN as i128 <= *n && *n <= i64::MAX as i128 {
            let signed: i64 = *n as i64;
            assert(signed < 0 ==> signed as u64 == signed + 0x1_0000_0000_0000_0000)
                by (bit_vector);
            Some(signed as u64)
        } else {
            None
        },
        _ => None,
    }
}

/// Reads the record.
pub fn read_record(rows: &Vec<Vec<Json>>) -> (r: Result<Vec<u64>, DriverError>)
    ensures
        match r {
            Ok(ids) => migration_ids(rows_view(rows@)) == Ok::<Seq<u64>, DriverErrorView>(ids@),
            Err(err) => migration_ids(rows_view(rows@)) == Err::<Seq<u64>, DriverErrorView>(err@),
        },
{
    let ghost views = rows_view(rows@);
    let mut ids: Vec<u64> = Vec::new();
    let mut i: usize = 0;
    while i < rows.len()
        invariant
            i == ids@.len(),
            i <= rows@.len(),
            views == rows_view(rows@),
            forall|k: int| 0 <= k < i ==> migration_id(#[trigger] views[k]) == Some(ids@[k]),
        decreases rows@.len() - i,
    {
        assert(views[i as int] == json_views(rows@[i as int]@));
        match row_to_id(&rows[i]) {
            None => {
                return Err(
                    DriverError::DriverOperationFailed(
                        D1Error::new("migration id is not an integer".to_string()),
                    ),
                );
            },
            Some(id) => {
                ids.push(id);
            },
        }
        i += 1;
    }
    assert(ids@ =~= Seq::new(views.len(), |i: int| migration_id(views[i])->0));
    Ok(ids)
}

/// What adds a migration to the record, unless D1's JSON API would corrupt its
/// identifier.
pub fn record(id: u64, name: &str) -> (r: Result<Request, DriverError>)
    ensures
        match r {
            Ok(request) => recorded(id, name@) == Ok::<RequestView, DriverErrorView>(request@),
            Err(err) => recorded(id, name@) == Err::<RequestView, DriverErrorView>(err@),
        },
{
    let signed: i64 = id as i64;
    assert(signed == if id < 0x8000_0000_0000_0000u64 {
        id as int
    } else {
        id - 0x1_0000_0000_0000_0000
    }) by (bit_vector)
        requires
            signed == id as i64,
    ;
    match safe_integer(signed) {
        Err(err) => Err(DriverError::DriverOperationFailed(err)),
        Ok(json) => {
            let mut params: Vec<Json> = Vec::new();
            params.push(json);
            params.push(Json::String(name.to_string()));
            let request = Request { sql: ADD_TO_RECORD.to_string(), params, want: Want::Changes };
            assert(request@.params =~= record_request(id, name@).params);
            Ok(request)
        },
    }
}

/// A migration is recorded exactly if D1's JSON API carries its identifier
/// without loss.
pub proof fn only_safe_ids_are_recorded(id: u64, name: Seq<char>)
    ensures
        recorded(id, name) is Ok <==> is_safe_integer(as_signed(id)),
{
}

/// A migration that was recorded is read back under its identifier.
pub proof fn record_reads_back(id: u64, name: Seq<char>, rest: Seq<JsonView>)
    requires
        recorded(id, name) is Ok,
    ensures
        migration_id(seq![(recorded(id, name)->Ok_0).params[0]] + rest) == Some(id),
{
}

/// A row holds an identifier exactly if its first cell is a 64-bit signed
/// integer. The identifier is that integer, or the one that is 2^64 greater
/// where it is negative.
pub proof fn id_is_the_first_cell(row: Seq<JsonView>)
    ensures
        match migration_id(row) {
            Some(id) => {
                &&& row.len() > 0
                &&& row[0] matches JsonView::Number(NumberView::Integer(n))
                &&& -0x8000_0000_0000_0000 <= n < 0x8000_0000_0000_0000
                &&& id == if n < 0 {
                    n + 0x1_0000_0000_0000_0000
                } else {
                    n
                }
            },
            None => row.len() > 0 ==> (row[0] matches JsonView::Number(NumberView::Integer(n)) ==> !(
            -0x8000_0000_0000_0000 <= n < 0x8000_0000_0000_0000)),
        },
{
}

/// The record is read row by row: each row's identifier stands at the row's
/// place. It is refused exactly if some row holds none.
pub proof fn record_is_read_row_by_row(rows: Seq<Seq<JsonView>>)
    ensures
        match migration_ids(rows) {
            Ok(ids) => {
                &&& ids.len() == rows.len()
                &&& forall|i: int|
                    0 <= i < rows.len() ==> migration_id(#[trigger] rows[i]) == Some(ids[i])
            },
            Err(err) => {
                &&& err == DriverErrorView::DriverOperationFailed(
                    "migration id is not an integer"@,
                )
                &&& exists|i: int| 0 <= i < rows.len() && migration_id(#[trigger] rows[i]) is None
            },
        },
{
}

/// A migration is recorded with its identifier as a signed integer of the same
/// bits, and with its name, in this order. It is refused as an integer that
/// D1's JSON API would corrupt is.
pub proof fn record_holds_id_and_name(id: u64, name: Seq<char>)
    ensures
        ({
            let n = if id < 0x8000_0000_0000_0000 {
                id as int
            } else {
                id - 0x1_0000_0000_0000_0000
            };
            match recorded(id, name) {
                Ok(request) => {
                    &&& -0x20_0000_0000_0000 <= n <= 0x20_0000_0000_0000
                    &&& request.sql == ADD_TO_RECORD@
                    &&& request.params.len() == 2
                    &&& request.params[0] == JsonView::Number(NumberView::Integer(n))
                    &&& request.params[1] == JsonView::String(name)
                    &&& request.want is Changes
                },
                Err(err) => {
                    &&& !(-0x20_0000_0000_0000 <= n <= 0x20_0000_0000_0000)
                    &&& safe_integer_json(n) is Err
                    &&& err == DriverErrorView::DriverOperationFailed(safe_integer_json(n)->Err_0)
                },
            }
        }),
{
}

/// Migrations that were recorded are read back in their order, each under its
/// identifier, whatever else the rows hold.
pub proof fn records_read_back(
    ids: Seq<u64>,
    names: Seq<Seq<char>>,
    rests: Seq<Seq<JsonView>>,
)
    requires
        forall|i: int|
            #![trigger ids[i]]
            0 <= i < ids.len() ==> recorded(ids[i], names[i]) is Ok,
    ensures
        migration_ids(
            Seq::new(
                ids.len(),
                |i: int| seq![(recorded(ids[i], names[i])->Ok_0).params[0]] + rests[i],
            ),
        ) == Ok::<Seq<u64>, DriverErrorView>(ids),
{
    let rows = Seq::new(
        ids.len(),
        |i: int| seq![(recorded(ids[i], names[i])->Ok_0).params[0]] + rests[i],
    );
    assert forall|i: int| 0 <= i < rows.len() implies migration_id(#[trigger] rows[i]) == Some(
        ids[i],
    ) by {
        assert(recorded(ids[i], names[i]) is Ok);
        record_reads_back(ids[i], names[i], rests[i]);
    }
    record_is_read_row_by_row(rows);
    assert(migration_ids(rows)->Ok_0 =~= ids);
}

} // verus!
