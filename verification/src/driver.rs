//! The driver: which database it is for, and how it is reached.

use vstd::prelude::*;

use crate::binding::D1Binding;
use crate::connection::Connection;
use crate::error::{DriverError, DriverErrorView};
use crate::http::{endpoint_of, D1Client, D1ClientView, DEFAULT_BASE_URL};
use crate::json::{json_views, Json, JsonView};
use crate::literal::{
    doubled, enclosed_reads_back, push_doubled, read_enclosed, unquoted_is_kept,
};
use crate::outcome::{command, query, requests_view, rows_view, Request, RequestView};
use crate::script::{script_of, Script};
use crate::transport::{Transport, TransportView};

verus! {

/// How the driver reaches the database.
enum Source {
    Rest { account_id: String, database_id: String, api_token: String, base_url: String },
    /// A binding is already a live handle, so there is nothing to build per
    /// connection.
    Binding(D1Binding),
}

/// A driver for one D1 database, reached over either D1's HTTP API or its
/// Workers binding.
pub struct D1 {
    source: Source,
}

/// What a [`D1`] stands for.
#[verifier::ext_equal]
pub enum D1View {
    Rest {
        account_id: Seq<char>,
        database_id: Seq<char>,
        api_token: Seq<char>,
        base_url: Seq<char>,
    },
    Binding(worker::D1Database),
}

impl View for D1 {
    type V = D1View;

    closed spec fn view(&self) -> D1View {
        match self.source {
            Source::Rest { account_id, database_id, api_token, base_url } => D1View::Rest {
                account_id: account_id@,
                database_id: database_id@,
                api_token: api_token@,
                base_url: base_url@,
            },
            Source::Binding(binding) => D1View::Binding(binding.database()),
        }
    }
}

/// The driver for the given database at the usual origin.
pub open spec fn rest_driver(
    account_id: Seq<char>,
    database_id: Seq<char>,
    api_token: Seq<char>,
) -> D1View {
    D1View::Rest { account_id, database_id, api_token, base_url: DEFAULT_BASE_URL@ }
}

/// The driver that the environment asks for, or the first variable that it
/// lacks.
pub open spec fn driver_from_env(
    account_id: Option<String>,
    database_id: Option<String>,
    api_token: Option<String>,
) -> Result<D1View, DriverErrorView> {
    if account_id is None {
        Err(DriverErrorView::InvalidConnectionUrl("missing env var "@ + "D1_ACCOUNT_ID"@))
    } else if database_id is None {
        Err(DriverErrorView::InvalidConnectionUrl("missing env var "@ + "D1_DATABASE_ID"@))
    } else if api_token is None {
        Err(DriverErrorView::InvalidConnectionUrl("missing env var "@ + "D1_API_TOKEN"@))
    } else {
        Ok(rest_driver(account_id->0@, database_id->0@, api_token->0@))
    }
}

/// The driver with another API origin. A binding has none.
pub open spec fn rebased(driver: D1View, url: Seq<char>) -> D1View {
    match driver {
        D1View::Rest { account_id, database_id, api_token, base_url } => D1View::Rest {
            account_id,
            database_id,
            api_token,
            base_url: url,
        },
        D1View::Binding(_) => driver,
    }
}

/// The transport that the driver's connections use.
pub open spec fn transport_of(driver: D1View) -> TransportView {
    match driver {
        D1View::Rest { account_id, database_id, api_token, base_url } => TransportView::Rest(
            D1ClientView {
                endpoint: endpoint_of(base_url, account_id, database_id),
                token: api_token,
            },
        ),
        D1View::Binding(database) => TransportView::Binding(database),
    }
}

/// The driver's URL. A binding names no account or database: the isolate is
/// handed a handle, not an address.
pub open spec fn url_of(driver: D1View) -> Seq<char> {
    match driver {
        D1View::Rest { account_id, database_id, .. } => "d1://"@ + account_id + "/"@ + database_id,
        D1View::Binding(_) => "d1://binding"@,
    }
}

/// The fields that the driver shows in logs, each with its value.
pub open spec fn shown_fields(driver: D1View) -> Seq<(Seq<char>, Seq<char>)> {
    match driver {
        D1View::Rest { account_id, database_id, .. } => seq![
            ("account_id"@, account_id),
            ("database_id"@, database_id),
        ],
        D1View::Binding(_) => seq![("source"@, "binding"@)],
    }
}

/// The statement that drops a table. A double quote in the name is doubled, as
/// it would end the name otherwise.
pub open spec fn drop_table(name: Seq<char>) -> Seq<char> {
    "DROP TABLE IF EXISTS \""@ + doubled(name, '"') + "\""@
}

/// The statements that drop the tables that the rows name. A row whose first
/// cell is no text names none.
pub open spec fn drops(rows: Seq<Seq<JsonView>>) -> Seq<RequestView>
    decreases rows.len(),
{
    if rows.len() == 0 {
        Seq::empty()
    } else {
        let row = rows.last();
        if row.len() > 0 && row[0] is String {
            drops(rows.drop_last()).push(command(drop_table(row[0]->String_0)))
        } else {
            drops(rows.drop_last())
        }
    }
}

/// The statement that names the tables to drop: all but SQLite's own, which
/// start with `sqlite_`, and D1's own, which start with `_cf_`. The underscores
/// are escaped, as a bare one would stand for any character. `LIKE` takes no
/// notice of case, and neither do table names.
pub const USER_TABLES: &'static str =
    "SELECT name FROM sqlite_master WHERE type = 'table' AND name NOT LIKE 'sqlite\\_%' ESCAPE '\\' AND name NOT LIKE '\\_cf\\_%' ESCAPE '\\'";

/// An error about a variable that the environment lacks.
fn missing_var(key: &str) -> (r: DriverError)
    ensures
        r@ == DriverErrorView::InvalidConnectionUrl("missing env var "@ + key@),
{
    let mut message = "missing env var ".to_string();
    message.append(key);
    DriverError::InvalidConnectionUrl(message)
}

impl D1 {
    /// A driver for the given database, reached over the HTTP API.
    ///
    /// The token needs the `D1 Edit` permission for the account.
    pub fn new(account_id: String, database_id: String, api_token: String) -> (r: D1)
        ensures
            r@ == rest_driver(account_id@, database_id@, api_token@),
    {
        D1 {
            source: Source::Rest {
                account_id,
                database_id,
                api_token,
                base_url: DEFAULT_BASE_URL.to_string(),
            },
        }
    }

    /// A driver that uses a D1 binding.
    ///
    /// This is the transport to prefer inside a Worker: the binding is a call
    /// within the datacenter, while the HTTP API is a round trip out to
    /// Cloudflare's REST endpoint and back.
    pub fn from_binding(database: worker::D1Database) -> (r: D1)
        ensures
            r@ == D1View::Binding(database),
    {
        D1 { source: Source::Binding(D1Binding::new(database)) }
    }

    /// A driver made of what `D1_ACCOUNT_ID`, `D1_DATABASE_ID` and
    /// `D1_API_TOKEN` hold, in this order.
    ///
    /// Deliberately not the `CLOUDFLARE_*` names: wrangler treats
    /// `CLOUDFLARE_API_TOKEN` as its own credential, which hijacks OAuth
    /// logins in any repository that sets it.
    pub fn from_env(
        account_id: Option<String>,
        database_id: Option<String>,
        api_token: Option<String>,
    ) -> (r: Result<D1, DriverError>)
        ensures
            match r {
                Ok(d1) => driver_from_env(account_id, database_id, api_token) == Ok::<
                    D1View,
                    DriverErrorView,
                >(d1@),
                Err(err) => driver_from_env(account_id, database_id, api_token) == Err::<
                    D1View,
                    DriverErrorView,
                >(err@),
            },
    {
        match account_id {
            None => Err(missing_var("D1_ACCOUNT_ID")),
            Some(account_id) => match database_id {
                None => Err(missing_var("D1_DATABASE_ID")),
                Some(database_id) => match api_token {
                    None => Err(missing_var("D1_API_TOKEN")),
                    Some(api_token) => Ok(D1::new(account_id, database_id, api_token)),
                },
            },
        }
    }

    /// Overrides the API origin. Intended for tests against a mock server.
    pub fn with_base_url(self, url: String) -> (r: D1)
        ensures
            r@ == rebased(self@, url@),
    {
        match self.source {
            Source::Rest { account_id, database_id, api_token, .. } => D1 {
                source: Source::Rest { account_id, database_id, api_token, base_url: url },
            },
            Source::Binding(binding) => D1 { source: Source::Binding(binding) },
        }
    }

    /// The transport that connections use.
    pub fn client(&self) -> (r: Transport)
        ensures
            r@ == transport_of(self@),
    {
        match &self.source {
            Source::Rest { account_id, database_id, api_token, base_url } => Transport::Rest(
                D1Client::new(
                    base_url.as_str(),
                    account_id.as_str(),
                    database_id.as_str(),
                    api_token.as_str(),
                ),
            ),
            Source::Binding(binding) => Transport::Binding(binding.clone()),
        }
    }

    /// The fields to show in logs. The API token must never reach them.
    pub fn debug_fields(&self) -> (r: Vec<(String, String)>)
        ensures
            r@.len() == shown_fields(self@).len(),
            forall|i: int|
                0 <= i < r@.len() ==> ((#[trigger] r@[i]).0@, r@[i].1@) == shown_fields(self@)[i],
    {
        let mut fields: Vec<(String, String)> = Vec::new();
        match &self.source {
            Source::Rest { account_id, database_id, .. } => {
                fields.push(("account_id".to_string(), account_id.clone()));
                fields.push(("database_id".to_string(), database_id.clone()));
            },
            Source::Binding(_) => {
                fields.push(("source".to_string(), "binding".to_string()));
            },
        }
        fields
    }

    /// The URL of the database.
    pub fn url(&self) -> (r: String)
        ensures
            r@ == url_of(self@),
    {
        match &self.source {
            Source::Rest { account_id, database_id, .. } => {
                let mut url = "d1://".to_string();
                url.append(account_id.as_str());
                url.append("/");
                url.append(database_id.as_str());
                url
            },
            Source::Binding(_) => "d1://binding".to_string(),
        }
    }

    /// A connection to the database.
    pub fn connect(&self) -> (r: Connection)
        ensures
            r.transport() == transport_of(self@),
    {
        Connection::new(self.client())
    }

    /// The statement that starts a reset: it names the tables to drop.
    ///
    /// The HTTP API cannot drop and recreate the database itself without
    /// changing its UUID, so every user table is dropped instead.
    pub fn reset_db(&self) -> (r: Request)
        ensures
            r@ == query(USER_TABLES@),
    {
        Request::query(USER_TABLES.to_string())
    }

    /// The rest of a reset, once the tables are known: drops them one by one.
    pub fn drop_tables(&self, rows: &Vec<Vec<Json>>) -> (r: Script)
        ensures
            r@ == script_of(drops(rows_view(rows@)), None),
    {
        let ghost views = rows_view(rows@);
        let mut requests: Vec<Request> = Vec::new();
        let mut i: usize = 0;
        while i < rows.len()
            invariant
                i <= rows@.len(),
                views == rows_view(rows@),
                requests_view(requests@) == drops(views.take(i as int)),
            decreases rows@.len() - i,
        {
            let ghost before = requests@;
            proof {
                assert(views.take(i + 1).drop_last() =~= views.take(i as int));
                assert(views[i as int] == json_views(rows@[i as int]@));
            }
            if rows[i].len() > 0 {
                match &rows[i][0] {
                    Json::String(name) => {
                        let mut sql = "DROP TABLE IF EXISTS \"".to_string();
                        push_doubled(&mut sql, name.as_str(), '"');
                        sql.append("\"");
                        requests.push(Request::command(sql));
                        proof {
                            assert(requests_view(requests@) =~= requests_view(before).push(
                                requests@.last()@,
                            ));
                        }
                    },
                    _ => {},
                }
            }
            i += 1;
        }
        proof {
            assert(views.take(i as int) =~= views);
        }
        Script::new(requests)
    }
}

/// The token never shows: neither the logged fields nor the URL depends on it.
pub proof fn token_is_never_shown(
    account_id: Seq<char>,
    database_id: Seq<char>,
    base_url: Seq<char>,
    token: Seq<char>,
    other_token: Seq<char>,
)
    ensures
        shown_fields(D1View::Rest { account_id, database_id, api_token: token, base_url })
            == shown_fields(
            D1View::Rest { account_id, database_id, api_token: other_token, base_url },
        ),
        url_of(D1View::Rest { account_id, database_id, api_token: token, base_url }) == url_of(
            D1View::Rest { account_id, database_id, api_token: other_token, base_url },
        ),
{
}

/// Another origin changes where requests go and nothing else, the last one
/// given counts, and a binding has none to change.
pub proof fn last_origin_counts(driver: D1View, url: Seq<char>, other_url: Seq<char>)
    ensures
        rebased(rebased(driver, other_url), url) == rebased(driver, url),
        url_of(rebased(driver, url)) == url_of(driver),
        shown_fields(rebased(driver, url)) == shown_fields(driver),
        driver is Binding ==> rebased(driver, url) == driver,
        driver is Rest ==> transport_of(rebased(driver, url)) == TransportView::Rest(
            D1ClientView {
                endpoint: endpoint_of(url, driver->account_id, driver->database_id),
                token: driver->api_token,
            },
        ),
{
}

/// Whether a row names a table.
pub open spec fn names_table(row: Seq<JsonView>) -> bool {
    row.len() > 0 && row[0] is String
}

/// A reset drops the tables that the rows name, one for each row that names
/// one and in the order of the rows, and nothing else.
pub proof fn reset_drops_what_was_named(rows: Seq<Seq<JsonView>>)
    ensures
        drops(rows) == rows.filter(|row: Seq<JsonView>| names_table(row)).map_values(
            |row: Seq<JsonView>| command(drop_table(row[0]->String_0)),
        ),
    decreases rows.len(),
{
    reveal(Seq::filter);
    let named = |row: Seq<JsonView>| names_table(row);
    let dropped = |row: Seq<JsonView>| command(drop_table(row[0]->String_0));
    if rows.len() > 0 {
        reset_drops_what_was_named(rows.drop_last());
        let fewer = rows.drop_last().filter(named);
        if names_table(rows.last()) {
            assert(rows.filter(named) =~= fewer.push(rows.last()));
            assert(rows.filter(named).map_values(dropped) =~= fewer.map_values(dropped).push(
                dropped(rows.last()),
            ));
        } else {
            assert(rows.filter(named) =~= fewer);
        }
    } else {
        assert(rows.filter(named).map_values(dropped) =~= drops(rows));
    }
}

/// The statement that drops a table names that table and nothing else,
/// whatever the name holds. A name without double quotes stands in it as it is.
pub proof fn drop_names_the_table(name: Seq<char>)
    ensures
        read_enclosed(drop_table(name).skip("DROP TABLE IF EXISTS \""@.len() as int), '"') == Some(
            (name, Seq::<char>::empty()),
        ),
        !name.contains('"') ==> drop_table(name) == "DROP TABLE IF EXISTS \""@ + name + "\""@,
{
    reveal_strlit("\"");
    let opening = "DROP TABLE IF EXISTS \""@;
    assert("\""@ =~= seq!['"']);
    assert(drop_table(name).skip(opening.len() as int) =~= doubled(name, '"') + seq!['"']
        + Seq::<char>::empty());
    enclosed_reads_back(name, '"', Seq::empty());
    if !name.contains('"') {
        unquoted_is_kept(name, '"');
    }
}

/// A driver holds what it is given, at Cloudflare's API origin.
pub proof fn driver_holds_what_it_is_given(
    account_id: Seq<char>,
    database_id: Seq<char>,
    api_token: Seq<char>,
)
    ensures
        rest_driver(account_id, database_id, api_token) == (D1View::Rest {
            account_id,
            database_id,
            api_token,
            base_url: "https://api.cloudflare.com/client/v4"@,
        }),
{
}

/// The environment gives a driver exactly if it has all three variables, each
/// for its own part. Otherwise the first that it lacks is named.
pub proof fn environment_gives_each_part(
    account_id: Option<String>,
    database_id: Option<String>,
    api_token: Option<String>,
)
    ensures
        match driver_from_env(account_id, database_id, api_token) {
            Ok(driver) => {
                &&& account_id is Some
                &&& database_id is Some
                &&& api_token is Some
                &&& driver is Rest
                &&& driver->account_id == account_id->0@
                &&& driver->database_id == database_id->0@
                &&& driver->api_token == api_token->0@
                &&& driver->base_url == "https://api.cloudflare.com/client/v4"@
            },
            Err(err) => {
                ||| account_id is None && err == DriverErrorView::InvalidConnectionUrl(
                    "missing env var "@ + "D1_ACCOUNT_ID"@,
                )
                ||| account_id is Some && database_id is None
                    && err == DriverErrorView::InvalidConnectionUrl(
                    "missing env var "@ + "D1_DATABASE_ID"@,
                )
                ||| account_id is Some && database_id is Some && api_token is None
                    && err == DriverErrorView::InvalidConnectionUrl(
                    "missing env var "@ + "D1_API_TOKEN"@,
                )
            },
        },
{
}

/// Over HTTP, requests go to the driver's database with the driver's token, and
/// the URL and the logs name the account and the database. Another origin
/// leaves all but the origin as it was. A binding is used as it is.
pub proof fn driver_reaches_its_database(
    account_id: Seq<char>,
    database_id: Seq<char>,
    api_token: Seq<char>,
    base_url: Seq<char>,
    url: Seq<char>,
    database: worker::D1Database,
)
    ensures
        ({
            let driver = D1View::Rest { account_id, database_id, api_token, base_url };
            &&& rebased(driver, url) == D1View::Rest {
                account_id,
                database_id,
                api_token,
                base_url: url,
            }
            &&& transport_of(driver) is Rest
            &&& (transport_of(driver)->Rest_0).endpoint == endpoint_of(
                base_url,
                account_id,
                database_id,
            )
            &&& (transport_of(driver)->Rest_0).token == api_token
            &&& url_of(driver) == "d1://"@ + account_id + "/"@ + database_id
            &&& shown_fields(driver).len() == 2
            &&& shown_fields(driver)[0] == ("account_id"@, account_id)
            &&& shown_fields(driver)[1] == ("database_id"@, database_id)
        }),
        rebased(D1View::Binding(database), url) == D1View::Binding(database),
        transport_of(D1View::Binding(database)) == TransportView::Binding(database),
        url_of(D1View::Binding(database)) == "d1://binding"@,
        shown_fields(D1View::Binding(database)).len() == 1,
        shown_fields(D1View::Binding(database))[0] == ("source"@, "binding"@),
{
}

/// What drops a table is the same up to the name, whatever the name, and closes
/// the quote around it.
pub proof fn drop_encloses_the_name(name: Seq<char>)
    ensures
        ({
            let opening = "DROP TABLE IF EXISTS \""@;
            &&& drop_table(name).len() > opening.len()
            &&& drop_table(name).take(opening.len() as int) == opening
            &&& drop_table(name).last() == '"'
        }),
{
    reveal_strlit("\"");
}

/// A row names a table exactly if its first cell is a text. One more row adds
/// the statement that drops the table that it names, or nothing.
pub proof fn row_names_its_table(rows: Seq<Seq<JsonView>>, name: Seq<char>, rest: Seq<JsonView>)
    ensures
        drops(Seq::empty()).len() == 0,
        drops(rows.push(seq![JsonView::String(name)] + rest)) == drops(rows).push(
            command(drop_table(name)),
        ),
        names_table(seq![JsonView::String(name)] + rest),
        !names_table(Seq::empty()),
        rest.len() > 0 && rest[0] !is String ==> !names_table(rest) && drops(rows.push(rest))
            == drops(rows),
        drops(rows.push(Seq::empty())) == drops(rows),
{
    let named = seq![JsonView::String(name)] + rest;
    assert(rows.push(named).drop_last() =~= rows);
    assert(rows.push(rest).drop_last() =~= rows);
    assert(rows.push(Seq::empty()).drop_last() =~= rows);
}

} // verus!
