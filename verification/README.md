# toasty_driver_d1

A [Toasty](https://github.com/tokio-rs/toasty) driver for
[Cloudflare D1](https://developers.cloudflare.com/d1/), verified with Verus.

The library in `src/` decides what is sent to the database and what the answers
mean; it does no I/O. Every function states in its contract what it returns, and
Verus proves it. `app/` holds what surrounds the library: the HTTP requests, the
calls of the Workers binding, Toasty's traits, and the conversions that round to
floating-point numbers.

## What is proved

- A value that can be bound is the same value when it is read back from a column
  of its type (`value::bound_value_reads_back`,
  `connection::written_row_reads_back`). Blobs and UUIDs keep their values over
  the HTTP API only: the Workers binding binds no arrays.
- No integer is sent that D1's JSON transport would corrupt
  (`value::only_safe_integers_are_sent`,
  `schema::migrations_send_only_safe_integers`), and one that has already lost precision
  is an error (`value::lost_precision_is_an_error`).
- A string that is written into a statement is read as that string and ends where
  it was written to end, whatever it holds (`literal::string_literal_reads_back`).
- Transactions are refused (`connection::transactions_are_refused`), and a batch
  is planned whole or not at all (`batch::batch_is_all_or_nothing`).
- A script stops at the first statement that fails
  (`script::script_sends_up_to_the_first_failure`), and a migration is recorded
  only after all of its statements (`schema::failed_migration_is_not_recorded`).
- A reset drops the tables that were named, whatever their names hold
  (`driver::reset_drops_what_was_named`, `driver::drop_names_the_table`).
- The API token is never shown (`driver::token_is_never_shown`).

## What is trusted

The serializer and the document codec of `toasty-sql`, the UUID parser, the JSON
string writer of `serde_json`, the text of an HTTP status, and the debug texts of
Toasty's types are called through small wrappers whose doc comments say what is
claimed of them. The serializer panics on statements that were not lowered for
SQLite; the functions that call it require that it has a text.
