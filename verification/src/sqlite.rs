//! The trusted boundary to the SQLite client: the connection and error types
//! are declared opaquely, and each catalog query the extractor issues stands
//! behind one wrapper. What a query returns depends on the database file on
//! disk, so the wrappers promise nothing of the row values themselves; the
//! extraction logic is verified for every outcome they may hand back.

use vstd::prelude::*;

verus! {

#[verifier::external_type_specification]
#[verifier::external_body]
pub struct ExConnection(rusqlite::Connection);

#[verifier::external_type_specification]
#[verifier::external_body]
pub struct ExError(rusqlite::Error);

/// Relies on `rusqlite::Connection::open`: opens (or fails to open) the
/// database file at `path`.
#[verifier::external_body]
pub(crate) fn open_connection(path: &str) -> Result<rusqlite::Connection, rusqlite::Error> {
    rusqlite::Connection::open(path)
}

/// Relies on `rusqlite::Connection::pragma_update`: sets the connection's
/// journal mode to `delete`, so that reading leaves no write-ahead-log
/// artifacts beside the database file.
#[verifier::external_body]
pub(crate) fn pragma_journal_mode_delete(conn: &rusqlite::Connection) -> Result<
    (),
    rusqlite::Error,
> {
    conn.pragma_update(None, "journal_mode", "delete")
}

/// Relies on `Connection::prepare` and `Statement::query_map` over
/// `pragma_database_list`: yields each attached database's logical name and
/// backing file path, in the catalog's native order.
#[verifier::external_body]
pub(crate) fn query_database_list(conn: &rusqlite::Connection) -> Result<
    Vec<(String, String)>,
    rusqlite::Error,
> {
    let mut stmt = conn.prepare("SELECT name, file FROM pragma_database_list")?;
    let rows = stmt.query_map([], |row| Ok((row.get(0)?, row.get(1)?)))?;
    rows.collect()
}

/// Relies on `Connection::prepare` and `Statement::query_map` over the given
/// database's `sqlite_master`: yields the name of every object of kind
/// "table", bookkeeping tables included, in the catalog's order.
#[verifier::external_body]
pub(crate) fn query_table_names(conn: &rusqlite::Connection, db_name: &str) -> Result<
    Vec<String>,
    rusqlite::Error,
> {
    let sql = format!("SELECT name FROM '{}'.sqlite_master WHERE type = 'table'", db_name);
    let mut stmt = conn.prepare(&sql)?;
    let rows = stmt.query_map([], |row| row.get(0))?;
    rows.collect()
}

/// Relies on `Connection::prepare` and `Statement::query_map` over
/// `pragma_table_info`: yields, for each column of the named table, its
/// catalog index, name, declared type, "not null" flag, optional default and
/// primary-key flag. The `ORDER BY c.cid` clause of the statement makes the
/// rows come ordered by catalog column index, ascending, which is the one
/// fact callers rely on.
#[verifier::external_body]
pub(crate) fn query_table_columns(conn: &rusqlite::Connection, table_name: &str) -> (r: Result<
    Vec<(u32, String, String, bool, Option<String>, bool)>,
    rusqlite::Error,
>)
    ensures
        r matches Ok(v) ==> forall|i: int, j: int|
            0 <= i < j < v@.len() ==> v@[i].0 <= v@[j].0,
{
    let sql = "SELECT c.cid, c.name, c.type, c.'notnull', c.dflt_value, c.pk FROM sqlite_master AS t JOIN pragma_table_info(t.name) AS c WHERE t.name = ? ORDER BY t.name, c.cid";
    let mut stmt = conn.prepare(sql)?;
    let rows = stmt.query_map(
        [table_name],
        |row| {
            Ok((row.get(0)?, row.get(1)?, row.get(2)?, row.get(3)?, row.get(4)?, row.get(5)?))
        },
    )?;
    rows.collect()
}

/// Relies on `Connection::prepare` and `Statement::query_map` over the given
/// database's `sqlite_master` joined with `pragma_foreign_key_list`: yields
/// one `(declaring table, referenced table)` pair per foreign-key column, in
/// catalog emission order with ties broken by declaring-table name ascending.
#[verifier::external_body]
pub(crate) fn query_foreign_keys(conn: &rusqlite::Connection, db_name: &str) -> Result<
    Vec<(String, String)>,
    rusqlite::Error,
> {
    let sql = format!(
        "SELECT source.name, sink.'table' FROM '{}'.sqlite_master AS source JOIN pragma_foreign_key_list(source.name) AS sink ORDER BY source.name",
        db_name,
    );
    let mut stmt = conn.prepare(&sql)?;
    let rows = stmt.query_map([], |row| Ok((row.get(0)?, row.get(1)?)))?;
    rows.collect()
}

/// Relies on `rusqlite::Error`'s `Display` implementation: a human-readable
/// description of the failure, with its underlying cause.
#[verifier::external_body]
pub(crate) fn describe_error(e: &rusqlite::Error) -> String {
    format!("{}", e)
}

} // verus!
