use vstd::prelude::*;
use crate::entry::{clone_text, entry_wf, is_pending, operation_of, LogEntry, SyncOperation};
use crate::reader::{count_pending, is_batch_of, pending_count, select_batch, BATCH_SIZE};
use crate::reconcile::{count_synced, is_resolution, resolution_fields, resolved_error, resolved_status, tally, text_view, SyncResult};
use crate::remote::SyncFailure;

verus! {

#[verifier::external_type_specification]
#[verifier::external_body]
pub struct ExConnection(rusqlite::Connection);

#[verifier::external_type_specification]
#[verifier::external_body]
pub struct ExStoreError(rusqlite::Error);

/// The columns of one log row, in table order: id, table_name, operation,
/// record_id, data, created_at, synced_at, status, error.
pub type RowFields = (String, String, String, Option<String>, Option<String>, String, Option<String>, Option<String>, Option<String>);

/// Relies on `rusqlite::Connection::execute`: runs one statement with the
/// given text parameters and reports the number of rows changed.
#[verifier::external_body]
fn run_statement(conn: &rusqlite::Connection, sql: &str, params: &Vec<Option<String>>) -> (r: Result<usize, rusqlite::Error>) {
    conn.execute(sql, rusqlite::params_from_iter(params.iter()))
}

/// Relies on `rusqlite::Connection::prepare` and `Statement::query_map`:
/// reads every row of a query whose nine columns are the log's columns.
#[verifier::external_body]
fn query_rows(conn: &rusqlite::Connection, sql: &str) -> (r: Result<Vec<RowFields>, rusqlite::Error>) {
    let mut stmt = conn.prepare(sql)?;
    let rows = stmt.query_map([], |row| {
        Ok((row.get(0)?, row.get(1)?, row.get(2)?, row.get(3)?, row.get(4)?, row.get(5)?, row.get(6)?, row.get(7)?, row.get(8)?))
    })?;
    rows.collect()
}

/// Relies on `rusqlite::Connection::query_row`: the first column of the
/// first row of a query, read as an integer.
#[verifier::external_body]
fn query_number(conn: &rusqlite::Connection, sql: &str) -> (r: Result<i64, rusqlite::Error>) {
    conn.query_row(sql, [], |row| row.get(0))
}

/// Relies on the `Display` impl of `rusqlite::Error`: a description of a
/// store error.
#[verifier::external_body]
fn store_error_text(e: &rusqlite::Error) -> String {
    e.to_string()
}

/// Relies on `chrono::Utc::now` and `DateTime::to_rfc3339`: the current UTC
/// time as ISO-8601 text.
#[verifier::external_body]
fn utc_now_text() -> String {
    chrono::Utc::now().to_rfc3339()
}

/// Relies on `uuid::Uuid::new_v4`: a fresh random identifier, as text.
#[verifier::external_body]
pub(crate) fn fresh_entry_id() -> String {
    uuid::Uuid::new_v4().to_string()
}

/// A new pending entry.
pub fn new_entry(
    id: String,
    table_name: String,
    operation: String,
    record_id: Option<String>,
    data: Option<String>,
    created_at: String,
) -> (e: LogEntry)
    ensures
        e.id == id,
        e.table_name == table_name,
        e.operation == operation,
        e.record_id == record_id,
        e.data == data,
        e.created_at == created_at,
        e.synced_at is None,
        e.error is None,
        is_pending(e),
        entry_wf(e),
{
    proof {
        reveal_strlit("pending");
    }
    LogEntry {
        id,
        table_name,
        operation,
        record_id,
        data,
        created_at,
        synced_at: None,
        status: String::from_str("pending"),
        error: None,
    }
}

/// The entry that a stored row holds; a row without status is pending, as
/// the table's default says.
pub fn entry_from_row(row: RowFields) -> (e: LogEntry)
    ensures
        e.id == row.0,
        e.table_name == row.1,
        e.operation == row.2,
        e.record_id == row.3,
        e.data == row.4,
        e.created_at == row.5,
        e.synced_at == row.6,
        row.7 is Some ==> e.status == row.7->0,
        row.7 is None ==> is_pending(e),
        e.error == row.8,
{
    proof {
        reveal_strlit("pending");
    }
    let (id, table_name, operation, record_id, data, created_at, synced_at, status, error) = row;
    let status = match status {
        Some(s) => s,
        None => String::from_str("pending"),
    };
    LogEntry { id, table_name, operation, record_id, data, created_at, synced_at, status, error }
}

/// The part of each entry that the remote needs, in order.
pub fn operations_of(batch: &Vec<LogEntry>) -> (r: Vec<SyncOperation>)
    ensures
        r@ == batch@.map_values(|e: LogEntry| operation_of(e)),
{
    let mut ops: Vec<SyncOperation> = Vec::new();
    let mut i: usize = 0;
    while i < batch.len()
        invariant
            i <= batch@.len(),
            ops@ == batch@.subrange(0, i as int).map_values(|e: LogEntry| operation_of(e)),
        decreases batch@.len() - i,
    {
        ops.push(batch[i].to_operation());
        assert(batch@.subrange(0, i + 1) =~= batch@.subrange(0, i as int).push(batch@[i as int]));
        assert(ops@ =~= batch@.subrange(0, i + 1).map_values(|e: LogEntry| operation_of(e)));
        i = i + 1;
    }
    assert(batch@.subrange(0, i as int) =~= batch@);
    ops
}

/// The operations of the next batch of the rows: at most `max` pending
/// entries in dispatch order.
pub fn batch_operations(rows: &Vec<LogEntry>, max: usize) -> (r: Vec<SyncOperation>)
    ensures
        exists|batch: Seq<LogEntry>|
            is_batch_of(rows@, max as nat, batch) && r@ == batch.map_values(|e: LogEntry| operation_of(e)),
{
    let batch = select_batch(rows, max);
    operations_of(&batch)
}

/// `e` is the entry that `entry_from_row` makes of `row`.
pub open spec fn is_entry_of_row(row: RowFields, e: LogEntry) -> bool {
    &&& e.id == row.0
    &&& e.table_name == row.1
    &&& e.operation == row.2
    &&& e.record_id == row.3
    &&& e.data == row.4
    &&& e.created_at == row.5
    &&& e.synced_at == row.6
    &&& row.7 is Some ==> e.status == row.7->0
    &&& row.7 is None ==> is_pending(e)
    &&& e.error == row.8
}

/// The entries that stored rows hold, in the same order.
pub fn entries_of_rows(rows: Vec<RowFields>) -> (r: Vec<LogEntry>)
    ensures
        r@.len() == rows@.len(),
        forall|i: int| 0 <= i < rows@.len() ==> is_entry_of_row(rows@[i], #[trigger] r@[i]),
{
    let mut entries: Vec<LogEntry> = Vec::new();
    let mut rest = rows;
    while rest.len() > 0
        invariant
            rest@.len() + entries@.len() == rows@.len(),
            rest@ == rows@.subrange(entries@.len() as int, rows@.len() as int),
            forall|i: int| 0 <= i < entries@.len() ==> is_entry_of_row(rows@[i], #[trigger] entries@[i]),
        decreases rest@.len(),
    {
        let ghost k = entries@.len() as int;
        let row = rest.remove(0);
        proof {
            assert(row == rows@[k]);
            assert(rest@ =~= rows@.subrange(k + 1, rows@.len() as int));
        }
        entries.push(entry_from_row(row));
    }
    entries
}

/// Reads the answer to the question whether the log table exists: a count
/// of tables so named. A store that cannot answer is an error.
pub fn table_present(answer: Result<i64, rusqlite::Error>) -> (r: Result<bool, String>)
    ensures
        r is Ok <==> answer is Ok,
        r is Ok ==> r->Ok_0 == (answer->Ok_0 > 0),
{
    match answer {
        Ok(count) => Ok(count > 0),
        Err(e) => Err(store_error_text(&e)),
    }
}

/// The number of pending rows, capped at `i64::MAX`.
pub open spec fn capped_pending_count(rows: Seq<LogEntry>) -> int {
    if pending_count(rows) <= i64::MAX {
        pending_count(rows) as int
    } else {
        i64::MAX as int
    }
}

/// `ops` is the operations of a batch selected from some rows.
pub open spec fn is_selected_batch(ops: Seq<SyncOperation>) -> bool {
    exists|rows: Seq<LogEntry>, batch: Seq<LogEntry>|
        is_batch_of(rows, BATCH_SIZE as nat, batch) && ops == batch.map_values(|e: LogEntry| operation_of(e))
}

proof fn lemma_empty_is_selected_batch(ops: Seq<SyncOperation>)
    requires
        ops.len() == 0,
    ensures
        is_selected_batch(ops),
{
    let rows = Seq::<LogEntry>::empty();
    let batch = Seq::<LogEntry>::empty();
    assert(is_batch_of(rows, BATCH_SIZE as nat, batch));
    assert(ops =~= batch.map_values(|e: LogEntry| operation_of(e)));
}

/// The number of pending entries to report: zero where there is no log
/// table, else the count of pending rows, capped at `i64::MAX`.
pub fn pending_total(present: bool, rows: &Vec<LogEntry>) -> (r: i64)
    ensures
        !present ==> r == 0,
        present ==> r == capped_pending_count(rows@),
{
    if !present {
        return 0;
    }
    let n: usize = count_pending(rows);
    if (n as u128) > (i64::MAX as u128) {
        i64::MAX
    } else {
        n as i64
    }
}

/// The next batch of the rows: nothing where there is no log table, else
/// at most `BATCH_SIZE` pending entries in dispatch order.
pub fn batch_from(present: bool, rows: &Vec<LogEntry>) -> (r: Vec<SyncOperation>)
    ensures
        !present ==> r@.len() == 0,
        present ==> exists|batch: Seq<LogEntry>|
            is_batch_of(rows@, BATCH_SIZE as nat, batch) && r@ == batch.map_values(|e: LogEntry| operation_of(e)),
{
    if !present {
        return Vec::new();
    }
    batch_operations(rows, BATCH_SIZE)
}

/// The parameters of the statement that stores a new entry: id, collection,
/// operation, target record, payload, creation time and status.
pub fn insert_params(e: &LogEntry) -> (p: Vec<Option<String>>)
    ensures
        p@.len() == 7,
        text_view(p@[0]) == Some(e.id@),
        text_view(p@[1]) == Some(e.table_name@),
        text_view(p@[2]) == Some(e.operation@),
        text_view(p@[3]) == text_view(e.record_id),
        text_view(p@[4]) == text_view(e.data),
        text_view(p@[5]) == Some(e.created_at@),
        text_view(p@[6]) == Some(e.status@),
{
    let mut p: Vec<Option<String>> = Vec::new();
    p.push(Some(e.id.clone()));
    p.push(Some(e.table_name.clone()));
    p.push(Some(e.operation.clone()));
    p.push(clone_text(&e.record_id));
    p.push(clone_text(&e.data));
    p.push(Some(e.created_at.clone()));
    p.push(Some(e.status.clone()));
    p
}

/// The parameters of the statement that resolves entry `id` with its
/// outcome at time `now`: status, resolution time, error text and id.
pub fn status_params(id: &String, outcome: &Result<(), SyncFailure>, now: &String) -> (p: Vec<Option<String>>)
    ensures
        p@.len() == 4,
        text_view(p@[0]) == Some(resolved_status(*outcome)),
        text_view(p@[1]) == Some(now@),
        text_view(p@[2]) == resolved_error(*outcome),
        text_view(p@[3]) == Some(id@),
{
    let (status, error) = resolution_fields(outcome);
    let mut p: Vec<Option<String>> = Vec::new();
    p.push(Some(status));
    p.push(Some(now.clone()));
    p.push(error);
    p.push(Some(id.clone()));
    p
}

/// The write-back of an outcome sets the columns of its entry to exactly
/// the fields that resolving the entry in memory gives: status, resolution
/// time and error text, for the entry's id.
pub proof fn lemma_status_params_match_resolution(
    before: LogEntry,
    after: LogEntry,
    outcome: Result<(), SyncFailure>,
    now: Seq<char>,
    p: Seq<Option<String>>,
)
    requires
        is_resolution(before, after, outcome, now),
        p.len() == 4,
        text_view(p[0]) == Some(resolved_status(outcome)),
        text_view(p[1]) == Some(now),
        text_view(p[2]) == resolved_error(outcome),
        text_view(p[3]) == Some(before.id@),
    ensures
        text_view(p[0]) == Some(after.status@),
        text_view(p[1]) == text_view(after.synced_at),
        text_view(p[2]) == text_view(after.error),
        text_view(p[3]) == Some(after.id@),
{
}

/// Whether the log table has been created; an error where the store cannot
/// tell.
pub fn table_exists(conn: &rusqlite::Connection) -> (r: Result<bool, String>) {
    table_present(query_number(conn, "SELECT COUNT(*) FROM sqlite_master WHERE type='table' AND name='sync_queue'"))
}

/// Adds the column for failure texts to a log table created without it.
fn ensure_error_column(conn: &rusqlite::Connection) -> (r: Result<(), String>) {
    let no_params: Vec<Option<String>> = Vec::new();
    match query_number(conn, "SELECT COUNT(*) FROM pragma_table_info('sync_queue') WHERE name = 'error'") {
        Ok(n) => if n > 0 {
            Ok(())
        } else {
            match run_statement(conn, "ALTER TABLE sync_queue ADD COLUMN error TEXT", &no_params) {
                Ok(_) => Ok(()),
                Err(e) => Err(store_error_text(&e)),
            }
        },
        Err(e) => Err(store_error_text(&e)),
    }
}

/// Reads the pending rows of the log. A pending row carries no failure
/// text, so the error column is not read.
pub fn load_pending_rows(conn: &rusqlite::Connection) -> (r: Result<Vec<LogEntry>, String>) {
    match query_rows(
        conn,
        "SELECT id, table_name, operation, record_id, data, created_at, synced_at, status, NULL FROM sync_queue WHERE status IS NULL OR status = 'pending'",
    ) {
        Ok(rows) => Ok(entries_of_rows(rows)),
        Err(e) => Err(store_error_text(&e)),
    }
}

/// Appends a pending entry to the log, creating the log table on first use.
/// The entry gets a fresh id and the current time; the statement receives
/// the parameters of `insert_params` on that entry, which is returned.
pub fn queue_sync_operation(
    conn: &rusqlite::Connection,
    table: String,
    operation: String,
    data: Option<String>,
    record_id: Option<String>,
) -> (r: Result<LogEntry, String>)
    ensures
        r is Ok ==> {
            &&& r->Ok_0.table_name == table
            &&& r->Ok_0.operation == operation
            &&& r->Ok_0.record_id == record_id
            &&& r->Ok_0.data == data
            &&& r->Ok_0.synced_at is None
            &&& r->Ok_0.error is None
            &&& is_pending(r->Ok_0)
            &&& entry_wf(r->Ok_0)
        },
{
    let no_params: Vec<Option<String>> = Vec::new();
    if let Err(e) = run_statement(
        conn,
        "CREATE TABLE IF NOT EXISTS sync_queue (id TEXT PRIMARY KEY, table_name TEXT NOT NULL, operation TEXT NOT NULL, record_id TEXT, data TEXT, created_at TEXT NOT NULL, synced_at TEXT, status TEXT DEFAULT 'pending', error TEXT)",
        &no_params,
    ) {
        return Err(store_error_text(&e));
    }
    ensure_error_column(conn)?;
    let entry = new_entry(fresh_entry_id(), table, operation, record_id, data, utc_now_text());
    let params = insert_params(&entry);
    match run_statement(
        conn,
        "INSERT INTO sync_queue (id, table_name, operation, record_id, data, created_at, status) VALUES (?1, ?2, ?3, ?4, ?5, ?6, ?7)",
        &params,
    ) {
        Ok(_) => Ok(entry),
        Err(e) => Err(store_error_text(&e)),
    }
}

/// Number of pending entries; zero when the log table does not exist.
pub fn count_pending_sync(conn: &rusqlite::Connection) -> (r: Result<i64, String>)
    ensures
        r is Ok ==> exists|rows: Seq<LogEntry>| r->Ok_0 == capped_pending_count(rows),
{
    let present = table_exists(conn)?;
    let rows = if present {
        load_pending_rows(conn)?
    } else {
        Vec::new()
    };
    let total = pending_total(present, &rows);
    proof {
        if !present {
            assert(capped_pending_count(Seq::<LogEntry>::empty()) == 0);
        }
    }
    Ok(total)
}

/// The next batch to deliver, or `None` when the log table does not exist.
pub fn load_session_batch(conn: &rusqlite::Connection) -> (r: Result<Option<Vec<SyncOperation>>, String>)
    ensures
        r matches Ok(Some(b)) ==> b@.len() <= BATCH_SIZE && is_selected_batch(b@),
{
    if !table_exists(conn)? {
        return Ok(None);
    }
    let rows = load_pending_rows(conn)?;
    Ok(Some(batch_from(true, &rows)))
}

/// The next batch to deliver: at most `BATCH_SIZE` pending entries, oldest
/// first; empty when the log table does not exist.
pub fn get_operations_for_sync(conn: &rusqlite::Connection) -> (r: Result<Vec<SyncOperation>, String>)
    ensures
        r is Ok ==> r->Ok_0@.len() <= BATCH_SIZE && is_selected_batch(r->Ok_0@),
{
    let present = table_exists(conn)?;
    let rows = if present {
        load_pending_rows(conn)?
    } else {
        Vec::new()
    };
    let ops = batch_from(present, &rows);
    proof {
        if !present {
            lemma_empty_is_selected_batch(ops@);
        }
    }
    Ok(ops)
}

/// Writes each outcome back onto its entry, in order: synced, or failed
/// with the failure text, stamped with the current time, through the
/// parameters of `status_params`. A write-back that fails counts the entry
/// as failed and does not stop the others.
pub fn update_sync_status(conn: &rusqlite::Connection, results: Vec<(String, Result<(), SyncFailure>)>) -> (r: Result<SyncResult, String>)
    requires
        results@.len() <= i32::MAX,
    ensures
        r is Ok,
        r->Ok_0.synced + r->Ok_0.failed == results@.len(),
        exists|written: Seq<bool>| written.len() == results@.len() && r->Ok_0.synced == count_synced(results@, written),
{
    // Where the column cannot be added, every write-back below fails and
    // its entry counts as failed.
    let _ = ensure_error_column(conn);
    let now: String = utc_now_text();
    let mut written: Vec<bool> = Vec::new();
    let mut i: usize = 0;
    while i < results.len()
        invariant
            i <= results@.len(),
            written@.len() == i,
        decreases results@.len() - i,
    {
        let params = status_params(&results[i].0, &results[i].1, &now);
        let done = run_statement(
            conn,
            "UPDATE sync_queue SET status = ?1, synced_at = ?2, error = ?3 WHERE id = ?4 AND (status IS NULL OR status = 'pending')",
            &params,
        );
        written.push(done.is_ok());
        i = i + 1;
    }
    let r = tally(&results, &written);
    Ok(r)
}

} // verus!
