use gemiprint_sync::gateway::{delete_sql, insert_sql, record_id_for_insert, update_sql};
use gemiprint_sync::dispatch::Dispatcher;
use gemiprint_sync::entry::{LogEntry, SyncOperation};
use gemiprint_sync::hex::encode;
use gemiprint_sync::reader::{count_pending, select_batch, BATCH_SIZE};
use gemiprint_sync::reconcile::{apply_results, tally, SyncResult};
use gemiprint_sync::remote::{
    operation_kind, outcome_of, plan_request, HttpMethod, MissingField, OperationKind, RemoteResponse,
    SupabaseConfig, SyncFailure,
};
use gemiprint_sync::session::{begin_session, pending_work, summarize, SessionOutcome};
use gemiprint_sync::store::{
    batch_from, count_pending_sync, entries_of_rows, get_operations_for_sync, insert_params, load_session_batch,
    new_entry, pending_total, queue_sync_operation, status_params, table_exists, table_present, update_sync_status,
};
use gemiprint_sync::text::compare_text;

fn entry(id: &str, created_at: &str, status: &str) -> LogEntry {
    let mut e = new_entry(
        id.to_string(),
        "invoices".to_string(),
        "insert".to_string(),
        None,
        Some("{}".to_string()),
        created_at.to_string(),
    );
    e.status = status.to_string();
    e
}

fn op(operation: &str, record_id: Option<&str>, data: Option<&str>) -> SyncOperation {
    SyncOperation {
        id: "op-1".to_string(),
        table_name: "clients".to_string(),
        operation: operation.to_string(),
        record_id: record_id.map(|s| s.to_string()),
        data: data.map(|s| s.to_string()),
    }
}

fn config() -> SupabaseConfig {
    SupabaseConfig { url: "https://example.test".to_string(), anon_key: "k123".to_string() }
}

/// Runs a whole batch through a dispatcher whose remote answers every call
/// with `code`, counting the calls made.
fn run_with_stub(batch: Vec<SyncOperation>, code: u16) -> (Vec<(String, Result<(), SyncFailure>)>, usize) {
    let mut d = Dispatcher::new(batch, config());
    let mut calls = 0;
    while let Some(_req) = d.next_request() {
        calls += 1;
        d.complete(RemoteResponse::Status { code, body: "stub".to_string() });
    }
    (d.into_results(), calls)
}

#[test]
fn hex_encodes_two_digits_per_byte() {
    assert_eq!(encode(&[0x00, 0xff, 0x1a, 0x09]), "00ff1a09");
    assert_eq!(encode(&[]), "");
}

#[test]
fn text_comparison_is_lexicographic() {
    assert!(compare_text("2024-01-01", "2024-01-02") < 0);
    assert!(compare_text("abc", "ab") > 0);
    assert_eq!(compare_text("same", "same"), 0);
    assert!(compare_text("", "a") < 0);
}

#[test]
fn batch_is_ordered_by_time_then_id() {
    let rows = vec![
        entry("c", "2024-01-02T00:00:00Z", "pending"),
        entry("b", "2024-01-01T00:00:00Z", "pending"),
        entry("a", "2024-01-02T00:00:00Z", "pending"),
        entry("d", "2023-12-31T00:00:00Z", "pending"),
    ];
    let batch = select_batch(&rows, 10);
    let ids: Vec<&str> = batch.iter().map(|e| e.id.as_str()).collect();
    assert_eq!(ids, vec!["d", "b", "a", "c"]);
    let capped = select_batch(&rows, 2);
    let ids: Vec<&str> = capped.iter().map(|e| e.id.as_str()).collect();
    assert_eq!(ids, vec!["d", "b"]);
    assert!(select_batch(&rows, 0).is_empty());
}

#[test]
fn resolved_entries_are_never_selected() {
    let rows = vec![
        entry("a", "2024-01-01T00:00:00Z", "synced"),
        entry("b", "2024-01-02T00:00:00Z", "failed"),
        entry("c", "2024-01-03T00:00:00Z", "pending"),
    ];
    let batch = select_batch(&rows, 50);
    assert_eq!(batch.len(), 1);
    assert_eq!(batch[0].id, "c");
    assert_eq!(count_pending(&rows), 1);
}

#[test]
fn empty_log_gives_empty_batch() {
    let rows: Vec<LogEntry> = Vec::new();
    assert!(select_batch(&rows, 50).is_empty());
    assert_eq!(count_pending(&rows), 0);
}

#[test]
fn missing_record_id_is_malformed_without_a_call() {
    for kind in ["update", "delete"] {
        let batch = vec![op(kind, None, Some("{\"a\":1}"))];
        let (results, calls) = run_with_stub(batch, 201);
        assert_eq!(calls, 0);
        assert_eq!(results.len(), 1);
        assert!(matches!(
            results[0].1,
            Err(SyncFailure::MalformedEntry { missing: MissingField::RecordId })
        ));
    }
}

#[test]
fn missing_payload_and_unknown_operation_fail_without_a_call() {
    let batch = vec![op("insert", None, None), op("upsert", Some("x"), Some("{}")), op("update", Some("x"), Some("not json"))];
    let (results, calls) = run_with_stub(batch, 201);
    assert_eq!(calls, 0);
    assert!(matches!(results[0].1, Err(SyncFailure::MalformedEntry { missing: MissingField::Payload })));
    assert!(matches!(&results[1].1, Err(SyncFailure::UnknownOperation { operation }) if operation == "upsert"));
    assert!(matches!(results[2].1, Err(SyncFailure::InvalidPayload { .. })));
}

#[test]
fn insert_request_shape() {
    let req = plan_request(&op("insert", None, Some("{\"amount\":100}")), &config()).ok().unwrap();
    assert_eq!(req.method, HttpMethod::Post);
    assert_eq!(req.url, "https://example.test/rest/v1/clients");
    let headers: Vec<(String, String)> = req.headers.iter().map(|h| (h.name.clone(), h.value.clone())).collect();
    assert_eq!(
        headers,
        vec![
            ("apikey".to_string(), "k123".to_string()),
            ("Authorization".to_string(), "Bearer k123".to_string()),
            ("Content-Type".to_string(), "application/json".to_string()),
            ("Prefer".to_string(), "return=minimal".to_string()),
        ]
    );
    assert_eq!(serde_json::to_string(&req.body.unwrap()).unwrap(), "{\"amount\":100}");
}

#[test]
fn update_and_delete_request_shape() {
    let req = plan_request(&op("update", Some("abc"), Some("{\"x\":true}")), &config()).ok().unwrap();
    assert_eq!(req.method, HttpMethod::Patch);
    assert_eq!(req.url, "https://example.test/rest/v1/clients?id=eq.abc");
    assert_eq!(req.headers.len(), 4);
    let req = plan_request(&op("delete", Some("abc"), None), &config()).ok().unwrap();
    assert_eq!(req.method, HttpMethod::Delete);
    assert_eq!(req.url, "https://example.test/rest/v1/clients?id=eq.abc");
    assert_eq!(req.headers.len(), 3);
    assert!(req.body.is_none());
}

#[test]
fn operation_kinds() {
    assert_eq!(operation_kind("insert"), Some(OperationKind::Insert));
    assert_eq!(operation_kind("update"), Some(OperationKind::Update));
    assert_eq!(operation_kind("delete"), Some(OperationKind::Delete));
    assert_eq!(operation_kind("Insert"), None);
}

#[test]
fn responses_map_to_outcomes() {
    assert!(outcome_of(RemoteResponse::Status { code: 201, body: String::new() }).is_ok());
    assert!(outcome_of(RemoteResponse::Status { code: 299, body: String::new() }).is_ok());
    match outcome_of(RemoteResponse::Status { code: 404, body: "missing".to_string() }) {
        Err(SyncFailure::RemoteRejected { body }) => assert_eq!(body, "missing"),
        _ => panic!("expected a rejection"),
    }
    match outcome_of(RemoteResponse::Transport { detail: "dns".to_string() }) {
        Err(SyncFailure::Transport { detail }) => assert_eq!(detail, "dns"),
        _ => panic!("expected a transport failure"),
    }
}

#[test]
fn failure_texts() {
    assert_eq!(SyncFailure::RemoteRejected { body: "no".to_string() }.describe(), "Remote rejected the request: no");
    assert_eq!(SyncFailure::UnknownOperation { operation: "x".to_string() }.describe(), "Unknown operation: x");
}

#[test]
fn tally_counts_written_successes() {
    let results = vec![
        ("a".to_string(), Ok(())),
        ("b".to_string(), Err(SyncFailure::Transport { detail: "t".to_string() })),
        ("c".to_string(), Ok(())),
    ];
    assert_eq!(tally(&results, &vec![true, true, false]), SyncResult { synced: 1, failed: 2 });
}

#[test]
fn summary_messages() {
    let s = summarize(&SessionOutcome::Completed(SyncResult { synced: 12, failed: 0 }));
    assert_eq!((s.synced, s.failed), (12, 0));
    assert_eq!(s.message, "Synced 12 operations, 0 failed");
    let s = summarize(&SessionOutcome::NotConfigured);
    assert_eq!((s.synced, s.failed), (0, 0));
    assert_eq!(s.message, "Supabase not configured (missing NEXT_PUBLIC_SUPABASE_URL or NEXT_PUBLIC_SUPABASE_ANON_KEY)");
    assert_eq!(summarize(&SessionOutcome::NoPendingWork { table_missing: true }).message, "No sync queue table found");
    assert_eq!(summarize(&SessionOutcome::NoPendingWork { table_missing: false }).message, "No pending operations");
}

#[test]
fn count_without_log_table_is_zero() {
    let conn = rusqlite::Connection::open_in_memory().unwrap();
    assert_eq!(table_exists(&conn), Ok(false));
    assert_eq!(count_pending_sync(&conn), Ok(0));
    assert!(get_operations_for_sync(&conn).unwrap().is_empty());
}

#[test]
fn insert_scenario_syncs_once() {
    let conn = rusqlite::Connection::open_in_memory().unwrap();
    queue_sync_operation(&conn, "invoices".to_string(), "insert".to_string(), Some("{\"amount\":100}".to_string()), None).unwrap();
    assert_eq!(count_pending_sync(&conn), Ok(1));
    let batch = get_operations_for_sync(&conn).unwrap();
    let mut d = match begin_session(batch, Some(config())) {
        Ok(d) => d,
        Err(_) => panic!("session should start"),
    };
    let mut posts = 0;
    while let Some(req) = d.next_request() {
        assert_eq!(req.method, HttpMethod::Post);
        assert_eq!(req.url, "https://example.test/rest/v1/invoices");
        posts += 1;
        d.complete(RemoteResponse::Status { code: 201, body: String::new() });
    }
    assert_eq!(posts, 1);
    let r = update_sync_status(&conn, d.into_results()).unwrap();
    assert_eq!(r, SyncResult { synced: 1, failed: 0 });
    assert_eq!(count_pending_sync(&conn), Ok(0));

    // A second session finds nothing to do.
    let batch = get_operations_for_sync(&conn).unwrap();
    match begin_session(batch, Some(config())) {
        Err(outcome) => {
            assert!(matches!(outcome, SessionOutcome::NoPendingWork { table_missing: false }));
            let s = summarize(&outcome);
            assert_eq!((s.synced, s.failed), (0, 0));
        }
        Ok(_) => panic!("nothing should be pending"),
    }
}

#[test]
fn delete_scenario_without_configuration_stays_pending() {
    let conn = rusqlite::Connection::open_in_memory().unwrap();
    queue_sync_operation(&conn, "clients".to_string(), "delete".to_string(), None, Some("abc".to_string())).unwrap();
    let batch = get_operations_for_sync(&conn).unwrap();
    assert_eq!(batch.len(), 1);
    assert_eq!(batch[0].record_id.as_deref(), Some("abc"));
    assert!(SupabaseConfig::from_values(Some("u".to_string()), None).is_none());
    match begin_session(batch, None) {
        Err(outcome) => assert!(matches!(outcome, SessionOutcome::NotConfigured)),
        Ok(_) => panic!("no remote is configured"),
    }
    assert_eq!(count_pending_sync(&conn), Ok(1));
}

#[test]
fn failed_entries_are_not_retried() {
    let conn = rusqlite::Connection::open_in_memory().unwrap();
    queue_sync_operation(&conn, "clients".to_string(), "insert".to_string(), Some("{}".to_string()), None).unwrap();
    let batch = get_operations_for_sync(&conn).unwrap();
    let (results, calls) = run_with_stub(batch, 500);
    assert_eq!(calls, 1);
    let r = update_sync_status(&conn, results).unwrap();
    assert_eq!(r, SyncResult { synced: 0, failed: 1 });
    assert_eq!(count_pending_sync(&conn), Ok(0));
    assert!(get_operations_for_sync(&conn).unwrap().is_empty());
}

#[test]
fn sixty_pending_leave_ten_after_one_session() {
    let conn = rusqlite::Connection::open_in_memory().unwrap();
    for i in 0..60 {
        queue_sync_operation(&conn, "invoices".to_string(), "insert".to_string(), Some(format!("{{\"n\":{}}}", i)), None).unwrap();
    }
    let batch = get_operations_for_sync(&conn).unwrap();
    assert_eq!(batch.len(), BATCH_SIZE);
    let (results, calls) = run_with_stub(batch, 201);
    assert_eq!(calls, 50);
    let r = update_sync_status(&conn, results).unwrap();
    assert_eq!(r, SyncResult { synced: 50, failed: 0 });
    assert_eq!(count_pending_sync(&conn), Ok(10));
}

#[test]
fn sixty_pending_in_memory_leave_ten() {
    let mut rows: Vec<LogEntry> = (0..60).map(|i| entry(&format!("id{:02}", i), &format!("2024-01-01T00:00:{:02}Z", i), "pending")).collect();
    let batch = select_batch(&rows, 50);
    assert_eq!(batch.len(), 50);
    assert_eq!(batch[0].id, "id00");
    assert_eq!(batch[49].id, "id49");
    let results: Vec<(String, Result<(), SyncFailure>)> = batch.iter().map(|e| (e.id.clone(), Ok(()))).collect();
    apply_results(&mut rows, &results, &"2024-02-01T00:00:00Z".to_string());
    assert_eq!(count_pending(&rows), 10);
    assert_eq!(rows[0].status, "synced");
    assert_eq!(rows[0].synced_at.as_deref(), Some("2024-02-01T00:00:00Z"));
    assert_eq!(rows[59].status, "pending");
    let failed = vec![("id50".to_string(), Err(SyncFailure::Transport { detail: "down".to_string() }))];
    apply_results(&mut rows, &failed, &"2024-02-02T00:00:00Z".to_string());
    assert_eq!(rows[50].status, "failed");
    assert_eq!(rows[50].error.as_deref(), Some("down"));
    assert_eq!(rows[50].data.as_deref(), Some("{}"));
    let next = select_batch(&rows, 50);
    assert_eq!(next.len(), 9);
    assert_eq!(next[0].id, "id51");
}

#[test]
fn gateway_statements() {
    let cols = vec!["id".to_string(), "name".to_string(), "total".to_string()];
    assert_eq!(insert_sql("invoices", &cols), "INSERT INTO invoices (id, name, total) VALUES (?, ?, ?)");
    assert_eq!(insert_sql("t", &Vec::new()), "INSERT INTO t () VALUES ()");
    assert_eq!(update_sql("invoices", &cols[1..].to_vec()), "UPDATE invoices SET name = ?, total = ? WHERE id = ?");
    assert_eq!(delete_sql("clients"), "DELETE FROM clients WHERE id = ?");
    assert_eq!(record_id_for_insert(Some("r1".to_string())), "r1");
    let fresh = record_id_for_insert(None);
    assert_eq!(fresh.len(), 36);
    assert_ne!(fresh, record_id_for_insert(None));
}

#[test]
fn second_session_does_nothing() {
    let conn = rusqlite::Connection::open_in_memory().unwrap();
    for table in ["a", "b", "c"] {
        queue_sync_operation(&conn, table.to_string(), "insert".to_string(), Some("{}".to_string()), None).unwrap();
    }
    let (results, calls) = run_with_stub(get_operations_for_sync(&conn).unwrap(), 200);
    assert_eq!(calls, 3);
    assert_eq!(update_sync_status(&conn, results).unwrap(), SyncResult { synced: 3, failed: 0 });
    let outcome = match begin_session(get_operations_for_sync(&conn).unwrap(), Some(config())) {
        Err(outcome) => outcome,
        Ok(_) => panic!("nothing should be pending"),
    };
    let s = summarize(&outcome);
    assert_eq!((s.synced, s.failed), (0, 0));
    assert_eq!(s.message, "No pending operations");
}

#[test]
fn stored_row_without_status_is_pending() {
    let e = gemiprint_sync::store::entry_from_row((
        "id".to_string(),
        "t".to_string(),
        "delete".to_string(),
        Some("r".to_string()),
        None,
        "2024-01-01T00:00:00Z".to_string(),
        None,
        None,
        None,
    ));
    assert_eq!(e.status, "pending");
    assert!(e.pending());
    assert_eq!(e.record_id.as_deref(), Some("r"));
}

#[test]
fn statement_parameters() {
    let mut e = new_entry("e1".to_string(), "clients".to_string(), "update".to_string(), Some("r9".to_string()), Some("{}".to_string()), "2024-03-01T10:00:00Z".to_string());
    let p = insert_params(&e);
    assert_eq!(
        p,
        vec![
            Some("e1".to_string()),
            Some("clients".to_string()),
            Some("update".to_string()),
            Some("r9".to_string()),
            Some("{}".to_string()),
            Some("2024-03-01T10:00:00Z".to_string()),
            Some("pending".to_string()),
        ]
    );
    e.record_id = None;
    assert_eq!(insert_params(&e)[3], None);
    let now = "2024-03-02T00:00:00Z".to_string();
    assert_eq!(
        status_params(&"e1".to_string(), &Ok(()), &now),
        vec![Some("synced".to_string()), Some(now.clone()), None, Some("e1".to_string())]
    );
    assert_eq!(
        status_params(&"e2".to_string(), &Err(SyncFailure::Transport { detail: "timeout".to_string() }), &now),
        vec![Some("failed".to_string()), Some(now.clone()), Some("timeout".to_string()), Some("e2".to_string())]
    );
}

#[test]
fn table_answers_and_totals() {
    assert_eq!(table_present(Ok(1)), Ok(true));
    assert_eq!(table_present(Ok(0)), Ok(false));
    assert!(table_present(Err(rusqlite::Error::QueryReturnedNoRows)).is_err());
    let rows = vec![
        entry("a", "2024-01-01T00:00:00Z", "pending"),
        entry("b", "2024-01-02T00:00:00Z", "synced"),
        entry("c", "2024-01-03T00:00:00Z", "pending"),
    ];
    assert_eq!(pending_total(false, &rows), 0);
    assert_eq!(pending_total(true, &rows), 2);
    assert!(batch_from(false, &rows).is_empty());
    let ops: Vec<String> = batch_from(true, &rows).into_iter().map(|o| o.id).collect();
    assert_eq!(ops, vec!["a".to_string(), "c".to_string()]);
}

#[test]
fn rows_become_entries_in_order() {
    let row = |id: &str, status: Option<&str>| {
        (
            id.to_string(),
            "t".to_string(),
            "insert".to_string(),
            None,
            Some("{}".to_string()),
            "2024-01-01T00:00:00Z".to_string(),
            None,
            status.map(|s| s.to_string()),
            None,
        )
    };
    let entries = entries_of_rows(vec![row("x", Some("failed")), row("y", None), row("z", Some("pending"))]);
    let ids: Vec<&str> = entries.iter().map(|e| e.id.as_str()).collect();
    assert_eq!(ids, vec!["x", "y", "z"]);
    assert_eq!(entries[0].status, "failed");
    assert_eq!(entries[1].status, "pending");
}

#[test]
fn session_work_is_told_apart() {
    assert!(matches!(pending_work(None), Err(SessionOutcome::NoPendingWork { table_missing: true })));
    assert!(matches!(pending_work(Some(Vec::new())), Err(SessionOutcome::NoPendingWork { table_missing: false })));
    let work = pending_work(Some(vec![op("insert", None, Some("{}"))]));
    assert_eq!(work.ok().unwrap().len(), 1);
    let conn = rusqlite::Connection::open_in_memory().unwrap();
    assert!(load_session_batch(&conn).unwrap().is_none());
}

#[test]
fn table_without_error_column_still_works() {
    let conn = rusqlite::Connection::open_in_memory().unwrap();
    conn.execute_batch(
        "CREATE TABLE sync_queue (id TEXT PRIMARY KEY, table_name TEXT NOT NULL, operation TEXT NOT NULL, record_id TEXT, data TEXT, created_at TEXT NOT NULL, synced_at TEXT, status TEXT DEFAULT 'pending');
         INSERT INTO sync_queue (id, table_name, operation, record_id, data, created_at) VALUES ('old1', 'clients', 'delete', 'abc', NULL, '2024-01-01T00:00:00Z');",
    )
    .unwrap();
    assert_eq!(count_pending_sync(&conn), Ok(1));
    let batch = get_operations_for_sync(&conn).unwrap();
    assert_eq!(batch.len(), 1);
    let (results, calls) = run_with_stub(batch, 404);
    assert_eq!(calls, 1);
    assert_eq!(update_sync_status(&conn, results).unwrap(), SyncResult { synced: 0, failed: 1 });
    assert_eq!(count_pending_sync(&conn), Ok(0));
    let error: Option<String> = conn.query_row("SELECT error FROM sync_queue WHERE id = 'old1'", [], |r| r.get(0)).unwrap();
    assert_eq!(error.as_deref(), Some("Remote rejected the request: stub"));
}

#[test]
fn enqueue_returns_the_stored_entry() {
    let conn = rusqlite::Connection::open_in_memory().unwrap();
    let e = queue_sync_operation(&conn, "clients".to_string(), "update".to_string(), Some("{\"a\":1}".to_string()), Some("abc".to_string())).unwrap();
    assert_eq!(e.table_name, "clients");
    assert_eq!(e.operation, "update");
    assert_eq!(e.record_id.as_deref(), Some("abc"));
    assert_eq!(e.data.as_deref(), Some("{\"a\":1}"));
    assert_eq!(e.status, "pending");
    assert!(e.synced_at.is_none());
    assert_eq!(e.id.len(), 36);
    let batch = get_operations_for_sync(&conn).unwrap();
    assert_eq!(batch.len(), 1);
    assert_eq!(batch[0].id, e.id);
    assert_eq!(batch[0].record_id.as_deref(), Some("abc"));
}

#[test]
fn exactly_fifty_pending_leave_nothing_for_a_second_session() {
    let conn = rusqlite::Connection::open_in_memory().unwrap();
    for i in 0..50 {
        queue_sync_operation(&conn, "invoices".to_string(), "insert".to_string(), Some(format!("{{\"n\":{}}}", i)), None).unwrap();
    }
    let (results, calls) = run_with_stub(get_operations_for_sync(&conn).unwrap(), 201);
    assert_eq!(calls, 50);
    assert_eq!(update_sync_status(&conn, results).unwrap(), SyncResult { synced: 50, failed: 0 });
    assert!(matches!(
        pending_work(load_session_batch(&conn).unwrap()),
        Err(SessionOutcome::NoPendingWork { table_missing: false })
    ));
}
