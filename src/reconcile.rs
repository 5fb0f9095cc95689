use vstd::prelude::*;
use crate::entry::{clone_text, entry_wf, is_pending, same_key, status_failed, status_pending, status_synced, LogEntry};
use crate::reader::{covers, is_batch_of, lemma_batch_covers_all, pending_count};
use crate::remote::{failure_text, SyncFailure};
use crate::text::compare_text;

verus! {

/// Counts of a session: entries resolved as synced and as failed.
#[derive(Debug, Clone, Copy, PartialEq, Eq, Structural)]
pub struct SyncResult {
    pub synced: i32,
    pub failed: i32,
}

/// The outcome recorded for entry `id`: the first one in `results` that
/// names it.
pub open spec fn outcome_for(results: Seq<(String, Result<(), SyncFailure>)>, id: Seq<char>) -> Option<Result<(), SyncFailure>>
    decreases results.len(),
{
    if results.len() == 0 {
        None
    } else if results[0].0@ == id {
        Some(results[0].1)
    } else {
        outcome_for(results.drop_first(), id)
    }
}

/// The status text that an outcome leaves on its entry.
pub open spec fn resolved_status(outcome: Result<(), SyncFailure>) -> Seq<char> {
    match outcome {
        Ok(_) => status_synced(),
        Err(_) => status_failed(),
    }
}

/// The error text that an outcome leaves on its entry.
pub open spec fn resolved_error(outcome: Result<(), SyncFailure>) -> Option<Seq<char>> {
    match outcome {
        Ok(_) => None,
        Err(f) => Some(failure_text(f)),
    }
}

pub open spec fn text_view(o: Option<String>) -> Option<Seq<char>> {
    match o {
        Some(s) => Some(s@),
        None => None,
    }
}

/// `after` is `before` once resolved by `outcome` at time `now`; the
/// payload and every other field are kept.
pub open spec fn is_resolution(before: LogEntry, after: LogEntry, outcome: Result<(), SyncFailure>, now: Seq<char>) -> bool {
    &&& after.id == before.id
    &&& after.table_name == before.table_name
    &&& after.operation == before.operation
    &&& after.record_id == before.record_id
    &&& after.data == before.data
    &&& after.created_at == before.created_at
    &&& after.status@ == resolved_status(outcome)
    &&& text_view(after.synced_at) == Some(now)
    &&& text_view(after.error) == resolved_error(outcome)
}

/// A pending entry named by the results is resolved by its outcome; every
/// other entry is left as it was.
pub open spec fn row_after(before: LogEntry, after: LogEntry, results: Seq<(String, Result<(), SyncFailure>)>, now: Seq<char>) -> bool {
    match outcome_for(results, before.id@) {
        Some(o) => if is_pending(before) {
            is_resolution(before, after, o, now)
        } else {
            after == before
        },
        None => after == before,
    }
}

/// Resolution is one-way: an entry that is already synced or failed is
/// left exactly as it was, whatever the results say.
pub proof fn lemma_resolved_entry_unchanged(
    before: LogEntry,
    after: LogEntry,
    results: Seq<(String, Result<(), SyncFailure>)>,
    now: Seq<char>,
)
    requires
        row_after(before, after, results, now),
        !is_pending(before),
    ensures
        after == before,
{
}

/// Status and error text that an outcome leaves on its entry.
pub fn resolution_fields(outcome: &Result<(), SyncFailure>) -> (r: (String, Option<String>))
    ensures
        r.0@ == resolved_status(*outcome),
        text_view(r.1) == resolved_error(*outcome),
{
    proof {
        reveal_strlit("synced");
        reveal_strlit("failed");
    }
    match outcome {
        Ok(_) => (String::from_str("synced"), None),
        Err(f) => (String::from_str("failed"), Some(f.describe())),
    }
}

fn find_outcome(results: &Vec<(String, Result<(), SyncFailure>)>, id: &String) -> (r: Option<usize>)
    ensures
        match r {
            Some(i) => i < results@.len() && outcome_for(results@, id@) == Some(results@[i as int].1),
            None => outcome_for(results@, id@) is None,
        },
{
    let mut i: usize = 0;
    assert(results@.subrange(0, results@.len() as int) =~= results@);
    while i < results.len()
        invariant
            i <= results@.len(),
            outcome_for(results@, id@) == outcome_for(results@.subrange(i as int, results@.len() as int), id@),
        decreases results@.len() - i,
    {
        let rest = Ghost(results@.subrange(i as int, results@.len() as int));
        if compare_text(results[i].0.as_str(), id.as_str()) == 0 {
            assert(rest@[0] == results@[i as int]);
            return Some(i);
        }
        assert(rest@.drop_first() =~= results@.subrange(i + 1, results@.len() as int));
        i = i + 1;
    }
    None
}

/// Resolves the entry with the outcome, at time `now`.
pub fn resolve_entry(entry: &LogEntry, outcome: &Result<(), SyncFailure>, now: &String) -> (r: LogEntry)
    ensures
        is_resolution(*entry, r, *outcome, now@),
        entry_wf(r),
{
    proof {
        lemma_status_texts_distinct();
    }
    let (status, error) = resolution_fields(outcome);
    LogEntry {
        id: entry.id.clone(),
        table_name: entry.table_name.clone(),
        operation: entry.operation.clone(),
        record_id: clone_text(&entry.record_id),
        data: clone_text(&entry.data),
        created_at: entry.created_at.clone(),
        synced_at: Some(now.clone()),
        status,
        error,
    }
}

/// Writes the outcomes of a session back onto the log held in memory:
/// each pending entry named by an outcome becomes synced or failed, with
/// `now` as its resolution time. Resolved entries never change again.
pub fn apply_results(rows: &mut Vec<LogEntry>, results: &Vec<(String, Result<(), SyncFailure>)>, now: &String)
    ensures
        final(rows)@.len() == old(rows)@.len(),
        forall|j: int| 0 <= j < old(rows)@.len() ==> row_after(old(rows)@[j], #[trigger] final(rows)@[j], results@, now@),
        (forall|j: int| 0 <= j < old(rows)@.len() ==> entry_wf(#[trigger] old(rows)@[j]))
            ==> forall|j: int| 0 <= j < final(rows)@.len() ==> entry_wf(#[trigger] final(rows)@[j]),
{
    let mut j: usize = 0;
    while j < rows.len()
        invariant
            j <= rows@.len(),
            rows@.len() == old(rows)@.len(),
            forall|k: int| 0 <= k < j ==> row_after(old(rows)@[k], #[trigger] rows@[k], results@, now@),
            forall|k: int| 0 <= k < j && entry_wf(old(rows)@[k]) ==> entry_wf(#[trigger] rows@[k]),
            forall|k: int| j <= k < rows@.len() ==> rows@[k] == old(rows)@[k],
        decreases rows@.len() - j,
    {
        if rows[j].pending() {
            match find_outcome(results, &rows[j].id) {
                Some(i) => {
                    let resolved = resolve_entry(&rows[j], &results[i].1, now);
                    rows.set(j, resolved);
                },
                None => {},
            }
        }
        j = j + 1;
    }
}

/// Counts the outcomes of a session. An entry counts as synced when its
/// call succeeded and its status was written back; every other entry
/// counts as failed.
pub open spec fn count_synced(results: Seq<(String, Result<(), SyncFailure>)>, written: Seq<bool>) -> nat
    decreases results.len(),
{
    if results.len() == 0 || written.len() == 0 {
        0
    } else {
        count_synced(results.drop_last(), written.drop_last())
            + if results.last().1 is Ok && written.last() { 1nat } else { 0nat }
    }
}

/// Aggregates the outcomes of a session with whether each one's write-back
/// succeeded.
pub fn tally(results: &Vec<(String, Result<(), SyncFailure>)>, written: &Vec<bool>) -> (r: SyncResult)
    requires
        written@.len() == results@.len(),
        results@.len() <= i32::MAX,
    ensures
        r.synced == count_synced(results@, written@),
        r.synced + r.failed == results@.len(),
{
    let mut synced: i32 = 0;
    let mut failed: i32 = 0;
    let mut i: usize = 0;
    while i < results.len()
        invariant
            i <= results@.len(),
            written@.len() == results@.len(),
            results@.len() <= i32::MAX,
            synced == count_synced(results@.subrange(0, i as int), written@.subrange(0, i as int)),
            synced + failed == i,
            synced >= 0,
            failed >= 0,
        decreases results@.len() - i,
    {
        proof {
            assert(results@.subrange(0, i + 1).drop_last() =~= results@.subrange(0, i as int));
            assert(written@.subrange(0, i + 1).drop_last() =~= written@.subrange(0, i as int));
        }
        if results[i].1.is_ok() && written[i] {
            synced = synced + 1;
        } else {
            failed = failed + 1;
        }
        i = i + 1;
    }
    assert(results@.subrange(0, i as int) =~= results@);
    assert(written@.subrange(0, i as int) =~= written@);
    SyncResult { synced, failed }
}

proof fn lemma_outcome_found(results: Seq<(String, Result<(), SyncFailure>)>, k: int, id: Seq<char>)
    requires
        0 <= k < results.len(),
        results[k].0@ == id,
    ensures
        outcome_for(results, id) is Some,
    decreases results.len(),
{
    if results[0].0@ != id {
        assert(results.drop_first()[k - 1] == results[k]);
        lemma_outcome_found(results.drop_first(), k - 1, id);
    }
}

proof fn lemma_status_texts_distinct()
    ensures
        status_synced() != status_pending(),
        status_failed() != status_pending(),
{
    reveal_strlit("pending");
    reveal_strlit("synced");
    reveal_strlit("failed");
    assert(status_synced()[0] != status_pending()[0]);
    assert(status_failed()[0] != status_pending()[0]);
}

proof fn lemma_row_after_not_pending(
    rows: Seq<LogEntry>,
    batch: Seq<LogEntry>,
    results: Seq<(String, Result<(), SyncFailure>)>,
    now: Seq<char>,
    p: LogEntry,
    q: LogEntry,
)
    requires
        is_pending(p) ==> covers(batch, p),
        results.len() == batch.len(),
        forall|i: int| 0 <= i < results.len() ==> (#[trigger] results[i]).0@ == batch[i].id@,
        row_after(p, q, results, now),
    ensures
        !is_pending(q),
{
    lemma_status_texts_distinct();
    if is_pending(p) {
        let k = choose|k: int| 0 <= k < batch.len() && same_key(#[trigger] batch[k], p);
        assert(results[k].0@ == p.id@);
        lemma_outcome_found(results, k, p.id@);
    }
}

/// No entry delivered in one session is selected again by the next: every
/// row whose id has an outcome is synced or failed once the outcomes are
/// written back, whatever they were.
pub proof fn lemma_next_batch_resends_nothing(
    rows: Seq<LogEntry>,
    results: Seq<(String, Result<(), SyncFailure>)>,
    now: Seq<char>,
    after: Seq<LogEntry>,
    max: nat,
    next: Seq<LogEntry>,
)
    requires
        after.len() == rows.len(),
        forall|j: int| 0 <= j < rows.len() ==> row_after(rows[j], #[trigger] after[j], results, now),
        is_batch_of(after, max, next),
    ensures
        forall|i: int, k: int| 0 <= i < next.len() && 0 <= k < results.len() ==> (#[trigger] next[i]).id@ != (#[trigger] results[k]).0@,
{
    lemma_status_texts_distinct();
    assert forall|i: int, k: int| 0 <= i < next.len() && 0 <= k < results.len()
        implies (#[trigger] next[i]).id@ != (#[trigger] results[k]).0@ by {
        if next[i].id@ == results[k].0@ {
            let m = choose|m: int| 0 <= m < after.len() && after[m] == next[i];
            assert(row_after(rows[m], after[m], results, now));
            lemma_outcome_found(results, k, rows[m].id@);
            assert(is_pending(after[m]));
        }
    }
}

/// Once a batch taken from a log with at most `max` pending entries has
/// been resolved, no entry is pending any more, so the next selection is
/// empty: running a session again without new entries does nothing.
pub proof fn lemma_resolved_batch_leaves_nothing_pending(
    rows: Seq<LogEntry>,
    max: nat,
    batch: Seq<LogEntry>,
    results: Seq<(String, Result<(), SyncFailure>)>,
    now: Seq<char>,
    after: Seq<LogEntry>,
    next: Seq<LogEntry>,
)
    requires
        is_batch_of(rows, max, batch),
        pending_count(rows) <= max,
        results.len() == batch.len(),
        forall|i: int| 0 <= i < results.len() ==> (#[trigger] results[i]).0@ == batch[i].id@,
        after.len() == rows.len(),
        forall|j: int| 0 <= j < rows.len() ==> row_after(rows[j], #[trigger] after[j], results, now),
        is_batch_of(after, max, next),
    ensures
        forall|j: int| 0 <= j < after.len() ==> !is_pending(#[trigger] after[j]),
        next.len() == 0,
{
    lemma_batch_covers_all(rows, max, batch);
    assert forall|j: int| 0 <= j < after.len() implies !is_pending(#[trigger] after[j]) by {
        assert(row_after(rows[j], after[j], results, now));
        lemma_row_after_not_pending(rows, batch, results, now, rows[j], after[j]);
    }
    if next.len() > 0 {
        assert(is_pending(next[0]));
    }
}

} // verus!
