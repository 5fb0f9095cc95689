use vstd::prelude::*;
use vstd::set_lib::lemma_len_subset;
use crate::entry::{LogEntry, entry_wf, is_pending, key_lt, same_key, lemma_key_lt_irreflexive, lemma_key_lt_transitive, lemma_key_lt_total};

verus! {

/// Number of entries that one session takes from the queue.
pub const BATCH_SIZE: usize = 50;

/// Some entry of `batch` holds the same place in dispatch order as `e`.
pub open spec fn covers(batch: Seq<LogEntry>, e: LogEntry) -> bool {
    exists|k: int| 0 <= k < batch.len() && same_key(#[trigger] batch[k], e)
}

/// `e` is one of the rows.
pub open spec fn is_row_of(rows: Seq<LogEntry>, e: LogEntry) -> bool {
    exists|j: int| 0 <= j < rows.len() && rows[j] == e
}

/// Each entry of `batch` comes strictly before the next one.
pub open spec fn strictly_ordered(batch: Seq<LogEntry>) -> bool {
    forall|i: int, k: int| 0 <= i < k < batch.len() ==> key_lt(#[trigger] batch[i], #[trigger] batch[k])
}

/// `batch` is the selection of at most `max` pending rows, oldest first:
/// ordered by creation time and id, made only of pending rows, and holding
/// every pending row except, when it is full, those that come after all of it.
pub open spec fn is_batch_of(rows: Seq<LogEntry>, max: nat, batch: Seq<LogEntry>) -> bool {
    &&& batch.len() <= max
    &&& strictly_ordered(batch)
    &&& forall|i: int| 0 <= i < batch.len() ==> is_pending(#[trigger] batch[i]) && is_row_of(rows, batch[i])
    &&& forall|j: int| 0 <= j < rows.len() && is_pending(#[trigger] rows[j]) ==>
            covers(batch, rows[j]) || (batch.len() == max && forall|i: int| 0 <= i < batch.len() ==> key_lt(#[trigger] batch[i], rows[j]))
}

/// `e` is a candidate for the next place after `batch`.
pub open spec fn after_all(batch: Seq<LogEntry>, e: LogEntry) -> bool {
    batch.len() == 0 || key_lt(batch.last(), e)
}

/// Index of the earliest pending row that comes after every entry of `batch`.
fn next_oldest(rows: &Vec<LogEntry>, batch: &Vec<LogEntry>) -> (r: Option<usize>)
    ensures
        match r {
            Some(b) => {
                &&& b < rows@.len()
                &&& is_pending(rows@[b as int])
                &&& after_all(batch@, rows@[b as int])
                &&& forall|j: int| 0 <= j < rows@.len() && is_pending(#[trigger] rows@[j]) && after_all(batch@, rows@[j])
                        ==> !key_lt(rows@[j], rows@[b as int])
            },
            None => forall|j: int| 0 <= j < rows@.len() && is_pending(#[trigger] rows@[j]) ==> !after_all(batch@, rows@[j]),
        },
{
    let mut best: Option<usize> = None;
    let mut j: usize = 0;
    while j < rows.len()
        invariant
            j <= rows@.len(),
            match best {
                Some(b) => {
                    &&& b < rows@.len()
                    &&& is_pending(rows@[b as int])
                    &&& after_all(batch@, rows@[b as int])
                    &&& forall|k: int| 0 <= k < j && is_pending(#[trigger] rows@[k]) && after_all(batch@, rows@[k])
                            ==> !key_lt(rows@[k], rows@[b as int])
                },
                None => forall|k: int| 0 <= k < j && is_pending(#[trigger] rows@[k]) ==> !after_all(batch@, rows@[k]),
            },
        decreases rows@.len() - j,
    {
        let row = &rows[j];
        if row.pending() {
            let above: bool = if batch.len() == 0 {
                true
            } else {
                batch[batch.len() - 1].precedes(row)
            };
            if above {
                let better: bool = match best {
                    None => true,
                    Some(b) => row.precedes(&rows[b]),
                };
                if better {
                    proof {
                        if let Some(b) = best {
                            assert forall|k: int| 0 <= k < j && is_pending(#[trigger] rows@[k]) && after_all(batch@, rows@[k])
                                implies !key_lt(rows@[k], rows@[j as int]) by {
                                if key_lt(rows@[k], rows@[j as int]) {
                                    lemma_key_lt_transitive(rows@[k], rows@[j as int], rows@[b as int]);
                                }
                            }
                        }
                        lemma_key_lt_irreflexive(rows@[j as int]);
                    }
                    best = Some(j);
                }
            }
        }
        j = j + 1;
    }
    best
}

/// Selects up to `max` pending entries of the log in dispatch order: by
/// creation time, ties broken by entry id. Synced and failed entries are
/// never selected.
pub fn select_batch(rows: &Vec<LogEntry>, max: usize) -> (batch: Vec<LogEntry>)
    ensures
        is_batch_of(rows@, max as nat, batch@),
{
    let mut batch: Vec<LogEntry> = Vec::new();
    let mut exhausted: bool = false;
    while !exhausted && batch.len() < max
        invariant
            exhausted ==> forall|j: int| 0 <= j < rows@.len() && is_pending(#[trigger] rows@[j]) ==> !after_all(batch@, rows@[j]),
            batch@.len() <= max,
            strictly_ordered(batch@),
            forall|i: int| 0 <= i < batch@.len() ==> is_pending(#[trigger] batch@[i]) && is_row_of(rows@, batch@[i]),
            forall|j: int| 0 <= j < rows@.len() && is_pending(#[trigger] rows@[j]) && !after_all(batch@, rows@[j])
                ==> covers(batch@, rows@[j]),
        decreases max - batch@.len(), if exhausted { 0int } else { 1int },
    {
        match next_oldest(rows, &batch) {
            None => {
                exhausted = true;
            },
            Some(b) => {
                let ghost old_batch = batch@;
                let ghost chosen = rows@[b as int];
                batch.push(rows[b].duplicate());
                proof {
                    assert(batch@ == old_batch.push(chosen));
                    assert(is_row_of(rows@, chosen));
                    assert forall|i: int, k: int| 0 <= i < k < batch@.len()
                        implies key_lt(#[trigger] batch@[i], #[trigger] batch@[k]) by {
                        if k == old_batch.len() && i < old_batch.len() - 1 {
                            lemma_key_lt_transitive(old_batch[i], old_batch.last(), chosen);
                        }
                    }
                    assert forall|j: int| 0 <= j < rows@.len() && is_pending(#[trigger] rows@[j]) && !after_all(batch@, rows@[j])
                        implies covers(batch@, rows@[j]) by {
                        let p = rows@[j];
                        if after_all(old_batch, p) {
                            lemma_key_lt_total(p, chosen);
                            assert(same_key(batch@[old_batch.len() as int], p));
                        } else {
                            let k = choose|k: int| 0 <= k < old_batch.len() && same_key(#[trigger] old_batch[k], p);
                            assert(same_key(batch@[k], p));
                        }
                    }
                }
            },
        }
    }
    proof {
        assert forall|j: int| 0 <= j < rows@.len() && is_pending(#[trigger] rows@[j])
            implies covers(batch@, rows@[j]) || (batch@.len() == max && forall|i: int| 0 <= i < batch@.len() ==> key_lt(#[trigger] batch@[i], rows@[j])) by {
            let p = rows@[j];
            if !covers(batch@, p) {
                assert(after_all(batch@, p));
                assert forall|i: int| 0 <= i < batch@.len() implies key_lt(#[trigger] batch@[i], p) by {
                    if i < batch@.len() - 1 {
                        lemma_key_lt_transitive(batch@[i], batch@.last(), p);
                    }
                }
            }
        }
    }
    batch
}

/// A synced or failed entry is never selected; where every row is well
/// formed, no selected entry has a resolution time.
pub proof fn lemma_resolved_entry_never_selected(rows: Seq<LogEntry>, max: nat, batch: Seq<LogEntry>, e: LogEntry)
    requires
        is_batch_of(rows, max, batch),
        !is_pending(e),
    ensures
        !batch.contains(e),
        (forall|j: int| 0 <= j < rows.len() ==> entry_wf(#[trigger] rows[j]))
            ==> forall|i: int| 0 <= i < batch.len() ==> (#[trigger] batch[i]).synced_at is None,
{
    if forall|j: int| 0 <= j < rows.len() ==> entry_wf(#[trigger] rows[j]) {
        assert forall|i: int| 0 <= i < batch.len() implies (#[trigger] batch[i]).synced_at is None by {
            let j = choose|j: int| 0 <= j < rows.len() && rows[j] == batch[i];
            assert(entry_wf(rows[j]));
        }
    }
}

/// Ids are unique among the rows.
pub open spec fn ids_unique(rows: Seq<LogEntry>) -> bool {
    forall|i: int, j: int| 0 <= i < rows.len() && 0 <= j < rows.len() && i != j ==> (#[trigger] rows[i]).id@ != (#[trigger] rows[j]).id@
}

/// Where ids are unique, the id of a synced or failed row is never among
/// the ids of the batch.
pub proof fn lemma_resolved_id_never_selected(rows: Seq<LogEntry>, max: nat, batch: Seq<LogEntry>, j: int)
    requires
        is_batch_of(rows, max, batch),
        ids_unique(rows),
        0 <= j < rows.len(),
        !is_pending(rows[j]),
    ensures
        forall|i: int| 0 <= i < batch.len() ==> (#[trigger] batch[i]).id@ != rows[j].id@,
{
    assert forall|i: int| 0 <= i < batch.len() implies (#[trigger] batch[i]).id@ != rows[j].id@ by {
        let k = choose|k: int| 0 <= k < rows.len() && rows[k] == batch[i];
        if k != j {
            assert(rows[k].id@ != rows[j].id@);
        }
    }
}

/// The place of an entry in dispatch order.
pub open spec fn key_of(e: LogEntry) -> (Seq<char>, Seq<char>) {
    (e.created_at@, e.id@)
}

/// No two pending rows hold the same place in dispatch order.
pub open spec fn pending_keys_distinct(rows: Seq<LogEntry>) -> bool {
    forall|i: int, j: int|
        0 <= i < rows.len() && 0 <= j < rows.len() && i != j && is_pending(#[trigger] rows[i]) && is_pending(#[trigger] rows[j])
            ==> !same_key(rows[i], rows[j])
}

/// The places of the pending rows.
pub open spec fn pending_keys(rows: Seq<LogEntry>) -> Set<(Seq<char>, Seq<char>)>
    decreases rows.len(),
{
    if rows.len() == 0 {
        Set::empty()
    } else if is_pending(rows.last()) {
        pending_keys(rows.drop_last()).insert(key_of(rows.last()))
    } else {
        pending_keys(rows.drop_last())
    }
}

proof fn lemma_pending_keys(rows: Seq<LogEntry>)
    requires
        pending_keys_distinct(rows),
    ensures
        pending_keys(rows).finite(),
        pending_keys(rows).len() == pending_count(rows),
        forall|k: (Seq<char>, Seq<char>)| #[trigger] pending_keys(rows).contains(k)
            ==> exists|j: int| 0 <= j < rows.len() && is_pending(rows[j]) && key_of(rows[j]) == k,
    decreases rows.len(),
{
    if rows.len() > 0 {
        let init = rows.drop_last();
        let n = rows.len() - 1;
        assert forall|i: int, j: int|
            0 <= i < init.len() && 0 <= j < init.len() && i != j && is_pending(#[trigger] init[i]) && is_pending(#[trigger] init[j])
            implies !same_key(init[i], init[j]) by {
            assert(init[i] == rows[i] && init[j] == rows[j]);
        }
        lemma_pending_keys(init);
        if is_pending(rows.last()) {
            if pending_keys(init).contains(key_of(rows.last())) {
                let j = choose|j: int| 0 <= j < init.len() && is_pending(init[j]) && key_of(init[j]) == key_of(rows.last());
                assert(rows[j] == init[j]);
                assert(is_pending(rows[n]));
                assert(!same_key(rows[j], rows[n]));
            }
        }
        assert forall|k: (Seq<char>, Seq<char>)| #[trigger] pending_keys(rows).contains(k)
            implies exists|j: int| 0 <= j < rows.len() && is_pending(rows[j]) && key_of(rows[j]) == k by {
            if pending_keys(init).contains(k) {
                let j = choose|j: int| 0 <= j < init.len() && is_pending(init[j]) && key_of(init[j]) == k;
                assert(rows[j] == init[j]);
            } else {
                assert(is_pending(rows[n]) && key_of(rows[n]) == k);
            }
        }
    }
}

proof fn lemma_pending_keys_bound(rows: Seq<LogEntry>)
    ensures
        pending_keys(rows).finite(),
        pending_keys(rows).len() <= pending_count(rows),
        forall|j: int| 0 <= j < rows.len() && is_pending(#[trigger] rows[j]) ==> pending_keys(rows).contains(key_of(rows[j])),
    decreases rows.len(),
{
    if rows.len() > 0 {
        let init = rows.drop_last();
        lemma_pending_keys_bound(init);
        assert forall|j: int| 0 <= j < rows.len() && is_pending(#[trigger] rows[j]) implies pending_keys(rows).contains(key_of(rows[j])) by {
            if j < rows.len() - 1 {
                assert(init[j] == rows[j]);
            }
        }
    }
}

/// When the log holds at most `max` pending rows, the batch holds each of
/// them: nothing pending is left for a later batch.
pub proof fn lemma_batch_covers_all(rows: Seq<LogEntry>, max: nat, batch: Seq<LogEntry>)
    requires
        is_batch_of(rows, max, batch),
        pending_count(rows) <= max,
    ensures
        forall|j: int| 0 <= j < rows.len() && is_pending(#[trigger] rows[j]) ==> covers(batch, rows[j]),
{
    assert forall|j: int| 0 <= j < rows.len() && is_pending(#[trigger] rows[j]) implies covers(batch, rows[j]) by {
        if !covers(batch, rows[j]) {
            let p = rows[j];
            lemma_pending_keys_bound(rows);
            let keys = batch.map_values(|e: LogEntry| key_of(e));
            assert forall|a: int, b: int| 0 <= a < keys.len() && 0 <= b < keys.len() && a != b implies keys[a] != keys[b] by {
                if a < b {
                    lemma_key_lt_irreflexive(batch[a]);
                    assert(key_lt(batch[a], batch[b]));
                } else {
                    lemma_key_lt_irreflexive(batch[b]);
                    assert(key_lt(batch[b], batch[a]));
                }
            }
            assert(keys.no_duplicates());
            keys.unique_seq_to_set();
            let bk = keys.to_set();
            assert forall|k: (Seq<char>, Seq<char>)| bk.insert(key_of(p)).contains(k) implies pending_keys(rows).contains(k) by {
                if k != key_of(p) {
                    let c = choose|c: int| 0 <= c < keys.len() && keys[c] == k;
                    let r = choose|r: int| 0 <= r < rows.len() && rows[r] == batch[c];
                    assert(is_pending(rows[r]));
                }
            }
            if bk.contains(key_of(p)) {
                let c = choose|c: int| 0 <= c < keys.len() && keys[c] == key_of(p);
                assert(same_key(batch[c], p));
            }
            lemma_len_subset(bk.insert(key_of(p)), pending_keys(rows));
        }
    }
}

/// When at least `max` pending rows hold pairwise distinct places in
/// dispatch order, the batch is full: it holds exactly `max` entries, and
/// every pending row left out comes after all of them.
pub proof fn lemma_full_batch(rows: Seq<LogEntry>, max: nat, batch: Seq<LogEntry>)
    requires
        is_batch_of(rows, max, batch),
        pending_keys_distinct(rows),
        pending_count(rows) >= max,
    ensures
        batch.len() == max,
{
    if batch.len() < max {
        lemma_pending_keys(rows);
        let keys = batch.map_values(|e: LogEntry| key_of(e));
        let bk = keys.to_set();
        assert forall|k: (Seq<char>, Seq<char>)| pending_keys(rows).contains(k) implies bk.contains(k) by {
            let j = choose|j: int| 0 <= j < rows.len() && is_pending(rows[j]) && key_of(rows[j]) == k;
            assert(covers(batch, rows[j]));
            let c = choose|c: int| 0 <= c < batch.len() && same_key(#[trigger] batch[c], rows[j]);
            assert(keys[c] == k);
        }
        keys.lemma_cardinality_of_set();
        lemma_len_subset(pending_keys(rows), bk);
    }
}

/// Number of pending entries among the rows.
pub open spec fn pending_count(rows: Seq<LogEntry>) -> nat
    decreases rows.len(),
{
    if rows.len() == 0 {
        0
    } else {
        pending_count(rows.drop_last()) + if is_pending(rows.last()) { 1nat } else { 0nat }
    }
}

pub proof fn lemma_pending_count_bound(rows: Seq<LogEntry>)
    ensures
        pending_count(rows) <= rows.len(),
    decreases rows.len(),
{
    if rows.len() > 0 {
        lemma_pending_count_bound(rows.drop_last());
    }
}

/// Counts the entries that still await delivery.
pub fn count_pending(rows: &Vec<LogEntry>) -> (r: usize)
    ensures
        r == pending_count(rows@),
{
    let mut count: usize = 0;
    let mut i: usize = 0;
    while i < rows.len()
        invariant
            i <= rows@.len(),
            count == pending_count(rows@.subrange(0, i as int)),
        decreases rows@.len() - i,
    {
        proof {
            assert(rows@.subrange(0, i + 1).drop_last() =~= rows@.subrange(0, i as int));
            lemma_pending_count_bound(rows@.subrange(0, i as int));
        }
        if rows[i].pending() {
            count = count + 1;
        }
        i = i + 1;
    }
    assert(rows@.subrange(0, i as int) =~= rows@);
    count
}

} // verus!
