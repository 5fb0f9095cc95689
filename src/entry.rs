use vstd::prelude::*;
use crate::text::{compare_text, text_lt, lemma_text_lt_irreflexive, lemma_text_lt_transitive, lemma_text_lt_total};

verus! {

/// One row of the local mutation log.
pub struct LogEntry {
    /// Unique identifier of the entry, generated when it is enqueued.
    pub id: String,
    /// Collection on which the mutation was made.
    pub table_name: String,
    /// Operation kind as stored: `insert`, `update` or `delete`.
    pub operation: String,
    /// Record that an update or a delete targets.
    pub record_id: Option<String>,
    /// Serialized payload of an insert or an update.
    pub data: Option<String>,
    /// Creation time, an ISO-8601 UTC timestamp.
    pub created_at: String,
    /// Time of terminal resolution; absent while the entry is pending.
    pub synced_at: Option<String>,
    /// `pending`, `synced` or `failed`.
    pub status: String,
    /// Description of the failure of a failed entry.
    pub error: Option<String>,
}

/// Sync operation taken from the queue: what the remote needs of an entry.
pub struct SyncOperation {
    pub id: String,
    pub table_name: String,
    pub operation: String,
    pub record_id: Option<String>,
    pub data: Option<String>,
}

pub open spec fn status_pending() -> Seq<char> {
    "pending"@
}

pub open spec fn status_synced() -> Seq<char> {
    "synced"@
}

pub open spec fn status_failed() -> Seq<char> {
    "failed"@
}

/// An entry is awaiting delivery.
pub open spec fn is_pending(e: LogEntry) -> bool {
    e.status@ == status_pending()
}

/// A well-formed entry is pending exactly while it has no resolution time,
/// and its status is one of the three known ones.
pub open spec fn entry_wf(e: LogEntry) -> bool {
    &&& is_pending(e) <==> e.synced_at is None
    &&& e.status@ == status_pending() || e.status@ == status_synced() || e.status@ == status_failed()
}

/// The dispatch order: creation time first, then entry id.
pub open spec fn key_lt(a: LogEntry, b: LogEntry) -> bool {
    text_lt(a.created_at@, b.created_at@) || (a.created_at@ == b.created_at@ && text_lt(a.id@, b.id@))
}

/// Two entries hold the same place in the dispatch order.
pub open spec fn same_key(a: LogEntry, b: LogEntry) -> bool {
    a.created_at@ == b.created_at@ && a.id@ == b.id@
}

pub proof fn lemma_key_lt_irreflexive(a: LogEntry)
    ensures
        !key_lt(a, a),
{
    lemma_text_lt_irreflexive(a.created_at@);
    lemma_text_lt_irreflexive(a.id@);
}

pub proof fn lemma_key_lt_transitive(a: LogEntry, b: LogEntry, c: LogEntry)
    requires
        key_lt(a, b),
        key_lt(b, c),
    ensures
        key_lt(a, c),
{
    if text_lt(a.created_at@, b.created_at@) && text_lt(b.created_at@, c.created_at@) {
        lemma_text_lt_transitive(a.created_at@, b.created_at@, c.created_at@);
    } else if a.created_at@ == b.created_at@ && b.created_at@ == c.created_at@ {
        lemma_text_lt_transitive(a.id@, b.id@, c.id@);
    }
}

pub proof fn lemma_key_lt_total(a: LogEntry, b: LogEntry)
    ensures
        same_key(a, b) || key_lt(a, b) || key_lt(b, a),
{
    lemma_text_lt_total(a.created_at@, b.created_at@);
    lemma_text_lt_total(a.id@, b.id@);
}

pub fn clone_text(o: &Option<String>) -> (r: Option<String>)
    ensures
        r == *o,
{
    match o {
        Some(s) => Some(s.clone()),
        None => None,
    }
}

impl LogEntry {
    /// A field-by-field copy of the entry.
    pub fn duplicate(&self) -> (r: LogEntry)
        ensures
            r == *self,
    {
        LogEntry {
            id: self.id.clone(),
            table_name: self.table_name.clone(),
            operation: self.operation.clone(),
            record_id: clone_text(&self.record_id),
            data: clone_text(&self.data),
            created_at: self.created_at.clone(),
            synced_at: clone_text(&self.synced_at),
            status: self.status.clone(),
            error: clone_text(&self.error),
        }
    }

    /// Whether the entry still awaits delivery.
    pub fn pending(&self) -> (r: bool)
        ensures
            r == is_pending(*self),
    {
        proof {
            reveal_strlit("pending");
        }
        compare_text(self.status.as_str(), "pending") == 0
    }

    /// Whether this entry comes before `other` in dispatch order.
    pub fn precedes(&self, other: &LogEntry) -> (r: bool)
        ensures
            r == key_lt(*self, *other),
    {
        let c: i8 = compare_text(self.created_at.as_str(), other.created_at.as_str());
        if c != 0 {
            c < 0
        } else {
            compare_text(self.id.as_str(), other.id.as_str()) < 0
        }
    }

    /// The part of the entry that the remote needs.
    pub fn to_operation(&self) -> (r: SyncOperation)
        ensures
            r == operation_of(*self),
    {
        SyncOperation {
            id: self.id.clone(),
            table_name: self.table_name.clone(),
            operation: self.operation.clone(),
            record_id: clone_text(&self.record_id),
            data: clone_text(&self.data),
        }
    }
}

pub open spec fn operation_of(e: LogEntry) -> SyncOperation {
    SyncOperation {
        id: e.id,
        table_name: e.table_name,
        operation: e.operation,
        record_id: e.record_id,
        data: e.data,
    }
}

} // verus!
