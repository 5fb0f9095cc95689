use vstd::prelude::*;
use crate::dispatch::Dispatcher;
use crate::entry::SyncOperation;
use crate::hex::{hex_digits, push_digit};
use crate::reconcile::SyncResult;
use crate::remote::SupabaseConfig;

verus! {

/// How a sync session ended.
#[derive(Debug)]
pub enum SessionOutcome {
    /// Nothing was pending; `table_missing` tells whether that is because the
    /// log table does not exist yet.
    NoPendingWork { table_missing: bool },
    /// No remote is configured; pending entries stay pending.
    NotConfigured,
    /// The batch was delivered and written back with these counts.
    Completed(SyncResult),
}

/// The counts and the human-readable message of a session.
pub struct SessionSummary {
    pub synced: i32,
    pub failed: i32,
    pub message: String,
}

/// Decimal digits of a natural number.
pub open spec fn decimal(n: nat) -> Seq<char>
    decreases n,
{
    if n < 10 {
        seq![hex_digits()[n as int]]
    } else {
        decimal(n / 10) + seq![hex_digits()[(n % 10) as int]]
    }
}

/// Decimal text of an integer, with a leading minus sign when negative.
pub open spec fn signed_decimal(n: int) -> Seq<char> {
    if n < 0 {
        "-"@ + decimal((-n) as nat)
    } else {
        decimal(n as nat)
    }
}

pub open spec fn message_of(outcome: SessionOutcome) -> Seq<char> {
    match outcome {
        SessionOutcome::NoPendingWork { table_missing: true } => "No sync queue table found"@,
        SessionOutcome::NoPendingWork { table_missing: false } => "No pending operations"@,
        SessionOutcome::NotConfigured => "Supabase not configured (missing NEXT_PUBLIC_SUPABASE_URL or NEXT_PUBLIC_SUPABASE_ANON_KEY)"@,
        SessionOutcome::Completed(r) => "Synced "@ + signed_decimal(r.synced as int) + " operations, "@
            + signed_decimal(r.failed as int) + " failed"@,
    }
}

fn append_decimal(s: &mut String, n: u64)
    ensures
        final(s)@ == old(s)@ + decimal(n as nat),
    decreases n,
{
    if n < 10 {
        push_digit(s, n as u8);
        assert(seq![hex_digits()[n as int]] =~= decimal(n as nat));
    } else {
        append_decimal(s, n / 10);
        push_digit(s, (n % 10) as u8);
        assert(final(s)@ =~= old(s)@ + decimal(n as nat));
    }
}

fn append_signed(s: &mut String, n: i32)
    ensures
        final(s)@ == old(s)@ + signed_decimal(n as int),
{
    if n < 0 {
        s.append("-");
        let magnitude: u64 = (-(n as i64)) as u64;
        append_decimal(s, magnitude);
        assert(final(s)@ =~= old(s)@ + signed_decimal(n as int));
    } else {
        append_decimal(s, n as u64);
    }
}

/// Whether a session has work: `None` stands for a log that has no table
/// yet, and an empty batch for a log with nothing pending.
pub fn pending_work(batch: Option<Vec<SyncOperation>>) -> (r: Result<Vec<SyncOperation>, SessionOutcome>)
    ensures
        batch is None ==> r matches Err(SessionOutcome::NoPendingWork { table_missing: true }),
        batch is Some && batch->0@.len() == 0 ==> r matches Err(SessionOutcome::NoPendingWork { table_missing: false }),
        batch is Some && batch->0@.len() > 0 ==> (r matches Ok(w) && w@ == batch->0@),
{
    match batch {
        None => Err(SessionOutcome::NoPendingWork { table_missing: true }),
        Some(b) => if b.len() == 0 {
            Err(SessionOutcome::NoPendingWork { table_missing: false })
        } else {
            Ok(b)
        },
    }
}

/// Starts a session on a batch read from the log: an empty batch means no
/// work, a missing configuration means the entries wait for a later
/// session, and otherwise delivery begins with the whole batch.
pub fn begin_session(batch: Vec<SyncOperation>, config: Option<SupabaseConfig>) -> (r: Result<Dispatcher, SessionOutcome>)
    ensures
        batch@.len() == 0 ==> r matches Err(SessionOutcome::NoPendingWork { table_missing: false }),
        batch@.len() > 0 && config is None ==> r matches Err(SessionOutcome::NotConfigured),
        batch@.len() > 0 && config is Some ==> (r matches Ok(d) && d.wf() && d.batch() == batch@
            && d.config() == config->0 && d.results().len() == 0 && !d.in_flight()),
{
    if batch.len() == 0 {
        return Err(SessionOutcome::NoPendingWork { table_missing: false });
    }
    match config {
        None => Err(SessionOutcome::NotConfigured),
        Some(config) => Ok(Dispatcher::new(batch, config)),
    }
}

/// The counts and the message that report a session to its caller.
pub fn summarize(outcome: &SessionOutcome) -> (r: SessionSummary)
    ensures
        r.message@ == message_of(*outcome),
        match *outcome {
            SessionOutcome::Completed(c) => r.synced == c.synced && r.failed == c.failed,
            _ => r.synced == 0 && r.failed == 0,
        },
{
    match outcome {
        SessionOutcome::NoPendingWork { table_missing: true } => SessionSummary {
            synced: 0,
            failed: 0,
            message: String::from_str("No sync queue table found"),
        },
        SessionOutcome::NoPendingWork { table_missing: false } => SessionSummary {
            synced: 0,
            failed: 0,
            message: String::from_str("No pending operations"),
        },
        SessionOutcome::NotConfigured => SessionSummary {
            synced: 0,
            failed: 0,
            message: String::from_str("Supabase not configured (missing NEXT_PUBLIC_SUPABASE_URL or NEXT_PUBLIC_SUPABASE_ANON_KEY)"),
        },
        SessionOutcome::Completed(c) => {
            let mut message = String::from_str("Synced ");
            append_signed(&mut message, c.synced);
            message.append(" operations, ");
            append_signed(&mut message, c.failed);
            message.append(" failed");
            SessionSummary { synced: c.synced, failed: c.failed, message }
        },
    }
}

} // verus!
