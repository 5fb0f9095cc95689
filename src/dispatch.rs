use vstd::prelude::*;
use crate::entry::SyncOperation;
use crate::remote::{
    entry_defect, outcome_of, outcome_spec, payload_accepted, plan_request, request_for, RemoteRequest,
    RemoteResponse, SupabaseConfig, SyncFailure,
};

verus! {

/// What an entry that was never sent is recorded with: its defect, or a
/// payload that is not JSON.
pub open spec fn unsent_outcome(op: SyncOperation, outcome: Result<(), SyncFailure>) -> bool {
    &&& entry_defect(op) is Some ==> outcome == Err::<(), SyncFailure>(entry_defect(op)->0)
    &&& entry_defect(op) is None ==> !payload_accepted(op) && outcome->Err_0 is InvalidPayload
}

/// Drives a batch through the remote one entry at a time, in batch order.
///
/// The caller asks for the next call with `next_request`, performs it, and
/// hands what came back to `complete`; entries that need no call are
/// resolved on the way. Exactly one outcome is recorded per entry.
pub struct Dispatcher {
    batch: Vec<SyncOperation>,
    config: SupabaseConfig,
    results: Vec<(String, Result<(), SyncFailure>)>,
    in_flight: bool,
}

impl Dispatcher {
    pub closed spec fn batch(&self) -> Seq<SyncOperation> {
        self.batch@
    }

    pub closed spec fn config(&self) -> SupabaseConfig {
        self.config
    }

    pub closed spec fn results(&self) -> Seq<(String, Result<(), SyncFailure>)> {
        self.results@
    }

    /// A call has been handed out and its answer is awaited.
    pub closed spec fn in_flight(&self) -> bool {
        self.in_flight
    }

    /// Outcomes stand for a prefix of the batch, one per entry, in order.
    pub open spec fn wf(&self) -> bool {
        &&& self.results().len() <= self.batch().len()
        &&& self.in_flight() ==> self.results().len() < self.batch().len()
        &&& forall|i: int| 0 <= i < self.results().len() ==> (#[trigger] self.results()[i]).0@ == self.batch()[i].id@
    }

    pub fn new(batch: Vec<SyncOperation>, config: SupabaseConfig) -> (d: Dispatcher)
        ensures
            d.wf(),
            d.batch() == batch@,
            d.config() == config,
            d.results().len() == 0,
            !d.in_flight(),
    {
        Dispatcher { batch, config, results: Vec::new(), in_flight: false }
    }

    /// Resolves the entries that need no call, up to the next one that does,
    /// and returns that call; `None` once every entry has its outcome.
    pub fn next_request(&mut self) -> (r: Option<RemoteRequest>)
        requires
            old(self).wf(),
            !old(self).in_flight(),
        ensures
            final(self).wf(),
            final(self).batch() == old(self).batch(),
            final(self).config() == old(self).config(),
            final(self).results().len() >= old(self).results().len(),
            final(self).results().subrange(0, old(self).results().len() as int) == old(self).results(),
            forall|i: int| old(self).results().len() <= i < final(self).results().len()
                ==> unsent_outcome(final(self).batch()[i], (#[trigger] final(self).results()[i]).1),
            r is None ==> !final(self).in_flight() && final(self).results().len() == final(self).batch().len(),
            r is Some ==> final(self).in_flight() && entry_defect(final(self).batch()[final(self).results().len() as int]) is None
                && request_for(final(self).batch()[final(self).results().len() as int], final(self).config(), r->0),
    {
        let ghost start = self.results@;
        while self.results.len() < self.batch.len()
            invariant
                self.wf(),
                !self.in_flight,
                self.batch@ == old(self).batch@,
                self.config == old(self).config,
                self.results@.len() >= start.len(),
                start == old(self).results@,
                self.results@.subrange(0, start.len() as int) == start,
                forall|i: int| start.len() <= i < self.results@.len()
                    ==> unsent_outcome(self.batch@[i], (#[trigger] self.results@[i]).1),
            decreases self.batch@.len() - self.results@.len(),
        {
            let pos: usize = self.results.len();
            let op = &self.batch[pos];
            match plan_request(op, &self.config) {
                Ok(req) => {
                    self.in_flight = true;
                    return Some(req);
                },
                Err(f) => {
                    let ghost before = self.results@;
                    let id = op.id.clone();
                    proof {
                        assert(unsent_outcome(self.batch@[pos as int], Err::<(), SyncFailure>(f)));
                    }
                    self.results.push((id, Err(f)));
                    proof {
                        assert(self.results@ == before.push(self.results@.last()));
                        assert(self.results@.subrange(0, start.len() as int) =~= before.subrange(0, start.len() as int));
                    }
                },
            }
        }
        None
    }

    /// Records the outcome of the call that `next_request` handed out.
    pub fn complete(&mut self, response: RemoteResponse)
        requires
            old(self).wf(),
            old(self).in_flight(),
        ensures
            final(self).wf(),
            !final(self).in_flight(),
            final(self).batch() == old(self).batch(),
            final(self).config() == old(self).config(),
            final(self).results() == old(self).results().push(
                (final(self).results().last().0, outcome_spec(response)),
            ),
    {
        let pos: usize = self.results.len();
        let id = self.batch[pos].id.clone();
        let outcome = outcome_of(response);
        self.results.push((id, outcome));
        self.in_flight = false;
    }

    /// The outcomes recorded so far, one per entry, in batch order.
    pub fn into_results(self) -> (r: Vec<(String, Result<(), SyncFailure>)>)
        requires
            self.wf(),
        ensures
            r@ == self.results(),
    {
        self.results
    }
}

} // verus!
