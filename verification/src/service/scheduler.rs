//! Scheduling of a verification batch.
//!
//! Probing, storing and waiting are left to the caller. The batch state
//! decides which candidate may start next so that no more than the configured
//! number is in flight, keeps the counters, and says when every candidate is
//! through; [`verify_single`] decides whether an evaluated candidate is
//! written to the store.

use crate::model::proxy::Proxy;
use crate::service::quality::or_value;
use vstd::prelude::*;

verus! {

/// How the pipeline of one candidate ended.
#[derive(Clone, Copy, Debug, PartialEq, Eq, Structural)]
pub enum CandidateOutcome {
    /// Scored with a success rate above 0 and written to the store.
    Verified,
    /// Scored with a success rate of 0; nothing was written.
    Rejected,
    /// Probing or the store reported an error.
    Errored,
    /// The pipeline stopped unexpectedly.
    Crashed,
}

/// What happens to a candidate once it has been evaluated.
#[derive(Debug)]
pub enum PipelineStep {
    /// Write this record to the store, then report whether that worked.
    Write(Proxy),
    /// Nothing more to do: the candidate ends with this outcome.
    Finish(CandidateOutcome),
}

/// The decision on an evaluated candidate: it is written exactly when its
/// success rate is above 0, and rejected otherwise.
pub open spec fn spec_verify_single(updated: Proxy) -> PipelineStep {
    if or_value(updated.success_rate, 0) > 0 {
        PipelineStep::Write(updated)
    } else {
        PipelineStep::Finish(CandidateOutcome::Rejected)
    }
}

/// Decides whether an evaluated candidate is written to the store.
pub fn verify_single(updated: Proxy) -> (step: PipelineStep)
    ensures
        step == spec_verify_single(updated),
{
    let usable: bool = match updated.success_rate {
        Some(rate) => rate > 0,
        None => false,
    };
    if usable {
        PipelineStep::Write(updated)
    } else {
        PipelineStep::Finish(CandidateOutcome::Rejected)
    }
}

/// The outcome of a candidate whose record was handed to the store.
pub fn after_write(stored: bool) -> (outcome: CandidateOutcome)
    ensures
        outcome == if stored {
            CandidateOutcome::Verified
        } else {
            CandidateOutcome::Errored
        },
{
    if stored {
        CandidateOutcome::Verified
    } else {
        CandidateOutcome::Errored
    }
}

/// The contents of a store: at most one record for each identity.
pub type StoreModel = Map<(Seq<char>, Seq<char>), Proxy>;

/// The store after the step that was decided for a candidate has been carried
/// out: a write replaces or adds the record under its identity, anything else
/// leaves the store as it was.
pub open spec fn store_after(store: StoreModel, step: PipelineStep) -> StoreModel {
    match step {
        PipelineStep::Write(record) => store.insert(record.key(), record),
        PipelineStep::Finish(_) => store,
    }
}

/// A candidate with a success rate of 0 is never written, and whatever the
/// store held before, for this identity or any other, is still there
/// unchanged.
pub proof fn lemma_rejects_are_not_persisted(store: StoreModel, updated: Proxy)
    requires
        or_value(updated.success_rate, 0) == 0,
    ensures
        spec_verify_single(updated) == PipelineStep::Finish(CandidateOutcome::Rejected),
        store_after(store, spec_verify_single(updated)) == store,
{
}

/// What the caller of the scheduler does next.
#[derive(Clone, Copy, Debug, PartialEq, Eq, Structural)]
pub enum BatchStep {
    /// Start the pipeline of the candidate at this position.
    Start(usize),
    /// Nothing may start now: wait until a pipeline in flight has finished.
    Wait,
    /// Every candidate is through; this many were verified and stored.
    Done(usize),
    /// Every candidate is through, and at least one pipeline crashed.
    Failed,
}

/// What the caller reports to the scheduler.
#[derive(Clone, Copy, Debug, PartialEq, Eq, Structural)]
pub enum BatchEvent {
    /// The caller asks what to do next.
    Poll,
    /// A pipeline in flight has ended with this outcome.
    Finished(CandidateOutcome),
}

/// Progress of one batch of `total` candidates under a cap of `limit`
/// pipelines in flight.
#[derive(Clone, Copy, Debug, PartialEq, Eq, Structural)]
pub struct BatchState {
    pub limit: usize,
    pub total: usize,
    pub started: usize,
    pub in_flight: usize,
    pub verified: usize,
    pub rejected: usize,
    pub errored: usize,
    pub crashed: usize,
}

impl BatchState {
    /// Never more than `limit` pipelines are in flight, never more are started
    /// than there are candidates, and every started pipeline is either in
    /// flight or counted under exactly one outcome.
    pub open spec fn wf(&self) -> bool {
        &&& self.total > 0 ==> self.limit > 0
        &&& self.started <= self.total
        &&& self.in_flight <= self.limit
        &&& self.verified + self.rejected + self.errored + self.crashed + self.in_flight
            == self.started
    }

    /// Every candidate has been started and none is in flight any more.
    pub open spec fn is_complete(&self) -> bool {
        self.started == self.total && self.in_flight == 0
    }

    /// The state of a batch before anything has started.
    pub open spec fn initial(total: usize, limit: usize) -> BatchState {
        BatchState {
            limit,
            total,
            started: 0,
            in_flight: 0,
            verified: 0,
            rejected: 0,
            errored: 0,
            crashed: 0,
        }
    }

    /// The answer to a poll, and the state after it. A candidate starts while
    /// some are left and the cap is not reached; else the caller waits while
    /// anything is in flight; else the batch is over.
    pub open spec fn spec_poll(self) -> (BatchState, BatchStep) {
        if self.started < self.total && self.in_flight < self.limit {
            (
                BatchState {
                    started: (self.started + 1) as usize,
                    in_flight: (self.in_flight + 1) as usize,
                    ..self
                },
                BatchStep::Start(self.started),
            )
        } else if self.in_flight > 0 {
            (self, BatchStep::Wait)
        } else if self.crashed > 0 {
            (self, BatchStep::Failed)
        } else {
            (self, BatchStep::Done(self.verified))
        }
    }

    /// The state after a pipeline in flight has ended with `outcome`. With
    /// nothing in flight the state stays as it is.
    pub open spec fn spec_finish(self, outcome: CandidateOutcome) -> BatchState {
        if self.in_flight == 0 {
            self
        } else {
            let rest = BatchState { in_flight: (self.in_flight - 1) as usize, ..self };
            match outcome {
                CandidateOutcome::Verified => BatchState {
                    verified: (self.verified + 1) as usize,
                    ..rest
                },
                CandidateOutcome::Rejected => BatchState {
                    rejected: (self.rejected + 1) as usize,
                    ..rest
                },
                CandidateOutcome::Errored => BatchState {
                    errored: (self.errored + 1) as usize,
                    ..rest
                },
                CandidateOutcome::Crashed => BatchState {
                    crashed: (self.crashed + 1) as usize,
                    ..rest
                },
            }
        }
    }

    /// The state after one event.
    pub open spec fn spec_on_event(self, event: BatchEvent) -> BatchState {
        match event {
            BatchEvent::Poll => self.spec_poll().0,
            BatchEvent::Finished(outcome) => self.spec_finish(outcome),
        }
    }

    /// The state after a run of events, the first event first.
    pub open spec fn after_events(self, events: Seq<BatchEvent>) -> BatchState
        decreases events.len(),
    {
        if events.len() == 0 {
            self
        } else {
            self.after_events(events.drop_last()).spec_on_event(events.last())
        }
    }

    /// A batch of `total` candidates with at most `limit` in flight.
    pub fn new(total: usize, limit: usize) -> (r: Self)
        requires
            total > 0 ==> limit > 0,
        ensures
            r == Self::initial(total, limit),
            r.wf(),
    {
        BatchState {
            limit,
            total,
            started: 0,
            in_flight: 0,
            verified: 0,
            rejected: 0,
            errored: 0,
            crashed: 0,
        }
    }

    /// Asks what to do next.
    pub fn poll(&mut self) -> (step: BatchStep)
        requires
            old(self).wf(),
        ensures
            (*final(self), step) == old(self).spec_poll(),
            final(self).wf(),
            step matches BatchStep::Start(index) ==> index < old(self).total,
            (step matches BatchStep::Done(_) || step == BatchStep::Failed) ==> old(
                self,
            ).is_complete(),
            step matches BatchStep::Done(count) ==> count <= old(self).total,
    {
        if self.started < self.total && self.in_flight < self.limit {
            let index: usize = self.started;
            self.started = self.started + 1;
            self.in_flight = self.in_flight + 1;
            BatchStep::Start(index)
        } else if self.in_flight > 0 {
            BatchStep::Wait
        } else if self.crashed > 0 {
            BatchStep::Failed
        } else {
            BatchStep::Done(self.verified)
        }
    }

    /// Reports that a pipeline in flight has ended.
    pub fn finish(&mut self, outcome: CandidateOutcome)
        requires
            old(self).wf(),
            old(self).in_flight > 0,
        ensures
            *final(self) == old(self).spec_finish(outcome),
            final(self).wf(),
    {
        self.in_flight = self.in_flight - 1;
        match outcome {
            CandidateOutcome::Verified => {
                self.verified = self.verified + 1;
            },
            CandidateOutcome::Rejected => {
                self.rejected = self.rejected + 1;
            },
            CandidateOutcome::Errored => {
                self.errored = self.errored + 1;
            },
            CandidateOutcome::Crashed => {
                self.crashed = self.crashed + 1;
            },
        }
    }
}

/// One event keeps a well-formed state well-formed.
pub proof fn lemma_event_preserves_wf(state: BatchState, event: BatchEvent)
    requires
        state.wf(),
    ensures
        state.spec_on_event(event).wf(),
        state.spec_on_event(event).limit == state.limit,
        state.spec_on_event(event).total == state.total,
{
}

/// Whatever the order in which candidates are started and pipelines end,
/// never more than `limit` pipelines are in flight, and never more candidates
/// are counted as verified than the batch holds.
pub proof fn lemma_concurrency_bound(total: usize, limit: usize, events: Seq<BatchEvent>)
    requires
        total > 0 ==> limit > 0,
    ensures
        BatchState::initial(total, limit).after_events(events).wf(),
        BatchState::initial(total, limit).after_events(events).limit == limit,
        BatchState::initial(total, limit).after_events(events).total == total,
        BatchState::initial(total, limit).after_events(events).in_flight <= limit,
        BatchState::initial(total, limit).after_events(events).verified <= total,
    decreases events.len(),
{
    if events.len() > 0 {
        lemma_concurrency_bound(total, limit, events.drop_last());
        lemma_event_preserves_wf(
            BatchState::initial(total, limit).after_events(events.drop_last()),
            events.last(),
        );
    }
}

/// The batch is reported as over only when every candidate has been started
/// and has ended: the counters of the four outcomes then add up to the size
/// of the batch.
pub proof fn lemma_done_means_all_through(state: BatchState)
    requires
        state.wf(),
        state.spec_poll().1 matches BatchStep::Done(_) || state.spec_poll().1 == BatchStep::Failed,
    ensures
        state.is_complete(),
        state.verified + state.rejected + state.errored + state.crashed == state.total,
        state.spec_poll().1 matches BatchStep::Done(count) ==> count == state.verified
            && state.crashed == 0,
{
}

} // verus!
