//! The worker loop: a worker claims chunks from the queue one after the
//! other until the queue is drained or one of its chunks is given up.
//!
//! Running the threads is left to the caller. What a worker decides is
//! here, and so is a model of the whole pool, over which the laws of work
//! distribution are stated.

use crate::chunk::Chunk;
use crate::pipeline::PipelineOutcome;
use crate::queue::{spec_pop, WorkQueue};
use vstd::prelude::*;

verus! {

/// Whether a worker still takes chunks, and if not, why.
#[derive(Clone, Copy, Debug, PartialEq, Eq, Structural)]
pub enum WorkerState {
    /// The worker takes chunks.
    Active,
    /// The worker found the queue drained.
    Drained,
    /// A chunk of the worker failed on every attempt of a pass.
    Failed,
    /// The frame count of a chunk of the worker could not be obtained.
    Aborted,
}

/// What a worker does after a chunk's pipeline has ended.
#[derive(Clone, Copy, Debug, PartialEq, Eq, Structural)]
pub enum WorkerStep {
    /// Claim the next chunk.
    Continue,
    /// Send one failure signal to the owner of the pool, then stop.
    SignalFailure,
    /// Stop with a fatal fault.
    Abort,
}

/// One worker of the pool.
#[derive(Clone, Copy, Debug, PartialEq, Eq, Structural)]
pub struct Worker {
    /// The worker's index in the pool.
    pub id: usize,
    /// Whether the worker still takes chunks.
    pub state: WorkerState,
}

impl Worker {
    /// The worker with `state` in place of its own.
    pub open spec fn at(self, state: WorkerState) -> Worker {
        Worker { id: self.id, state }
    }

    /// A claim: an active worker takes the oldest pending chunk, and finds
    /// the queue drained where none is pending. A worker that has stopped
    /// takes nothing.
    pub open spec fn spec_claim(self, pending: Seq<Chunk>) -> (Worker, Seq<Chunk>, Option<Chunk>) {
        if self.state == WorkerState::Active {
            let (next, rest) = spec_pop(pending);
            if next is Some {
                (self, rest, next)
            } else {
                (self.at(WorkerState::Drained), rest, next)
            }
        } else {
            (self, pending, None)
        }
    }

    /// The end of a chunk's pipeline: a failed chunk stops the worker with a
    /// signal, a fault stops it without one, and any other end lets it go on.
    pub open spec fn spec_settle(self, outcome: PipelineOutcome) -> (Worker, WorkerStep) {
        match outcome {
            PipelineOutcome::Failed { output } => (
                self.at(WorkerState::Failed),
                WorkerStep::SignalFailure,
            ),
            PipelineOutcome::OracleFault => (self.at(WorkerState::Aborted), WorkerStep::Abort),
            _ => (self, WorkerStep::Continue),
        }
    }

    /// The worker with index `id`, ready to take chunks.
    pub open spec fn spec_new(id: usize) -> Worker {
        Worker { id, state: WorkerState::Active }
    }

    /// The worker with index `id`, ready to take chunks.
    pub fn new(id: usize) -> (worker: Worker)
        ensures
            worker == Self::spec_new(id),
    {
        Worker { id, state: WorkerState::Active }
    }

    /// Whether the worker still takes chunks.
    pub fn is_active(&self) -> (active: bool)
        ensures
            active == (self.state == WorkerState::Active),
    {
        match self.state {
            WorkerState::Active => true,
            _ => false,
        }
    }

    /// Claims the next chunk from the queue. Nothing is returned where the
    /// queue is drained or the worker has stopped; a stopped worker leaves
    /// the queue untouched.
    pub fn claim(&mut self, queue: &mut WorkQueue) -> (next: Option<Chunk>)
        requires
            old(queue).wf(),
        ensures
            final(queue).wf(),
            final(queue).capacity() == old(queue).capacity(),
            (*final(self), final(queue).pending(), next) == old(self).spec_claim(
                old(queue).pending(),
            ),
    {
        if !self.is_active() {
            return None;
        }
        let next = queue.pop();
        if next.is_none() {
            self.state = WorkerState::Drained;
        }
        next
    }

    /// Takes the end of a chunk's pipeline and says what the worker does
    /// next.
    pub fn settle(&mut self, outcome: &PipelineOutcome) -> (step: WorkerStep)
        ensures
            (*final(self), step) == old(self).spec_settle(*outcome),
    {
        match outcome {
            PipelineOutcome::Failed { output: _ } => {
                self.state = WorkerState::Failed;
                WorkerStep::SignalFailure
            },
            PipelineOutcome::OracleFault => {
                self.state = WorkerState::Aborted;
                WorkerStep::Abort
            },
            _ => WorkerStep::Continue,
        }
    }
}

} // verus!
