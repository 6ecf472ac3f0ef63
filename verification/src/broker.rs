//! The broker: owner of the chunk queue and of the decisions of a pool run.

use crate::affinity::{pin_worker, spec_pinned, AffinityError};
use crate::chunk::Chunk;
use crate::pipeline::{ChunkPipeline, PipelineAction};
use crate::pool::{spec_initial, PoolState};
use crate::queue::{spec_max_queue_len, WorkQueue};
use crate::report::FrameMismatch;
use crate::settings::{EncodeArgs, Verbosity};
use crate::worker::Worker;
use vstd::prelude::*;

verus! {

/// Which progress display is finished once the pool has run.
#[derive(Clone, Copy, Debug, PartialEq, Eq, Structural)]
pub enum ProgressFinish {
    /// None: the run was quiet.
    Nothing,
    /// The single bar that shows all chunks together.
    SingleBar,
    /// The bars that show each worker.
    WorkerBars,
}

/// The progress display that a verbosity asks to be finished.
pub open spec fn spec_progress_finish(verbosity: Verbosity) -> ProgressFinish {
    match verbosity {
        Verbosity::Quiet => ProgressFinish::Nothing,
        Verbosity::Normal => ProgressFinish::SingleBar,
        Verbosity::Verbose => ProgressFinish::WorkerBars,
    }
}

/// A pool that is ready to run.
pub struct PoolRun {
    /// Every chunk, in order, in a closed queue.
    pub queue: WorkQueue,
    /// One worker for each thread to start.
    pub workers: Vec<Worker>,
    /// What to finish after all workers have been joined, whether or not a
    /// failure was signalled.
    pub finish: ProgressFinish,
}

impl PoolRun {
    /// The pool as the laws of work distribution see it: what is pending,
    /// the workers, and nothing delivered or signalled yet.
    pub open spec fn model(&self) -> PoolState {
        PoolState {
            pending: self.queue.pending(),
            workers: self.workers@,
            delivered: Seq::empty(),
            signals: 0,
        }
    }
}

/// Distributes the chunks of a project over its workers.
pub struct Broker<'a> {
    /// The chunks to encode.
    pub chunk_queue: Vec<Chunk>,
    /// The project's settings.
    pub project: &'a EncodeArgs,
    /// Whether a quality routine runs on each chunk before its first pass.
    pub target_quality: bool,
}

impl<'a> Broker<'a> {
    /// A broker for the given chunks and settings.
    pub fn new(chunk_queue: Vec<Chunk>, project: &'a EncodeArgs, target_quality: bool) -> (broker:
        Self)
        ensures
            broker.chunk_queue == chunk_queue,
            broker.project == project,
            broker.target_quality == target_quality,
    {
        Broker { chunk_queue, project, target_quality }
    }

    /// Prepares the pool. With no chunk there is nothing to run: no worker
    /// and nothing to finish. Otherwise every chunk is queued in order in a
    /// queue made for exactly that many, the queue is closed, and there is
    /// one active worker per configured worker: the pool from which every
    /// run of the distribution laws starts.
    pub fn encoding_loop(&self) -> (run: Option<PoolRun>)
        requires
            self.chunk_queue.len() <= spec_max_queue_len(),
        ensures
            self.chunk_queue.len() == 0 <==> run is None,
            run matches Some(pool) ==> {
                &&& pool.queue.wf()
                &&& pool.queue.pending() == self.chunk_queue@
                &&& pool.queue.capacity() == self.chunk_queue.len()
                &&& pool.workers.len() == self.project.workers
                &&& pool.model() == spec_initial(self.chunk_queue@, self.project.workers as nat)
                &&& pool.finish == spec_progress_finish(self.project.verbosity)
            },
    {
        if self.chunk_queue.len() == 0 {
            return None;
        }
        let queue = WorkQueue::load(&self.chunk_queue);
        let mut workers: Vec<Worker> = Vec::new();
        let mut id: usize = 0;
        while id < self.project.workers
            invariant
                id <= self.project.workers,
                workers.len() == id,
                forall|i: int| 0 <= i < id ==> #[trigger] workers[i] == Worker::spec_new(i as usize),
            decreases self.project.workers - id,
        {
            workers.push(Worker::new(id));
            id += 1;
        }
        let finish = match self.project.verbosity {
            Verbosity::Quiet => ProgressFinish::Nothing,
            Verbosity::Normal => ProgressFinish::SingleBar,
            Verbosity::Verbose => ProgressFinish::WorkerBars,
        };
        proof {
            assert(workers@ =~= spec_initial(
                self.chunk_queue@,
                self.project.workers as nat,
            ).workers);
        }
        Some(PoolRun { queue, workers, finish })
    }

    /// Restricts the calling thread to the cores that the plan gives worker
    /// `worker_id` of the project's workers on this host.
    pub fn pin_worker(&self, worker_id: usize) -> (pinned: Result<(), AffinityError>)
        requires
            self.project.workers > 0,
            worker_id < self.project.workers,
        ensures
            spec_pinned(self.project.workers as int, worker_id as int, pinned),
    {
        pin_worker(self.project.workers, worker_id)
    }

    /// Claims a chunk for encoding: its pipeline, and what to do first.
    pub fn encode_chunk(&self, chunk: &Chunk) -> (started: (ChunkPipeline, PipelineAction))
        ensures
            started == ChunkPipeline::spec_start(
                chunk.frames,
                self.project.passes,
                self.target_quality,
            ),
            started.0.wf(),
    {
        ChunkPipeline::start(chunk.frames, self.project.passes, self.target_quality)
    }

    /// Holds the frames counted in a chunk's encoded artifact against the
    /// expected number, and describes the mismatch where they differ.
    pub fn frame_check_output(chunk: &Chunk, expected_frames: usize, actual_frames: usize) -> (mismatch:
        Option<FrameMismatch>)
        ensures
            mismatch == (if actual_frames != expected_frames {
                Some(
                    FrameMismatch {
                        chunk_index: chunk.index,
                        actual: actual_frames,
                        expected: expected_frames,
                    },
                )
            } else {
                None
            }),
    {
        if actual_frames != expected_frames {
            Some(
                FrameMismatch {
                    chunk_index: chunk.index,
                    actual: actual_frames,
                    expected: expected_frames,
                },
            )
        } else {
            None
        }
    }
}

} // verus!
