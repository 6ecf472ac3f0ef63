//! A model of the whole pool, and the laws of work distribution.
//!
//! The threads of a pool interleave in an order that nobody fixes. The
//! model takes that order as given: a run is a sequence of turns, and each
//! turn names the worker that claims next and says how the pipeline of the
//! chunk it receives ends. Every turn is made of the claim and the settle
//! that a worker performs, so what is proved of the model holds of the
//! workers whatever the interleaving.

use crate::chunk::Chunk;
use crate::pipeline::PipelineOutcome;
use crate::worker::{Worker, WorkerState, WorkerStep};
use vstd::prelude::*;
use vstd::set_lib::{lemma_int_range, lemma_len_subset, set_int_range};

verus! {

/// One chunk handed to one worker.
pub struct Delivery {
    /// Index of the worker that received the chunk.
    pub worker: int,
    /// The chunk.
    pub chunk: Chunk,
}

/// One turn of a run: `worker` claims, and the pipeline of the chunk it
/// receives, if it receives one, ends with `outcome`.
pub struct Turn {
    pub worker: int,
    pub outcome: PipelineOutcome,
}

/// The pool at one moment of a run.
pub struct PoolState {
    /// Chunks that wait in the queue, oldest first.
    pub pending: Seq<Chunk>,
    /// The workers, by index.
    pub workers: Seq<Worker>,
    /// Every delivery so far, in the order in which it was made.
    pub delivered: Seq<Delivery>,
    /// Failure signals sent so far.
    pub signals: nat,
}

/// A pool before its first turn: every chunk pending, every worker active.
pub open spec fn spec_initial(chunks: Seq<Chunk>, workers: nat) -> PoolState {
    PoolState {
        pending: chunks,
        workers: Seq::new(workers, |i: int| Worker::spec_new(i as usize)),
        delivered: Seq::empty(),
        signals: 0,
    }
}

/// The pool after one turn. A turn of a worker that the pool does not have
/// changes nothing.
pub open spec fn spec_turn(pool: PoolState, turn: Turn) -> PoolState {
    if 0 <= turn.worker < pool.workers.len() {
        let (claimed, rest, next) = pool.workers[turn.worker].spec_claim(pool.pending);
        match next {
            Some(chunk) => {
                let (settled, step) = claimed.spec_settle(turn.outcome);
                PoolState {
                    pending: rest,
                    workers: pool.workers.update(turn.worker, settled),
                    delivered: pool.delivered.push(Delivery { worker: turn.worker, chunk }),
                    signals: if step == WorkerStep::SignalFailure {
                        pool.signals + 1
                    } else {
                        pool.signals
                    },
                }
            },
            None => PoolState {
                pending: rest,
                workers: pool.workers.update(turn.worker, claimed),
                delivered: pool.delivered,
                signals: pool.signals,
            },
        }
    } else {
        pool
    }
}

/// The pool after a sequence of turns.
pub open spec fn spec_run(pool: PoolState, turns: Seq<Turn>) -> PoolState
    decreases turns.len(),
{
    if turns.len() == 0 {
        pool
    } else {
        spec_turn(spec_run(pool, turns.drop_last()), turns.last())
    }
}

/// The queue positions of the chunks that a worker has received.
pub open spec fn spec_received(pool: PoolState, worker: int) -> Set<int> {
    Set::new(|i: int| 0 <= i < pool.delivered.len() && pool.delivered[i].worker == worker)
}

/// A run of a first turn, followed by the rest.
proof fn lemma_run_first(pool: PoolState, turns: Seq<Turn>)
    requires
        turns.len() > 0,
    ensures
        spec_run(pool, turns) == spec_run(spec_turn(pool, turns[0]), turns.skip(1)),
    decreases turns.len(),
{
    let first = spec_turn(pool, turns[0]);
    if turns.len() == 1 {
        assert(turns.drop_last().len() == 0);
        assert(spec_run(pool, turns.drop_last()) == pool);
        assert(turns.skip(1).len() == 0);
        assert(spec_run(first, turns.skip(1)) == first);
    } else {
        let front = turns.drop_last();
        lemma_run_first(pool, front);
        assert(front[0] == turns[0]);
        assert(front.skip(1) =~= turns.skip(1).drop_last());
        assert(turns.skip(1).last() == turns.last());
        assert(spec_run(first, turns.skip(1)) == spec_turn(
            spec_run(first, turns.skip(1).drop_last()),
            turns.skip(1).last(),
        ));
    }
}

/// Exactly-once delivery. However the turns of a pool of `workers` workers
/// fall, and however the pipelines end, the deliveries made so far are the
/// first chunks of the queue, in queue order, and the chunks that follow
/// them are the ones still pending. So each chunk is delivered at most
/// once; each delivered chunk went to exactly one worker of the pool; and
/// once nothing is pending, every chunk has been delivered.
pub proof fn lemma_exactly_once(chunks: Seq<Chunk>, workers: nat, turns: Seq<Turn>)
    ensures
        ({
            let pool = spec_run(spec_initial(chunks, workers), turns);
            &&& pool.workers.len() == workers
            &&& pool.delivered.len() + pool.pending.len() == chunks.len()
            &&& pool.pending == chunks.skip(pool.delivered.len() as int)
            &&& forall|i: int|
                0 <= i < pool.delivered.len() ==> (#[trigger] pool.delivered[i]).chunk == chunks[i]
                    && 0 <= pool.delivered[i].worker < workers
            &&& forall|i: int|
                0 <= i < pool.delivered.len() ==> spec_received(
                    pool,
                    (#[trigger] pool.delivered[i]).worker,
                ).contains(i)
            &&& forall|i: int, v: int, w: int|
                spec_received(pool, v).contains(i) && spec_received(pool, w).contains(i) ==> v
                    == w
            &&& pool.pending.len() == 0 ==> pool.delivered.len() == chunks.len()
        }),
    decreases turns.len(),
{
    let pool = spec_run(spec_initial(chunks, workers), turns);
    if turns.len() == 0 {
        assert(pool.pending =~= chunks.skip(0));
    } else {
        let before = spec_run(spec_initial(chunks, workers), turns.drop_last());
        lemma_exactly_once(chunks, workers, turns.drop_last());
        let turn = turns.last();
        assert(pool == spec_turn(before, turn));
        if 0 <= turn.worker < before.workers.len() {
            let (claimed, rest, next) = before.workers[turn.worker].spec_claim(before.pending);
            if next is Some {
                assert(rest =~= chunks.skip(before.delivered.len() as int + 1));
                assert(before.pending[0] == chunks[before.delivered.len() as int]);
            }
        }
    }
}

/// The workers that stopped because a chunk of theirs failed.
pub open spec fn spec_failed(pool: PoolState) -> Set<int> {
    Set::new(|w: int| 0 <= w < pool.workers.len() && pool.workers[w].state == WorkerState::Failed)
}

/// One signal per failed worker. However the turns of a pool fall, the
/// signals sent are as many as the workers that stopped on a failed chunk:
/// a worker signals when its chunk fails, stops, and never signals again.
pub proof fn lemma_one_signal_per_failed_worker(chunks: Seq<Chunk>, workers: nat, turns: Seq<Turn>)
    ensures
        ({
            let pool = spec_run(spec_initial(chunks, workers), turns);
            spec_failed(pool).finite() && pool.signals == spec_failed(pool).len()
        }),
    decreases turns.len(),
{
    let pool = spec_run(spec_initial(chunks, workers), turns);
    if turns.len() == 0 {
        assert(spec_failed(pool) =~= Set::<int>::empty());
    } else {
        let before = spec_run(spec_initial(chunks, workers), turns.drop_last());
        lemma_one_signal_per_failed_worker(chunks, workers, turns.drop_last());
        let turn = turns.last();
        assert(pool == spec_turn(before, turn));
        if 0 <= turn.worker < before.workers.len() {
            let worker = before.workers[turn.worker];
            let (claimed, rest, next) = worker.spec_claim(before.pending);
            if next is Some && turn.outcome is Failed {
                assert(worker.state == WorkerState::Active);
                assert(!spec_failed(before).contains(turn.worker));
                assert(spec_failed(pool) =~= spec_failed(before).insert(turn.worker));
            } else {
                assert(pool.workers[turn.worker].state != WorkerState::Failed || worker.state
                    == WorkerState::Failed);
                assert(spec_failed(pool) =~= spec_failed(before));
            }
        }
    }
}

/// The queue does not refill. However the turns of a pool fall, a worker
/// that found the queue drained found it so for good: nothing is pending
/// where any worker is drained. The states of the workers are those that
/// the turns account for: none is aborted where no turn ends in a fault,
/// and none has failed where no turn ends in a failure.
pub proof fn lemma_drained_means_empty(chunks: Seq<Chunk>, workers: nat, turns: Seq<Turn>)
    ensures
        ({
            let pool = spec_run(spec_initial(chunks, workers), turns);
            &&& pool.workers.len() == workers
            &&& forall|w: int|
                0 <= w < workers && (#[trigger] pool.workers[w]).state == WorkerState::Drained
                    ==> pool.pending.len() == 0
            &&& (forall|t: int| 0 <= t < turns.len() ==> !((#[trigger] turns[t]).outcome
                is OracleFault)) ==> forall|w: int|
                0 <= w < workers ==> (#[trigger] pool.workers[w]).state != WorkerState::Aborted
            &&& (forall|t: int| 0 <= t < turns.len() ==> !((#[trigger] turns[t]).outcome
                is Failed)) ==> forall|w: int|
                0 <= w < workers ==> (#[trigger] pool.workers[w]).state != WorkerState::Failed
        }),
    decreases turns.len(),
{
    let pool = spec_run(spec_initial(chunks, workers), turns);
    if turns.len() > 0 {
        let front = turns.drop_last();
        let before = spec_run(spec_initial(chunks, workers), front);
        lemma_drained_means_empty(chunks, workers, front);
        let turn = turns.last();
        assert(turn == turns[turns.len() - 1]);
        assert(pool == spec_turn(before, turn));
        assert forall|t: int| 0 <= t < front.len() implies front[t] == turns[t] by {}
        if forall|t: int| 0 <= t < turns.len() ==> !((#[trigger] turns[t]).outcome is OracleFault) {
            assert forall|t: int| 0 <= t < front.len() implies !((#[trigger] front[t]).outcome
                is OracleFault) by {
                assert(front[t] == turns[t]);
            }
        }
        if forall|t: int| 0 <= t < turns.len() ==> !((#[trigger] turns[t]).outcome is Failed) {
            assert forall|t: int| 0 <= t < front.len() implies !((#[trigger] front[t]).outcome
                is Failed) by {
                assert(front[t] == turns[t]);
            }
        }
        assert forall|w: int|
            0 <= w < workers && (#[trigger] pool.workers[w]).state
                == WorkerState::Drained implies pool.pending.len() == 0 by {
            if before.workers[w].state == WorkerState::Drained {
                assert(before.pending.len() == 0);
            }
        }
    }
}

/// A run that a worker survived has delivered every chunk. Where any worker
/// has found the queue drained, nothing is pending, and the deliveries are
/// the chunks of the queue, each once, in queue order, each to one worker
/// of the pool.
pub proof fn lemma_drained_pool_delivered_all(
    chunks: Seq<Chunk>,
    workers: nat,
    turns: Seq<Turn>,
    survivor: int,
)
    requires
        0 <= survivor < workers,
        spec_run(spec_initial(chunks, workers), turns).workers[survivor].state
            == WorkerState::Drained,
    ensures
        ({
            let pool = spec_run(spec_initial(chunks, workers), turns);
            &&& pool.pending.len() == 0
            &&& pool.delivered.len() == chunks.len()
            &&& forall|i: int|
                0 <= i < chunks.len() ==> (#[trigger] pool.delivered[i]).chunk == chunks[i] && 0
                    <= pool.delivered[i].worker < workers
        }),
{
    let pool = spec_run(spec_initial(chunks, workers), turns);
    lemma_drained_means_empty(chunks, workers, turns);
    lemma_exactly_once(chunks, workers, turns);
    assert(pool.workers[survivor].state == WorkerState::Drained);
}

/// Exactly-once processing. In a pool with at least one worker, where no
/// pipeline ends in a failure or a fault and every worker has ended, every
/// chunk of the queue was delivered, each once and to one worker, and no
/// signal was sent.
pub proof fn lemma_all_succeed_all_delivered(chunks: Seq<Chunk>, workers: nat, turns: Seq<Turn>)
    requires
        workers >= 1,
        forall|t: int|
            0 <= t < turns.len() ==> !((#[trigger] turns[t]).outcome is Failed) && !(
            turns[t].outcome is OracleFault),
        forall|w: int|
            0 <= w < workers ==> (#[trigger] spec_run(
                spec_initial(chunks, workers),
                turns,
            ).workers[w]).state != WorkerState::Active,
    ensures
        ({
            let pool = spec_run(spec_initial(chunks, workers), turns);
            &&& pool.pending.len() == 0
            &&& pool.delivered.len() == chunks.len()
            &&& forall|i: int|
                0 <= i < chunks.len() ==> (#[trigger] pool.delivered[i]).chunk == chunks[i] && 0
                    <= pool.delivered[i].worker < workers
            &&& pool.signals == 0
        }),
{
    let pool = spec_run(spec_initial(chunks, workers), turns);
    lemma_drained_means_empty(chunks, workers, turns);
    assert(pool.workers[0].state != WorkerState::Active);
    assert(pool.workers[0].state == WorkerState::Drained);
    lemma_drained_pool_delivered_all(chunks, workers, turns, 0);
    lemma_one_signal_per_failed_worker(chunks, workers, turns);
    assert(spec_failed(pool) =~= Set::<int>::empty());
}

/// The number of turns that end in a failure.
pub open spec fn spec_failures(turns: Seq<Turn>) -> nat
    decreases turns.len(),
{
    if turns.len() == 0 {
        0
    } else {
        spec_failures(turns.drop_last()) + if turns.last().outcome is Failed {
            1nat
        } else {
            0nat
        }
    }
}

/// No more workers fail than turns end in a failure.
pub proof fn lemma_failed_workers_bounded(chunks: Seq<Chunk>, workers: nat, turns: Seq<Turn>)
    ensures
        ({
            let pool = spec_run(spec_initial(chunks, workers), turns);
            spec_failed(pool).finite() && spec_failed(pool).len() <= spec_failures(turns)
        }),
    decreases turns.len(),
{
    let pool = spec_run(spec_initial(chunks, workers), turns);
    if turns.len() == 0 {
        assert(spec_failed(pool) =~= Set::<int>::empty());
    } else {
        let before = spec_run(spec_initial(chunks, workers), turns.drop_last());
        lemma_failed_workers_bounded(chunks, workers, turns.drop_last());
        let turn = turns.last();
        assert(pool == spec_turn(before, turn));
        if 0 <= turn.worker < before.workers.len() {
            let worker = before.workers[turn.worker];
            let (claimed, rest, next) = worker.spec_claim(before.pending);
            if next is Some && turn.outcome is Failed {
                assert(spec_failed(pool) =~= spec_failed(before).insert(turn.worker));
            } else {
                assert(pool.workers[turn.worker].state != WorkerState::Failed || worker.state
                    == WorkerState::Failed);
                assert(spec_failed(pool) =~= spec_failed(before));
            }
        }
    }
}

/// Partial failure, in general. In a pool where fewer turns end in a
/// failure than there are workers, no turn ends in a fault, and every
/// worker has ended, some worker ended on a drained queue. So every chunk
/// of the queue was delivered, each once and to one worker, those queued
/// behind a failed chunk too, and one signal was sent for each worker that
/// failed.
pub proof fn lemma_survivors_drain(chunks: Seq<Chunk>, workers: nat, turns: Seq<Turn>)
    requires
        spec_failures(turns) < workers,
        forall|t: int| 0 <= t < turns.len() ==> !((#[trigger] turns[t]).outcome is OracleFault),
        forall|w: int|
            0 <= w < workers ==> (#[trigger] spec_run(
                spec_initial(chunks, workers),
                turns,
            ).workers[w]).state != WorkerState::Active,
    ensures
        ({
            let pool = spec_run(spec_initial(chunks, workers), turns);
            &&& exists|w: int|
                0 <= w < workers && (#[trigger] pool.workers[w]).state == WorkerState::Drained
            &&& pool.pending.len() == 0
            &&& pool.delivered.len() == chunks.len()
            &&& forall|i: int|
                0 <= i < chunks.len() ==> (#[trigger] pool.delivered[i]).chunk == chunks[i] && 0
                    <= pool.delivered[i].worker < workers
            &&& pool.signals == spec_failed(pool).len()
            &&& pool.signals <= spec_failures(turns)
        }),
{
    let pool = spec_run(spec_initial(chunks, workers), turns);
    lemma_drained_means_empty(chunks, workers, turns);
    lemma_failed_workers_bounded(chunks, workers, turns);
    lemma_one_signal_per_failed_worker(chunks, workers, turns);
    let all = set_int_range(0, workers as int);
    lemma_int_range(0, workers as int);
    if all.subset_of(spec_failed(pool)) {
        lemma_len_subset(all, spec_failed(pool));
        assert(false);
    }
    let survivor = choose|w: int| all.contains(w) && !spec_failed(pool).contains(w);
    assert(0 <= survivor < workers);
    assert(pool.workers[survivor].state != WorkerState::Failed);
    assert(pool.workers[survivor].state != WorkerState::Active);
    assert(pool.workers[survivor].state != WorkerState::Aborted);
    assert(pool.workers[survivor].state == WorkerState::Drained);
    lemma_drained_pool_delivered_all(chunks, workers, turns, survivor);
}

/// Turns of one worker whose chunks all end without failure or fault: the
/// worker receives the oldest pending chunks, one per turn, stays active,
/// and no signal is sent; no other worker is touched.
pub proof fn lemma_worker_keeps_going(pool: PoolState, worker: int, turns: Seq<Turn>)
    requires
        0 <= worker < pool.workers.len(),
        pool.workers[worker].state == WorkerState::Active,
        turns.len() <= pool.pending.len(),
        forall|t: int|
            0 <= t < turns.len() ==> (#[trigger] turns[t]).worker == worker && !(
            turns[t].outcome is Failed) && !(turns[t].outcome is OracleFault),
    ensures
        ({
            let after = spec_run(pool, turns);
            &&& after.workers == pool.workers
            &&& after.signals == pool.signals
            &&& after.pending == pool.pending.skip(turns.len() as int)
            &&& after.delivered == pool.delivered + Seq::new(
                turns.len(),
                |t: int| Delivery { worker, chunk: pool.pending[t] },
            )
        }),
    decreases turns.len(),
{
    let after = spec_run(pool, turns);
    if turns.len() == 0 {
        assert(after.pending =~= pool.pending.skip(0));
        assert(after.delivered =~= pool.delivered + Seq::new(
            0,
            |t: int| Delivery { worker, chunk: pool.pending[t] },
        ));
    } else {
        let front = turns.drop_last();
        let before = spec_run(pool, front);
        assert forall|t: int| 0 <= t < front.len() implies (#[trigger] front[t]).worker == worker
            && !(front[t].outcome is Failed) && !(front[t].outcome is OracleFault) by {
            assert(front[t] == turns[t]);
        }
        lemma_worker_keeps_going(pool, worker, front);
        let turn = turns.last();
        assert(turn == turns[turns.len() - 1]);
        assert(before.pending.len() > 0);
        assert(before.pending[0] == pool.pending[front.len() as int]);
        assert(after.workers =~= pool.workers);
        assert(after.pending =~= pool.pending.skip(turns.len() as int));
        assert(after.delivered =~= pool.delivered + Seq::new(
            turns.len(),
            |t: int| Delivery { worker, chunk: pool.pending[t] },
        ));
    }
}

/// Partial-failure isolation. Where an active worker `failing` receives a
/// chunk that fails on every attempt, it stops and one signal is sent; no
/// other worker is touched and no pending chunk is lost. An active worker
/// `surviving` then receives every chunk that is left, one per turn, and
/// ends the run still active with the queue drained.
pub proof fn lemma_partial_failure_isolated(
    pool: PoolState,
    failing: int,
    output: String,
    surviving: int,
    turns: Seq<Turn>,
)
    requires
        0 <= failing < pool.workers.len(),
        0 <= surviving < pool.workers.len(),
        failing != surviving,
        pool.workers[failing].state == WorkerState::Active,
        pool.workers[surviving].state == WorkerState::Active,
        pool.pending.len() > 0,
        turns.len() == pool.pending.len() - 1,
        forall|t: int|
            0 <= t < turns.len() ==> (#[trigger] turns[t]).worker == surviving && !(
            turns[t].outcome is Failed) && !(turns[t].outcome is OracleFault),
    ensures
        ({
            let failure = Turn { worker: failing, outcome: PipelineOutcome::Failed { output } };
            let stopped = spec_turn(pool, failure);
            let after = spec_run(pool, seq![failure] + turns);
            &&& stopped.workers == pool.workers.update(
                failing,
                pool.workers[failing].at(WorkerState::Failed),
            )
            &&& stopped.signals == pool.signals + 1
            &&& stopped.pending == pool.pending.skip(1)
            &&& after.workers == stopped.workers
            &&& after.workers[surviving].state == WorkerState::Active
            &&& after.signals == pool.signals + 1
            &&& after.pending.len() == 0
            &&& after.delivered == pool.delivered.push(
                Delivery { worker: failing, chunk: pool.pending[0] },
            ) + Seq::new(
                turns.len(),
                |t: int| Delivery { worker: surviving, chunk: pool.pending[t + 1] },
            )
        }),
{
    let failure = Turn { worker: failing, outcome: PipelineOutcome::Failed { output } };
    let stopped = spec_turn(pool, failure);
    let all = seq![failure] + turns;
    lemma_run_first(pool, all);
    assert(all[0] == failure);
    assert(all.skip(1) =~= turns);
    lemma_worker_keeps_going(stopped, surviving, turns);
    let after = spec_run(stopped, turns);
    assert(after.pending =~= Seq::<Chunk>::empty());
    assert(Seq::new(turns.len(), |t: int| Delivery { worker: surviving, chunk: stopped.pending[t] })
        =~= Seq::new(
        turns.len(),
        |t: int| Delivery { worker: surviving, chunk: pool.pending[t + 1] },
    ));
}

} // verus!
