use encode_broker::broker::{Broker, ProgressFinish};
use encode_broker::chunk::Chunk;
use encode_broker::pipeline::{ChunkPipeline, PipelineAction, PipelineEvent, PipelineOutcome};
use encode_broker::queue::WorkQueue;
use encode_broker::report::{encoder_failure, FrameMismatch};
use encode_broker::settings::{EncodeArgs, Verbosity};
use encode_broker::worker::{Worker, WorkerState, WorkerStep};
use std::sync::Mutex;

fn chunks(count: usize) -> Vec<Chunk> {
    (0..count)
        .map(|index| Chunk::new(index, format!("{:05}", index), 10 + index, format!("{:05}.ivf", index)))
        .collect()
}

fn project(workers: usize, passes: usize, verbosity: Verbosity) -> EncodeArgs {
    EncodeArgs { workers, passes, temp: "/tmp/encode".to_string(), verbosity }
}

/// Runs one chunk with an encoder that fails on the chunks named in `bad`.
fn encode(broker: &Broker, chunk: &Chunk, bad: &[usize]) -> PipelineOutcome {
    let (mut pipeline, mut action) = broker.encode_chunk(chunk);
    loop {
        let event = match action {
            PipelineAction::RunQualityRoutine => PipelineEvent::QualityRoutineDone,
            PipelineAction::Encode { .. } => {
                if bad.contains(&chunk.index) {
                    PipelineEvent::EncodeFailed { status: 1, output: "crash".to_string() }
                } else {
                    PipelineEvent::EncodeSucceeded
                }
            }
            PipelineAction::CountFrames => PipelineEvent::FramesCounted { frames: chunk.frames },
            PipelineAction::Finish(outcome) => return outcome,
        };
        action = pipeline.advance(event).unwrap();
    }
}

/// Runs the pool on threads and returns, for each worker, the indices of
/// the chunks it received, and the number of failure signals.
fn run_pool(count: usize, workers: usize, bad: &[usize]) -> (Vec<Vec<usize>>, usize) {
    let settings = project(workers, 1, Verbosity::Quiet);
    let broker = Broker::new(chunks(count), &settings, false);
    let run = match broker.encoding_loop() {
        Some(run) => run,
        None => return (Vec::new(), 0),
    };
    let queue = Mutex::new(run.queue);
    let signals = Mutex::new(0usize);
    let received: Vec<Mutex<Vec<usize>>> = run.workers.iter().map(|_| Mutex::new(Vec::new())).collect();
    crossbeam_utils::thread::scope(|scope| {
        for worker in run.workers.iter() {
            let mut worker = *worker;
            let (queue, signals, received, broker) = (&queue, &signals, &received, &broker);
            scope.spawn(move |_| loop {
                let next = worker.claim(&mut queue.lock().unwrap());
                let chunk = match next {
                    Some(chunk) => chunk,
                    None => break,
                };
                received[worker.id].lock().unwrap().push(chunk.index);
                match worker.settle(&encode(broker, &chunk, bad)) {
                    WorkerStep::Continue => {}
                    WorkerStep::SignalFailure => {
                        *signals.lock().unwrap() += 1;
                        break;
                    }
                    WorkerStep::Abort => panic!("no fault was scripted"),
                }
            });
        }
    })
    .unwrap();
    let per_worker = received.into_iter().map(|list| list.into_inner().unwrap()).collect();
    (per_worker, signals.into_inner().unwrap())
}

#[test]
fn every_chunk_goes_to_exactly_one_worker() {
    let count = 12;
    for workers in 1..=count {
        let (per_worker, signals) = run_pool(count, workers, &[]);
        assert_eq!(per_worker.len(), workers);
        assert_eq!(signals, 0);
        let mut all: Vec<usize> = per_worker.iter().flatten().copied().collect();
        all.sort();
        assert_eq!(all, (0..count).collect::<Vec<usize>>());
        for list in per_worker.iter() {
            // Each worker sees its chunks in queue order.
            assert!(list.windows(2).all(|pair| pair[0] < pair[1]));
        }
    }
}

#[test]
fn empty_queue_is_a_no_op() {
    for verbosity in [Verbosity::Quiet, Verbosity::Normal, Verbosity::Verbose] {
        let settings = project(4, 1, verbosity);
        let broker = Broker::new(Vec::new(), &settings, true);
        assert!(broker.encoding_loop().is_none());
    }
    assert_eq!(run_pool(0, 4, &[]), (Vec::new(), 0));
}

#[test]
fn pool_run_has_one_worker_per_configured_worker() {
    let settings = project(3, 2, Verbosity::Verbose);
    let all = chunks(5);
    let broker = Broker::new(all.clone(), &settings, false);
    let mut run = broker.encoding_loop().unwrap();
    assert_eq!(run.workers, vec![Worker::new(0), Worker::new(1), Worker::new(2)]);
    assert_eq!(run.finish, ProgressFinish::WorkerBars);
    for chunk in all.iter() {
        assert_eq!(run.queue.pop().as_ref(), Some(chunk));
    }
    assert_eq!(run.queue.pop(), None);
}

#[test]
fn finish_follows_verbosity() {
    let expected = [
        (Verbosity::Quiet, ProgressFinish::Nothing),
        (Verbosity::Normal, ProgressFinish::SingleBar),
        (Verbosity::Verbose, ProgressFinish::WorkerBars),
    ];
    for (verbosity, finish) in expected {
        let settings = project(1, 1, verbosity);
        let broker = Broker::new(chunks(1), &settings, false);
        assert_eq!(broker.encoding_loop().unwrap().finish, finish);
    }
}

#[test]
fn pool_without_workers_still_queues() {
    let settings = project(0, 1, Verbosity::Normal);
    let broker = Broker::new(chunks(2), &settings, false);
    let run = broker.encoding_loop().unwrap();
    assert!(run.workers.is_empty());
    assert_eq!(run.finish, ProgressFinish::SingleBar);
}

#[test]
fn broker_new_keeps_its_arguments() {
    let settings = project(2, 3, Verbosity::Normal);
    let all = chunks(3);
    let broker = Broker::new(all.clone(), &settings, true);
    assert_eq!(broker.chunk_queue, all);
    assert_eq!(broker.project, &settings);
    assert!(broker.target_quality);
}

#[test]
fn encode_chunk_starts_the_pipeline() {
    let settings = project(2, 3, Verbosity::Normal);
    let all = chunks(1);
    let with_routine = Broker::new(all.clone(), &settings, true);
    assert_eq!(
        with_routine.encode_chunk(&all[0]),
        ChunkPipeline::start(10, 3, true)
    );
    assert_eq!(with_routine.encode_chunk(&all[0]).1, PipelineAction::RunQualityRoutine);
    let without = Broker::new(all.clone(), &settings, false);
    assert_eq!(
        without.encode_chunk(&all[0]).1,
        PipelineAction::Encode { pass: 1, attempt: 1 }
    );
    assert_eq!(without.encode_chunk(&all[0]).0.expected_frames, 10);
    assert_eq!(without.encode_chunk(&all[0]).0.passes, 3);
}

#[test]
fn worker_claims_until_drained() {
    let mut queue = WorkQueue::load(&chunks(2));
    let mut worker = Worker::new(5);
    assert!(worker.is_active());
    assert_eq!(worker.claim(&mut queue).map(|chunk| chunk.index), Some(0));
    assert_eq!(worker.settle(&PipelineOutcome::Verified { frames: 10 }), WorkerStep::Continue);
    assert_eq!(worker.claim(&mut queue).map(|chunk| chunk.index), Some(1));
    assert_eq!(
        worker.settle(&PipelineOutcome::Mismatch { actual: 1, expected: 11 }),
        WorkerStep::Continue
    );
    assert!(worker.is_active());
    assert_eq!(worker.claim(&mut queue), None);
    assert_eq!(worker.state, WorkerState::Drained);
    assert_eq!(worker.id, 5);
}

#[test]
fn failed_worker_stops_and_leaves_the_queue_alone() {
    let mut queue = WorkQueue::load(&chunks(3));
    let mut failing = Worker::new(0);
    let mut surviving = Worker::new(1);
    assert_eq!(failing.claim(&mut queue).map(|chunk| chunk.index), Some(0));
    assert_eq!(
        failing.settle(&PipelineOutcome::Failed { output: "crash".to_string() }),
        WorkerStep::SignalFailure
    );
    assert_eq!(failing.state, WorkerState::Failed);
    assert_eq!(failing.claim(&mut queue), None);
    assert_eq!(failing.state, WorkerState::Failed);
    // The other worker receives every chunk that is left.
    assert_eq!(surviving.claim(&mut queue).map(|chunk| chunk.index), Some(1));
    assert_eq!(surviving.settle(&PipelineOutcome::Verified { frames: 11 }), WorkerStep::Continue);
    assert_eq!(surviving.claim(&mut queue).map(|chunk| chunk.index), Some(2));
    assert_eq!(surviving.settle(&PipelineOutcome::Verified { frames: 12 }), WorkerStep::Continue);
    assert_eq!(surviving.claim(&mut queue), None);
    assert_eq!(surviving.state, WorkerState::Drained);
}

#[test]
fn oracle_fault_aborts_the_worker() {
    let mut worker = Worker::new(0);
    assert_eq!(worker.settle(&PipelineOutcome::OracleFault), WorkerStep::Abort);
    assert_eq!(worker.state, WorkerState::Aborted);
    assert!(!worker.is_active());
}

#[test]
fn one_failing_chunk_does_not_stop_the_pool() {
    let count = 9;
    let (per_worker, signals) = run_pool(count, 2, &[0]);
    assert_eq!(signals, 1);
    let mut all: Vec<usize> = per_worker.iter().flatten().copied().collect();
    all.sort();
    // Every chunk was handed out, the bad one included, and none twice.
    assert_eq!(all, (0..count).collect::<Vec<usize>>());
    let stopped = per_worker.iter().position(|list| list.contains(&0)).unwrap();
    // The worker that received the bad chunk received nothing after it.
    assert_eq!(per_worker[stopped].last(), Some(&0));
    // The other worker went on to the end of the queue.
    assert_eq!(per_worker[1 - stopped].last(), Some(&(count - 1)));
}

#[test]
fn all_workers_failing_leaves_chunks_unclaimed() {
    let (per_worker, signals) = run_pool(6, 2, &[0, 1, 2, 3, 4, 5]);
    assert_eq!(signals, 2);
    assert_eq!(per_worker.iter().map(|list| list.len()).sum::<usize>(), 2);
}

#[test]
fn frame_check_describes_a_mismatch() {
    let chunk = Chunk::new(4, "00004".to_string(), 100, "00004.ivf".to_string());
    assert_eq!(Broker::frame_check_output(&chunk, 100, 100), None);
    assert_eq!(
        Broker::frame_check_output(&chunk, 100, 99),
        Some(FrameMismatch { chunk_index: 4, actual: 99, expected: 100 })
    );
    assert_eq!(
        Broker::frame_check_output(&chunk, 0, 1),
        Some(FrameMismatch { chunk_index: 4, actual: 1, expected: 0 })
    );
}

#[test]
fn encoder_failure_indents_the_output() {
    let chunk = Chunk::new(4, "00004".to_string(), 100, "00004.ivf".to_string());
    let first = encoder_failure(&chunk, 1, 137, "first line\n\n  second line\n");
    assert_eq!(first.chunk_index, 4);
    assert_eq!(first.status, 137);
    assert_eq!(first.output, "        first line\n\n          second line\n");
    assert!(!first.exhausted);
    assert!(!encoder_failure(&chunk, 2, 1, "").exhausted);
    let last = encoder_failure(&chunk, 3, 1, "x");
    assert!(last.exhausted);
    assert_eq!(last.output, "        x");
}
