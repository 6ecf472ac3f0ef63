use encode_broker::pipeline::{
    ChunkPipeline, PipelineAction, PipelineEvent, PipelineOutcome, PipelinePhase, UnexpectedEvent,
    MAX_TRIES,
};

fn failure(status: i32, output: &str) -> PipelineEvent {
    PipelineEvent::EncodeFailed { status, output: output.to_string() }
}

/// Drives a pipeline with an encoder that fails as long as `fails` says so,
/// and an oracle that counts `counted` frames. Returns the outcome and the
/// encoder invocations as (pass, attempt).
fn drive(
    expected: usize,
    passes: usize,
    quality: bool,
    fails: &dyn Fn(usize, usize) -> bool,
    counted: Option<usize>,
) -> (PipelineOutcome, Vec<(usize, usize)>, usize) {
    let (mut pipeline, mut action) = ChunkPipeline::start(expected, passes, quality);
    let mut invocations = Vec::new();
    let mut routines = 0;
    loop {
        let event = match action {
            PipelineAction::RunQualityRoutine => {
                routines += 1;
                PipelineEvent::QualityRoutineDone
            }
            PipelineAction::Encode { pass, attempt } => {
                invocations.push((pass, attempt));
                if fails(pass, attempt) {
                    failure(1, &format!("pass {} attempt {}", pass, attempt))
                } else {
                    PipelineEvent::EncodeSucceeded
                }
            }
            PipelineAction::CountFrames => match counted {
                Some(frames) => PipelineEvent::FramesCounted { frames },
                None => PipelineEvent::OracleFailed,
            },
            PipelineAction::Finish(outcome) => {
                assert!(pipeline.is_finished());
                return (outcome, invocations, routines);
            }
        };
        action = pipeline.advance(event).unwrap();
    }
}

#[test]
fn max_tries_is_three() {
    assert_eq!(MAX_TRIES, 3);
}

#[test]
fn single_pass_success() {
    let (outcome, invocations, routines) = drive(10, 1, false, &|_, _| false, Some(10));
    assert_eq!(outcome, PipelineOutcome::Verified { frames: 10 });
    assert_eq!(invocations, vec![(1, 1)]);
    assert_eq!(routines, 0);
}

#[test]
fn quality_routine_runs_once_before_first_pass() {
    let (pipeline, action) = ChunkPipeline::start(10, 2, true);
    assert_eq!(action, PipelineAction::RunQualityRoutine);
    assert_eq!(pipeline.phase, PipelinePhase::QualityRouting);
    let (outcome, invocations, routines) = drive(10, 2, true, &|_, _| false, Some(10));
    assert_eq!(outcome, PipelineOutcome::Verified { frames: 10 });
    assert_eq!(invocations, vec![(1, 1), (2, 1)]);
    assert_eq!(routines, 1);
}

#[test]
fn always_failing_encoder_is_tried_three_times() {
    let (outcome, invocations, _) = drive(10, 2, false, &|_, _| true, Some(10));
    assert_eq!(
        outcome,
        PipelineOutcome::Failed { output: "pass 1 attempt 3".to_string() }
    );
    assert_eq!(invocations, vec![(1, 1), (1, 2), (1, 3)]);
}

#[test]
fn failure_in_second_pass_is_tried_three_times() {
    let (outcome, invocations, _) = drive(10, 2, false, &|pass, _| pass == 2, Some(10));
    assert_eq!(
        outcome,
        PipelineOutcome::Failed { output: "pass 2 attempt 3".to_string() }
    );
    assert_eq!(invocations, vec![(1, 1), (2, 1), (2, 2), (2, 3)]);
}

#[test]
fn success_on_attempt_k_takes_k_invocations() {
    for k in 1..=3usize {
        let (outcome, invocations, _) =
            drive(7, 2, false, &|pass, attempt| pass == 1 && attempt < k, Some(7));
        assert_eq!(outcome, PipelineOutcome::Verified { frames: 7 });
        let mut expected: Vec<(usize, usize)> = (1..=k).map(|attempt| (1, attempt)).collect();
        expected.push((2, 1));
        assert_eq!(invocations, expected);
    }
}

#[test]
fn retries_start_afresh_in_each_pass() {
    let (outcome, invocations, _) =
        drive(7, 3, false, &|_, attempt| attempt < 3, Some(7));
    assert_eq!(outcome, PipelineOutcome::Verified { frames: 7 });
    assert_eq!(
        invocations,
        vec![(1, 1), (1, 2), (1, 3), (2, 1), (2, 2), (2, 3), (3, 1), (3, 2), (3, 3)]
    );
}

#[test]
fn mismatch_is_no_failure() {
    let (outcome, invocations, _) = drive(10, 1, false, &|_, _| false, Some(9));
    assert_eq!(outcome, PipelineOutcome::Mismatch { actual: 9, expected: 10 });
    assert_eq!(outcome.recorded(), None);
    assert_eq!(invocations, vec![(1, 1)]);
}

#[test]
fn verified_outcome_is_recorded() {
    assert_eq!(PipelineOutcome::Verified { frames: 12 }.recorded(), Some(12));
    assert_eq!(PipelineOutcome::Failed { output: String::new() }.recorded(), None);
    assert_eq!(PipelineOutcome::OracleFault.recorded(), None);
}

#[test]
fn oracle_fault_is_surfaced() {
    let (outcome, _, _) = drive(10, 1, false, &|_, _| false, None);
    assert_eq!(outcome, PipelineOutcome::OracleFault);
}

#[test]
fn no_pass_goes_straight_to_the_count() {
    let (pipeline, action) = ChunkPipeline::start(5, 0, false);
    assert_eq!(action, PipelineAction::CountFrames);
    assert_eq!(pipeline.phase, PipelinePhase::Verifying);
    let (outcome, invocations, _) = drive(5, 0, true, &|_, _| true, Some(5));
    assert_eq!(outcome, PipelineOutcome::Verified { frames: 5 });
    assert!(invocations.is_empty());
}

#[test]
fn unexpected_event_changes_nothing() {
    let (mut pipeline, _) = ChunkPipeline::start(5, 1, false);
    let before = pipeline;
    assert_eq!(
        pipeline.advance(PipelineEvent::FramesCounted { frames: 5 }),
        Err(UnexpectedEvent { phase: PipelinePhase::Encoding { pass: 1, attempt: 1 } })
    );
    assert_eq!(pipeline, before);
    assert_eq!(
        pipeline.advance(PipelineEvent::QualityRoutineDone),
        Err(UnexpectedEvent { phase: PipelinePhase::Encoding { pass: 1, attempt: 1 } })
    );
    assert_eq!(pipeline.advance(PipelineEvent::EncodeSucceeded), Ok(PipelineAction::CountFrames));
    assert_eq!(
        pipeline.advance(PipelineEvent::EncodeSucceeded),
        Err(UnexpectedEvent { phase: PipelinePhase::Verifying })
    );
    assert_eq!(
        pipeline.advance(PipelineEvent::OracleFailed),
        Ok(PipelineAction::Finish(PipelineOutcome::OracleFault))
    );
    assert_eq!(
        pipeline.advance(PipelineEvent::OracleFailed),
        Err(UnexpectedEvent { phase: PipelinePhase::Finished })
    );
    assert!(pipeline.is_finished());
}

#[test]
fn quality_phase_refuses_encoder_reports() {
    let (mut pipeline, _) = ChunkPipeline::start(5, 1, true);
    assert_eq!(
        pipeline.advance(PipelineEvent::EncodeSucceeded),
        Err(UnexpectedEvent { phase: PipelinePhase::QualityRouting })
    );
    assert_eq!(
        pipeline.advance(PipelineEvent::QualityRoutineDone),
        Ok(PipelineAction::Encode { pass: 1, attempt: 1 })
    );
}

#[test]
fn replay_of_three_failures() {
    let (mut pipeline, action) = ChunkPipeline::start(5, 2, false);
    assert_eq!(action, PipelineAction::Encode { pass: 1, attempt: 1 });
    let answers = pipeline.replay(&vec![failure(1, "a"), failure(2, "b"), failure(3, "c")]);
    assert_eq!(
        answers,
        vec![
            Ok(PipelineAction::Encode { pass: 1, attempt: 2 }),
            Ok(PipelineAction::Encode { pass: 1, attempt: 3 }),
            Ok(PipelineAction::Finish(PipelineOutcome::Failed { output: "c".to_string() })),
        ]
    );
    assert_eq!(pipeline.phase, PipelinePhase::Finished);
}

#[test]
fn replay_of_a_whole_run() {
    let (mut pipeline, _) = ChunkPipeline::start(5, 2, true);
    let answers = pipeline.replay(&vec![
        PipelineEvent::QualityRoutineDone,
        failure(1, "a"),
        PipelineEvent::EncodeSucceeded,
        PipelineEvent::OracleFailed,
        PipelineEvent::EncodeSucceeded,
        PipelineEvent::FramesCounted { frames: 5 },
        PipelineEvent::EncodeSucceeded,
    ]);
    assert_eq!(
        answers,
        vec![
            Ok(PipelineAction::Encode { pass: 1, attempt: 1 }),
            Ok(PipelineAction::Encode { pass: 1, attempt: 2 }),
            Ok(PipelineAction::Encode { pass: 2, attempt: 1 }),
            Err(UnexpectedEvent { phase: PipelinePhase::Encoding { pass: 2, attempt: 1 } }),
            Ok(PipelineAction::CountFrames),
            Ok(PipelineAction::Finish(PipelineOutcome::Verified { frames: 5 })),
            Err(UnexpectedEvent { phase: PipelinePhase::Finished }),
        ]
    );
}

#[test]
fn replay_of_nothing() {
    let (mut pipeline, _) = ChunkPipeline::start(5, 2, true);
    let before = pipeline;
    assert!(pipeline.replay(&Vec::new()).is_empty());
    assert_eq!(pipeline, before);
}

#[test]
fn clones_are_equal() {
    let event = failure(3, "out");
    assert_eq!(event.clone(), event);
    let action = PipelineAction::Finish(PipelineOutcome::Failed { output: "x".to_string() });
    assert_eq!(action.clone(), action);
    let outcome = PipelineOutcome::Mismatch { actual: 1, expected: 2 };
    assert_eq!(outcome.clone(), outcome);
}
