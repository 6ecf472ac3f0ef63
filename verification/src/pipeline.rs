//! The per-chunk pipeline: an optional quality routine, the encode passes
//! with their bounded retries, and the check of the encoded frame count.
//!
//! The pipeline itself runs no encoder and reads no file. It is a state
//! machine: each step takes what a collaborator reported and answers with
//! what has to be done next.

use vstd::prelude::*;

verus! {

/// Attempts that one pass is given before the chunk is given up.
pub const MAX_TRIES: usize = 3;

/// Where a chunk stands in its pipeline, named by what is awaited.
#[derive(Clone, Copy, Debug, PartialEq, Eq, Structural)]
pub enum PipelinePhase {
    /// The quality routine runs.
    QualityRouting,
    /// Attempt `attempt` of pass `pass` runs; both count from one.
    Encoding { pass: usize, attempt: usize },
    /// The frames of the encoded artifact are counted.
    Verifying,
    /// The pipeline has ended; nothing more is awaited.
    Finished,
}

/// What a collaborator reported.
#[derive(Debug, PartialEq, Eq)]
pub enum PipelineEvent {
    /// The quality routine returned.
    QualityRoutineDone,
    /// The encode attempt succeeded.
    EncodeSucceeded,
    /// The encode attempt failed with this exit status and captured output.
    EncodeFailed { status: i32, output: String },
    /// The encoded artifact holds this many frames.
    FramesCounted { frames: usize },
    /// The frames of the encoded artifact could not be counted.
    OracleFailed,
}

/// How a pipeline ended.
#[derive(Debug, PartialEq, Eq)]
pub enum PipelineOutcome {
    /// All passes succeeded and the artifact holds the expected frames.
    Verified { frames: usize },
    /// All passes succeeded but the artifact holds `actual` frames.
    Mismatch { actual: usize, expected: usize },
    /// A pass failed on every attempt; `output` is what the last one captured.
    Failed { output: String },
    /// The frame count could not be obtained.
    OracleFault,
}

/// What the driver of a pipeline has to do next.
#[derive(Debug, PartialEq, Eq)]
pub enum PipelineAction {
    /// Run the quality routine on the chunk, then report `QualityRoutineDone`.
    RunQualityRoutine,
    /// Run the encoder for this pass, then report how it ended.
    Encode { pass: usize, attempt: usize },
    /// Count the frames of the encoded artifact, then report them.
    CountFrames,
    /// Stop: the pipeline ended this way.
    Finish(PipelineOutcome),
}

/// A report that the pipeline was not waiting for.
#[derive(Clone, Copy, Debug, PartialEq, Eq, Structural)]
pub struct UnexpectedEvent {
    /// The phase in which the report arrived.
    pub phase: PipelinePhase,
}

/// The pipeline of one chunk.
#[derive(Clone, Copy, Debug, PartialEq, Eq, Structural)]
pub struct ChunkPipeline {
    /// Frames the encoded artifact must hold.
    pub expected_frames: usize,
    /// Passes the chunk goes through.
    pub passes: usize,
    /// What is awaited.
    pub phase: PipelinePhase,
}

impl Clone for PipelineEvent {
    fn clone(&self) -> (copy: PipelineEvent)
        ensures
            copy == *self,
    {
        match self {
            PipelineEvent::QualityRoutineDone => PipelineEvent::QualityRoutineDone,
            PipelineEvent::EncodeSucceeded => PipelineEvent::EncodeSucceeded,
            PipelineEvent::EncodeFailed { status, output } => PipelineEvent::EncodeFailed {
                status: *status,
                output: output.clone(),
            },
            PipelineEvent::FramesCounted { frames } => PipelineEvent::FramesCounted {
                frames: *frames,
            },
            PipelineEvent::OracleFailed => PipelineEvent::OracleFailed,
        }
    }
}

impl Clone for PipelineOutcome {
    fn clone(&self) -> (copy: PipelineOutcome)
        ensures
            copy == *self,
    {
        match self {
            PipelineOutcome::Verified { frames } => PipelineOutcome::Verified { frames: *frames },
            PipelineOutcome::Mismatch { actual, expected } => PipelineOutcome::Mismatch {
                actual: *actual,
                expected: *expected,
            },
            PipelineOutcome::Failed { output } => PipelineOutcome::Failed {
                output: output.clone(),
            },
            PipelineOutcome::OracleFault => PipelineOutcome::OracleFault,
        }
    }
}

impl Clone for PipelineAction {
    fn clone(&self) -> (copy: PipelineAction)
        ensures
            copy == *self,
    {
        match self {
            PipelineAction::RunQualityRoutine => PipelineAction::RunQualityRoutine,
            PipelineAction::Encode { pass, attempt } => PipelineAction::Encode {
                pass: *pass,
                attempt: *attempt,
            },
            PipelineAction::CountFrames => PipelineAction::CountFrames,
            PipelineAction::Finish(outcome) => PipelineAction::Finish(outcome.clone()),
        }
    }
}

impl PipelineOutcome {
    /// The frame count to record for the chunk: there is one exactly when
    /// the artifact was verified.
    pub open spec fn spec_recorded(self) -> Option<usize> {
        match self {
            PipelineOutcome::Verified { frames } => Some(frames),
            _ => None,
        }
    }

    /// The frame count to record for the chunk, if it was verified.
    pub fn recorded(&self) -> (frames: Option<usize>)
        ensures
            frames == self.spec_recorded(),
    {
        match self {
            PipelineOutcome::Verified { frames } => Some(*frames),
            _ => None,
        }
    }
}

impl ChunkPipeline {
    /// In the encoding phase the pass and the attempt are within their bounds.
    pub open spec fn wf(self) -> bool {
        match self.phase {
            PipelinePhase::Encoding { pass, attempt } => 1 <= pass <= self.passes && 1 <= attempt
                <= MAX_TRIES,
            _ => true,
        }
    }

    /// The pipeline with `phase` in place of its own.
    pub open spec fn at(self, phase: PipelinePhase) -> ChunkPipeline {
        ChunkPipeline { expected_frames: self.expected_frames, passes: self.passes, phase }
    }

    /// The step into the pass loop: the first attempt of the first pass, or
    /// the frame count where there is no pass to run.
    pub open spec fn spec_enter_passes(self) -> (ChunkPipeline, PipelineAction) {
        if self.passes >= 1 {
            (
                self.at(PipelinePhase::Encoding { pass: 1, attempt: 1 }),
                PipelineAction::Encode { pass: 1, attempt: 1 },
            )
        } else {
            (self.at(PipelinePhase::Verifying), PipelineAction::CountFrames)
        }
    }

    /// A claimed chunk's pipeline and its first action.
    pub open spec fn spec_start(expected_frames: usize, passes: usize, quality_routing: bool) -> (
        ChunkPipeline,
        PipelineAction,
    ) {
        let fresh = ChunkPipeline {
            expected_frames,
            passes,
            phase: PipelinePhase::QualityRouting,
        };
        if quality_routing {
            (fresh, PipelineAction::RunQualityRoutine)
        } else {
            fresh.spec_enter_passes()
        }
    }

    /// How the frame count of the artifact ends the pipeline.
    pub open spec fn spec_verdict(self, frames: usize) -> PipelineOutcome {
        if frames == self.expected_frames {
            PipelineOutcome::Verified { frames }
        } else {
            PipelineOutcome::Mismatch { actual: frames, expected: self.expected_frames }
        }
    }

    /// The transition function: the pipeline after `event`, and the action
    /// that answers it. A report that is not awaited changes nothing.
    pub open spec fn spec_step(self, event: PipelineEvent) -> (
        ChunkPipeline,
        Result<PipelineAction, UnexpectedEvent>,
    ) {
        match (self.phase, event) {
            (PipelinePhase::QualityRouting, PipelineEvent::QualityRoutineDone) => {
                let (next, action) = self.spec_enter_passes();
                (next, Ok(action))
            },
            (PipelinePhase::Encoding { pass, attempt }, PipelineEvent::EncodeSucceeded) => {
                if pass < self.passes {
                    (
                        self.at(PipelinePhase::Encoding { pass: (pass + 1) as usize, attempt: 1 }),
                        Ok(PipelineAction::Encode { pass: (pass + 1) as usize, attempt: 1 }),
                    )
                } else {
                    (self.at(PipelinePhase::Verifying), Ok(PipelineAction::CountFrames))
                }
            },
            (
                PipelinePhase::Encoding { pass, attempt },
                PipelineEvent::EncodeFailed { status, output },
            ) => {
                if attempt < MAX_TRIES {
                    (
                        self.at(PipelinePhase::Encoding { pass, attempt: (attempt + 1) as usize }),
                        Ok(PipelineAction::Encode { pass, attempt: (attempt + 1) as usize }),
                    )
                } else {
                    (
                        self.at(PipelinePhase::Finished),
                        Ok(PipelineAction::Finish(PipelineOutcome::Failed { output })),
                    )
                }
            },
            (PipelinePhase::Verifying, PipelineEvent::FramesCounted { frames }) => (
                self.at(PipelinePhase::Finished),
                Ok(PipelineAction::Finish(self.spec_verdict(frames))),
            ),
            (PipelinePhase::Verifying, PipelineEvent::OracleFailed) => (
                self.at(PipelinePhase::Finished),
                Ok(PipelineAction::Finish(PipelineOutcome::OracleFault)),
            ),
            _ => (self, Err(UnexpectedEvent { phase: self.phase })),
        }
    }

    /// Claims a chunk: builds its pipeline and says what to do first. With
    /// `quality_routing` the quality routine comes before the first pass.
    pub fn start(expected_frames: usize, passes: usize, quality_routing: bool) -> (started: (
        ChunkPipeline,
        PipelineAction,
    ))
        ensures
            started == Self::spec_start(expected_frames, passes, quality_routing),
            started.0.wf(),
    {
        let fresh = ChunkPipeline {
            expected_frames,
            passes,
            phase: PipelinePhase::QualityRouting,
        };
        if quality_routing {
            (fresh, PipelineAction::RunQualityRoutine)
        } else {
            fresh.enter_passes()
        }
    }

    fn enter_passes(self) -> (entered: (ChunkPipeline, PipelineAction))
        ensures
            entered == self.spec_enter_passes(),
            entered.0.wf(),
    {
        if self.passes >= 1 {
            (
                ChunkPipeline {
                    expected_frames: self.expected_frames,
                    passes: self.passes,
                    phase: PipelinePhase::Encoding { pass: 1, attempt: 1 },
                },
                PipelineAction::Encode { pass: 1, attempt: 1 },
            )
        } else {
            (
                ChunkPipeline {
                    expected_frames: self.expected_frames,
                    passes: self.passes,
                    phase: PipelinePhase::Verifying,
                },
                PipelineAction::CountFrames,
            )
        }
    }

    /// Whether the pipeline has ended.
    pub fn is_finished(&self) -> (finished: bool)
        ensures
            finished == (self.phase == PipelinePhase::Finished),
    {
        match self.phase {
            PipelinePhase::Finished => true,
            _ => false,
        }
    }

    /// Takes one report and answers with the next action. A report that is
    /// not awaited in the current phase is refused and changes nothing.
    pub fn advance(&mut self, event: PipelineEvent) -> (action: Result<
        PipelineAction,
        UnexpectedEvent,
    >)
        ensures
            (*final(self), action) == old(self).spec_step(event),
            old(self).wf() ==> final(self).wf(),
    {
        let phase = self.phase;
        match phase {
            PipelinePhase::QualityRouting => match event {
                PipelineEvent::QualityRoutineDone => {
                    let (next, action) = self.enter_passes();
                    *self = next;
                    Ok(action)
                },
                _ => Err(UnexpectedEvent { phase }),
            },
            PipelinePhase::Encoding { pass, attempt } => match event {
                PipelineEvent::EncodeSucceeded => {
                    if pass < self.passes {
                        self.phase = PipelinePhase::Encoding { pass: pass + 1, attempt: 1 };
                        Ok(PipelineAction::Encode { pass: pass + 1, attempt: 1 })
                    } else {
                        self.phase = PipelinePhase::Verifying;
                        Ok(PipelineAction::CountFrames)
                    }
                },
                PipelineEvent::EncodeFailed { status: _, output } => {
                    if attempt < MAX_TRIES {
                        self.phase = PipelinePhase::Encoding { pass, attempt: attempt + 1 };
                        Ok(PipelineAction::Encode { pass, attempt: attempt + 1 })
                    } else {
                        self.phase = PipelinePhase::Finished;
                        Ok(PipelineAction::Finish(PipelineOutcome::Failed { output }))
                    }
                },
                _ => Err(UnexpectedEvent { phase }),
            },
            PipelinePhase::Verifying => match event {
                PipelineEvent::FramesCounted { frames } => {
                    let outcome = if frames == self.expected_frames {
                        PipelineOutcome::Verified { frames }
                    } else {
                        PipelineOutcome::Mismatch { actual: frames, expected: self.expected_frames }
                    };
                    self.phase = PipelinePhase::Finished;
                    Ok(PipelineAction::Finish(outcome))
                },
                PipelineEvent::OracleFailed => {
                    self.phase = PipelinePhase::Finished;
                    Ok(PipelineAction::Finish(PipelineOutcome::OracleFault))
                },
                _ => Err(UnexpectedEvent { phase }),
            },
            PipelinePhase::Finished => Err(UnexpectedEvent { phase }),
        }
    }
}

impl ChunkPipeline {
    /// The pipeline after a sequence of reports, each answered in turn, and
    /// the answers in the same order.
    pub open spec fn spec_replay(self, events: Seq<PipelineEvent>) -> (
        ChunkPipeline,
        Seq<Result<PipelineAction, UnexpectedEvent>>,
    )
        decreases events.len(),
    {
        if events.len() == 0 {
            (self, Seq::empty())
        } else {
            let (before, answers) = self.spec_replay(events.drop_last());
            let (after, answer) = before.spec_step(events.last());
            (after, answers.push(answer))
        }
    }

    /// Feeds a recorded sequence of reports to the pipeline and returns the
    /// answer to each.
    pub fn replay(&mut self, events: &Vec<PipelineEvent>) -> (answers: Vec<
        Result<PipelineAction, UnexpectedEvent>,
    >)
        ensures
            (*final(self), answers@) == old(self).spec_replay(events@),
            old(self).wf() ==> final(self).wf(),
    {
        let ghost start = *self;
        let mut answers: Vec<Result<PipelineAction, UnexpectedEvent>> = Vec::new();
        let mut done: usize = 0;
        while done < events.len()
            invariant
                done <= events.len(),
                (*self, answers@) == start.spec_replay(events@.take(done as int)),
                start.wf() ==> self.wf(),
            decreases events.len() - done,
        {
            let event = events[done].clone();
            proof {
                assert(events@.take(done as int + 1).drop_last() =~= events@.take(done as int));
                assert(events@.take(done as int + 1).last() == event);
            }
            let answer = self.advance(event);
            answers.push(answer);
            done += 1;
        }
        proof {
            assert(events@.take(done as int) =~= events@);
        }
        answers
    }
}

/// The answer that accepts a report with `action`.
pub open spec fn accepted(action: PipelineAction) -> Result<PipelineAction, UnexpectedEvent> {
    Ok(action)
}

/// One more report extends a replay by one step.
pub proof fn lemma_replay_push(p: ChunkPipeline, events: Seq<PipelineEvent>, event: PipelineEvent)
    ensures
        p.spec_replay(events.push(event)) == ({
            let (before, answers) = p.spec_replay(events);
            let (after, answer) = before.spec_step(event);
            (after, answers.push(answer))
        }),
{
    assert(events.push(event).drop_last() =~= events);
}

/// Every step keeps the pass and the attempt within their bounds, so no pass
/// is ever attempted more than `MAX_TRIES` times.
pub proof fn lemma_step_keeps_bounds(p: ChunkPipeline, event: PipelineEvent)
    requires
        p.wf(),
    ensures
        p.spec_step(event).0.wf(),
        match p.spec_step(event).1 {
            Ok(PipelineAction::Encode { pass, attempt }) => 1 <= pass <= p.passes && 1 <= attempt
                <= MAX_TRIES,
            _ => true,
        },
{
}

/// A pass whose encoder fails every time is attempted exactly `MAX_TRIES`
/// times: the first attempt is under way, the failures of the first and the
/// second are each answered with one more attempt of the same pass, and the
/// failure of the third ends the pipeline as failed, with the output that
/// the third attempt captured.
pub proof fn lemma_retries_exhausted(p: ChunkPipeline, pass: usize, events: Seq<PipelineEvent>)
    requires
        p.phase == (PipelinePhase::Encoding { pass, attempt: 1 }),
        events.len() == MAX_TRIES,
        forall|i: int| 0 <= i < events.len() ==> #[trigger] events[i] is EncodeFailed,
    ensures
        p.spec_replay(events) == (
            p.at(PipelinePhase::Finished),
            seq![
                accepted(PipelineAction::Encode { pass, attempt: 2 }),
                accepted(PipelineAction::Encode { pass, attempt: 3 }),
                accepted(
                    PipelineAction::Finish(
                        PipelineOutcome::Failed { output: events[2]->EncodeFailed_output },
                    ),
                ),
            ],
        ),
{
    let none = Seq::<PipelineEvent>::empty();
    assert(events[0] is EncodeFailed && events[1] is EncodeFailed && events[2] is EncodeFailed);
    assert(events =~= none.push(events[0]).push(events[1]).push(events[2]));
    assert(p.spec_replay(none) == (p, Seq::<Result<PipelineAction, UnexpectedEvent>>::empty()));
    lemma_replay_push(p, none, events[0]);
    lemma_replay_push(p, none.push(events[0]), events[1]);
    lemma_replay_push(p, none.push(events[0]).push(events[1]), events[2]);
    assert(p.spec_replay(events).1 =~= seq![
        accepted(PipelineAction::Encode { pass, attempt: 2 }),
        accepted(PipelineAction::Encode { pass, attempt: 3 }),
        accepted(
            PipelineAction::Finish(
                PipelineOutcome::Failed { output: events[2]->EncodeFailed_output },
            ),
        ),
    ]);
}

/// A pass whose encoder succeeds on attempt `k`, after `k - 1` failures, is
/// attempted exactly `k` times: each failure is answered with the next
/// attempt of the same pass, and the success with the first attempt of the
/// next pass, or with the frame count where the pass was the last.
pub proof fn lemma_success_on_attempt(
    p: ChunkPipeline,
    pass: usize,
    k: int,
    events: Seq<PipelineEvent>,
)
    requires
        p.phase == (PipelinePhase::Encoding { pass, attempt: 1 }),
        1 <= k <= MAX_TRIES,
        events.len() == k,
        forall|i: int| 0 <= i < k - 1 ==> #[trigger] events[i] is EncodeFailed,
        events[k - 1] is EncodeSucceeded,
    ensures
        p.spec_replay(events).1.len() == k,
        forall|i: int|
            0 <= i < k - 1 ==> #[trigger] p.spec_replay(events).1[i] == accepted(
                PipelineAction::Encode { pass, attempt: (i + 2) as usize },
            ),
        pass < p.passes ==> p.spec_replay(events).0 == p.at(
            PipelinePhase::Encoding { pass: (pass + 1) as usize, attempt: 1 },
        ) && p.spec_replay(events).1[k - 1] == accepted(
            PipelineAction::Encode { pass: (pass + 1) as usize, attempt: 1 },
        ),
        pass >= p.passes ==> p.spec_replay(events).0 == p.at(PipelinePhase::Verifying)
            && p.spec_replay(events).1[k - 1] == accepted(PipelineAction::CountFrames),
{
    let none = Seq::<PipelineEvent>::empty();
    assert(p.spec_replay(none) == (p, Seq::<Result<PipelineAction, UnexpectedEvent>>::empty()));
    lemma_replay_push(p, none, events[0]);
    if k == 1 {
        assert(events =~= none.push(events[0]));
    } else {
        assert(events[0] is EncodeFailed);
        lemma_replay_push(p, none.push(events[0]), events[1]);
        if k == 2 {
            assert(events =~= none.push(events[0]).push(events[1]));
        } else {
            assert(events[1] is EncodeFailed);
            lemma_replay_push(p, none.push(events[0]).push(events[1]), events[2]);
            assert(events =~= none.push(events[0]).push(events[1]).push(events[2]));
        }
    }
}

/// A frame count that equals the expected one ends the pipeline as
/// verified, with that count to record.
pub proof fn lemma_match_recorded(p: ChunkPipeline, frames: usize)
    requires
        p.phase == PipelinePhase::Verifying,
        frames == p.expected_frames,
    ensures
        p.spec_step(PipelineEvent::FramesCounted { frames }) == (
            p.at(PipelinePhase::Finished),
            accepted(PipelineAction::Finish(PipelineOutcome::Verified { frames })),
        ),
        p.spec_verdict(frames).spec_recorded() == Some(frames),
{
}

/// A frame count that differs from the expected one ends the pipeline
/// without a failure and without a frame count to record.
pub proof fn lemma_mismatch_withheld(p: ChunkPipeline, frames: usize)
    requires
        p.phase == PipelinePhase::Verifying,
        frames != p.expected_frames,
    ensures
        p.spec_step(PipelineEvent::FramesCounted { frames }) == (
            p.at(PipelinePhase::Finished),
            accepted(
                PipelineAction::Finish(
                    PipelineOutcome::Mismatch { actual: frames, expected: p.expected_frames },
                ),
            ),
        ),
        p.spec_verdict(frames).spec_recorded() is None,
        !(p.spec_verdict(frames) is Failed),
{
}

/// A pipeline ends as failed only where the last attempt of a pass failed.
pub proof fn lemma_failed_only_after_last_attempt(p: ChunkPipeline, event: PipelineEvent)
    requires
        p.spec_step(event).1 matches Ok(PipelineAction::Finish(outcome)) && outcome is Failed,
    ensures
        p.phase matches PipelinePhase::Encoding { pass, attempt } && attempt >= MAX_TRIES,
        event matches PipelineEvent::EncodeFailed { status, output } && p.spec_step(event).1
            == accepted(PipelineAction::Finish(PipelineOutcome::Failed { output })),
{
}

} // verus!
