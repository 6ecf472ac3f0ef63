//! What the engine has to say about a chunk that went wrong: the data of
//! each diagnostic, ready for whoever writes the log.

use crate::chunk::Chunk;
use crate::pipeline::MAX_TRIES;
use vstd::prelude::*;

verus! {

/// The text that `textwrap::indent` makes of `text` with `prefix`: each line
/// with the prefix in front of it, but for a line of nothing but whitespace,
/// which gets the prefix without the whitespace at its end.
pub uninterp spec fn indented(text: Seq<char>, prefix: Seq<char>) -> Seq<char>;

/// `textwrap::indent`: the text with each line indented by the prefix.
#[verifier::external_body]
fn indent_text(text: &str, prefix: &str) -> (block: String)
    ensures
        block@ == indented(text@, prefix@),
{
    textwrap::indent(text, prefix)
}

/// A failed encode attempt.
#[derive(Debug, PartialEq, Eq)]
pub struct EncoderFailure {
    /// Index of the chunk that was being encoded.
    pub chunk_index: usize,
    /// Exit status of the encoder.
    pub status: i32,
    /// What the encoder printed, indented by eight spaces.
    pub output: String,
    /// Whether this was the last attempt that the pass is given.
    pub exhausted: bool,
}

/// An encoded artifact that does not hold the expected number of frames.
#[derive(Clone, Copy, Debug, PartialEq, Eq, Structural)]
pub struct FrameMismatch {
    /// Index of the chunk.
    pub chunk_index: usize,
    /// Frames that the artifact holds.
    pub actual: usize,
    /// Frames that it was expected to hold.
    pub expected: usize,
}

/// The diagnostic for attempt `attempt` of a pass that failed with `status`
/// and printed `output`.
pub fn encoder_failure(chunk: &Chunk, attempt: usize, status: i32, output: &str) -> (failure:
    EncoderFailure)
    ensures
        failure.chunk_index == chunk.index,
        failure.status == status,
        failure.output@ == indented(output@, "        "@),
        failure.exhausted == (attempt >= MAX_TRIES),
{
    EncoderFailure {
        chunk_index: chunk.index,
        status,
        output: indent_text(output, "        "),
        exhausted: attempt >= MAX_TRIES,
    }
}

} // verus!
