//! The unit of work handed to a worker.

use vstd::prelude::*;

verus! {

/// An independently encodable piece of the source, with the frame count its
/// encoded artifact is expected to hold.
#[derive(Debug, PartialEq, Eq)]
pub struct Chunk {
    /// Stable position of the chunk in the source; identifies it in diagnostics.
    pub index: usize,
    /// Human-readable name; the key under which a verified chunk is recorded.
    pub name: String,
    /// Number of frames the encoded artifact must contain.
    pub frames: usize,
    /// Location at which the encoded artifact appears.
    pub output_path: String,
}

impl Chunk {
    /// Builds a chunk from its four attributes.
    pub fn new(index: usize, name: String, frames: usize, output_path: String) -> (chunk: Chunk)
        ensures
            chunk.index == index,
            chunk.name == name,
            chunk.frames == frames,
            chunk.output_path == output_path,
    {
        Chunk { index, name, frames, output_path }
    }

    /// The checkpoint key of this chunk.
    pub fn name(&self) -> (name: String)
        ensures
            name == self.name,
    {
        self.name.clone()
    }

    /// The location of the encoded artifact.
    pub fn output(&self) -> (path: String)
        ensures
            path == self.output_path,
    {
        self.output_path.clone()
    }
}

impl Clone for Chunk {
    fn clone(&self) -> (copy: Chunk)
        ensures
            copy == *self,
    {
        Chunk {
            index: self.index,
            name: self.name.clone(),
            frames: self.frames,
            output_path: self.output_path.clone(),
        }
    }
}

} // verus!
