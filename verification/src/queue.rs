//! The work queue: a bounded multi-consumer channel that is filled with
//! every chunk and closed before the first worker asks for one.

use crate::chunk::Chunk;
use crossbeam_channel::{Receiver, Sender};
use vstd::prelude::*;

verus! {

/// `crossbeam_channel::Sender`, the sending side of a channel.
#[verifier::external_type_specification]
#[verifier::external_body]
#[verifier::reject_recursive_types(T)]
pub struct ExSender<T>(Sender<T>);

/// `crossbeam_channel::Receiver`, the receiving side of a channel.
#[verifier::external_type_specification]
#[verifier::external_body]
#[verifier::reject_recursive_types(T)]
pub struct ExReceiver<T>(Receiver<T>);

/// The chunks that wait in the channel behind a receiver, oldest first.
pub uninterp spec fn channel_backlog(receiver: Receiver<Chunk>) -> Seq<Chunk>;

/// The number of chunks that the channel behind a receiver was made to hold.
pub uninterp spec fn channel_capacity(receiver: Receiver<Chunk>) -> nat;

/// The largest number of chunks that a queue can be made for.
pub open spec fn spec_max_queue_len() -> nat {
    (usize::MAX / 4) as nat
}

/// A queue of chunks that hands each chunk out once, oldest first.
///
/// The queue owns both ends of its channel and never hands either out, so
/// what waits in the channel changes only through the queue's methods.
pub struct WorkQueue {
    sender: Option<Sender<Chunk>>,
    receiver: Receiver<Chunk>,
}

/// `crossbeam_channel::bounded`: a channel that holds up to `capacity`
/// chunks and starts empty. It panics where `capacity + 1`, rounded up to a
/// power of two and doubled, does not fit the machine word, which the
/// precondition excludes.
#[verifier::external_body]
fn channel_open(capacity: usize) -> (queue: WorkQueue)
    requires
        capacity <= spec_max_queue_len(),
    ensures
        queue.sender is Some,
        channel_backlog(queue.receiver) == Seq::<Chunk>::empty(),
        channel_capacity(queue.receiver) == capacity,
{
    let (sender, receiver) = crossbeam_channel::bounded(capacity);
    WorkQueue { sender: Some(sender), receiver }
}

/// `Sender::send` on a channel with room left: the chunk is put behind the
/// ones that wait. With room left the call does not block, and with the
/// receiver alive in the same queue it does not fail.
#[verifier::external_body]
fn channel_send(queue: &mut WorkQueue, chunk: Chunk)
    requires
        old(queue).sender is Some,
        channel_backlog(old(queue).receiver).len() < channel_capacity(old(queue).receiver),
    ensures
        final(queue).sender is Some,
        channel_capacity(final(queue).receiver) == channel_capacity(old(queue).receiver),
        channel_backlog(final(queue).receiver) == channel_backlog(old(queue).receiver).push(chunk),
{
    if let Some(sender) = &queue.sender {
        let _ = sender.send(chunk);
    }
}

/// `Receiver::recv` on a channel whose sender is gone: the oldest waiting
/// chunk is taken out and returned, or nothing is returned where none
/// waits. With the sender gone the call does not block.
#[verifier::external_body]
fn channel_recv(queue: &mut WorkQueue) -> (next: Option<Chunk>)
    requires
        old(queue).sender is None,
    ensures
        final(queue).sender is None,
        channel_capacity(final(queue).receiver) == channel_capacity(old(queue).receiver),
        match next {
            Some(chunk) => {
                &&& channel_backlog(old(queue).receiver).len() > 0
                &&& chunk == channel_backlog(old(queue).receiver)[0]
                &&& channel_backlog(final(queue).receiver) == channel_backlog(
                    old(queue).receiver,
                ).skip(1)
            },
            None => {
                &&& channel_backlog(old(queue).receiver).len() == 0
                &&& channel_backlog(final(queue).receiver) == channel_backlog(old(queue).receiver)
            },
        },
{
    queue.receiver.recv().ok()
}

impl WorkQueue {
    /// The chunks that have not been handed out yet, oldest first.
    pub closed spec fn pending(&self) -> Seq<Chunk> {
        channel_backlog(self.receiver)
    }

    /// The number of chunks that the queue was made to hold.
    pub closed spec fn capacity(&self) -> nat {
        channel_capacity(self.receiver)
    }

    /// The queue's invariant: it is closed, so no chunk can be added.
    pub closed spec fn wf(&self) -> bool {
        self.sender is None
    }

    /// The largest number of chunks that a queue can be loaded with.
    pub fn max_len() -> (limit: usize)
        ensures
            limit == spec_max_queue_len(),
    {
        usize::MAX / 4
    }

    /// Makes a queue just large enough for `chunks`, puts a copy of each
    /// chunk in it in order, and closes it.
    pub fn load(chunks: &Vec<Chunk>) -> (queue: WorkQueue)
        requires
            chunks.len() <= spec_max_queue_len(),
        ensures
            queue.wf(),
            queue.pending() == chunks@,
            queue.capacity() == chunks.len(),
    {
        let mut queue = channel_open(chunks.len());
        let mut i: usize = 0;
        while i < chunks.len()
            invariant
                i <= chunks.len(),
                queue.sender is Some,
                channel_capacity(queue.receiver) == chunks.len(),
                channel_backlog(queue.receiver) == chunks@.take(i as int),
            decreases chunks.len() - i,
        {
            channel_send(&mut queue, chunks[i].clone());
            proof {
                assert(chunks@.take(i as int).push(chunks[i as int]) =~= chunks@.take(i as int + 1));
            }
            i += 1;
        }
        queue.sender = None;
        proof {
            assert(chunks@.take(i as int) =~= chunks@);
        }
        queue
    }

    /// Hands out the oldest chunk that has not been handed out, or nothing
    /// where every chunk has been.
    pub fn pop(&mut self) -> (next: Option<Chunk>)
        requires
            old(self).wf(),
        ensures
            final(self).wf(),
            final(self).capacity() == old(self).capacity(),
            (next, final(self).pending()) == spec_pop(old(self).pending()),
    {
        channel_recv(self)
    }
}

/// What a pop hands out of the pending chunks, and what stays pending.
pub open spec fn spec_pop(pending: Seq<Chunk>) -> (Option<Chunk>, Seq<Chunk>) {
    if pending.len() > 0 {
        (Some(pending[0]), pending.skip(1))
    } else {
        (None, pending)
    }
}

} // verus!
