//! The egress queue: raw frames on their way out, first in, first out.
//!
//! The queue is bounded. A frame that arrives while it is full is refused,
//! and the refusal is an error that the sender of the frame sees: commands
//! are never dropped in silence.

use vstd::prelude::*;
use std::collections::VecDeque;
use crate::error::ForwardError;

verus! {

/// A run of frames as contracts see it.
pub open spec fn frames_view(frames: Seq<Vec<u8>>) -> Seq<Seq<u8>> {
    Seq::new(frames.len(), |i: int| frames[i]@)
}

/// The egress queue.
pub struct EgressQueue {
    capacity: usize,
    closed: bool,
    frames: VecDeque<Vec<u8>>,
}

impl View for EgressQueue {
    type V = Seq<Seq<u8>>;

    /// The frames that wait, oldest first.
    closed spec fn view(&self) -> Seq<Seq<u8>> {
        frames_view(self.frames@)
    }
}

impl EgressQueue {
    /// The most frames that may wait at a time.
    pub closed spec fn spec_capacity(&self) -> nat {
        self.capacity as nat
    }

    /// Whether the queue has been closed to new frames.
    pub closed spec fn spec_closed(&self) -> bool {
        self.closed
    }

    /// No more frames wait than the capacity allows.
    pub closed spec fn wf(&self) -> bool {
        self.frames@.len() <= self.capacity
    }

    /// The queue is within its capacity.
    pub proof fn lemma_bounded(&self)
        requires
            self.wf(),
        ensures
            self@.len() <= self.spec_capacity(),
    {
    }

    /// An open, empty queue that holds up to `capacity` frames.
    pub fn new(capacity: usize) -> (queue: Self)
        ensures
            queue.wf(),
            queue.spec_capacity() == capacity,
            !queue.spec_closed(),
            queue@ == Seq::<Seq<u8>>::empty(),
    {
        let queue = EgressQueue { capacity, closed: false, frames: VecDeque::new() };
        assert(queue@ =~= Seq::<Seq<u8>>::empty());
        queue
    }

    /// The most frames that may wait at a time.
    pub fn capacity(&self) -> (capacity: usize)
        ensures
            capacity == self.spec_capacity(),
    {
        self.capacity
    }

    /// How many frames wait.
    pub fn len(&self) -> (count: usize)
        ensures
            count == self@.len(),
    {
        self.frames.len()
    }

    /// Whether the queue has been closed to new frames.
    pub fn is_closed(&self) -> (closed: bool)
        ensures
            closed == self.spec_closed(),
    {
        self.closed
    }

    /// Puts `frame` at the back of the queue, unchanged. Refuses it, and
    /// leaves the queue as it was, where the queue is closed or full.
    pub fn try_send(&mut self, frame: Vec<u8>) -> (r: Result<(), ForwardError>)
        requires
            old(self).wf(),
        ensures
            final(self).wf(),
            final(self).spec_capacity() == old(self).spec_capacity(),
            final(self).spec_closed() == old(self).spec_closed(),
            r == (if old(self).spec_closed() {
                Err::<(), ForwardError>(ForwardError::QueueClosed)
            } else if old(self)@.len() >= old(self).spec_capacity() {
                Err::<(), ForwardError>(ForwardError::QueueFullOnForward)
            } else {
                Ok::<(), ForwardError>(())
            }),
            final(self)@ == (if r is Ok {
                old(self)@.push(frame@)
            } else {
                old(self)@
            }),
    {
        if self.closed {
            return Err(ForwardError::QueueClosed);
        }
        if self.frames.len() >= self.capacity {
            return Err(ForwardError::QueueFullOnForward);
        }
        self.frames.push_back(frame);
        assert(self@ =~= old(self)@.push(frame@));
        Ok(())
    }

    /// Takes the oldest frame that waits, if any.
    pub fn pop(&mut self) -> (frame: Option<Vec<u8>>)
        requires
            old(self).wf(),
        ensures
            final(self).wf(),
            final(self).spec_capacity() == old(self).spec_capacity(),
            final(self).spec_closed() == old(self).spec_closed(),
            match frame {
                Some(bytes) => old(self)@.len() > 0 && bytes@ == old(self)@[0] && final(self)@
                    == old(self)@.skip(1),
                None => old(self)@.len() == 0 && final(self)@ == old(self)@,
            },
    {
        let frame = self.frames.pop_front();
        assert(frame is Some ==> self@ =~= old(self)@.skip(1));
        frame
    }

    /// Closes the queue: no producer is left. What waits can still be taken.
    pub fn close(&mut self)
        requires
            old(self).wf(),
        ensures
            final(self).wf(),
            final(self).spec_capacity() == old(self).spec_capacity(),
            final(self).spec_closed(),
            final(self)@ == old(self)@,
    {
        self.closed = true;
    }
}

} // verus!
