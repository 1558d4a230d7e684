//! What the renderer is handed: the shapes it can draw, and the queue that
//! carries one frame of draw instructions from the scan loops to it.

use vstd::prelude::*;

verus! {

/// The shape of a draw instruction.
#[derive(Clone, Copy, Debug, PartialEq, Eq, Structural)]
pub enum ObjectType {
    Circle,
    Box,
    Text,
}

/// The queue of draw instructions between the scan loops and the renderer.
/// The producers append; the renderer takes everything at once and leaves
/// the queue empty, so that each instruction is drawn in one frame only.
pub struct DrawQueue<T> {
    pending: Vec<T>,
}

impl<T> View for DrawQueue<T> {
    type V = Seq<T>;

    closed spec fn view(&self) -> Seq<T> {
        self.pending@
    }
}

impl<T> DrawQueue<T> {
    /// An empty queue.
    pub fn new() -> (queue: DrawQueue<T>)
        ensures
            queue@ == Seq::<T>::empty(),
    {
        DrawQueue { pending: Vec::new() }
    }

    /// The number of instructions that wait for the renderer.
    pub fn len(&self) -> (n: usize)
        ensures
            n == self@.len(),
    {
        self.pending.len()
    }

    /// Appends an instruction behind those that wait already.
    pub fn push(&mut self, item: T)
        ensures
            final(self)@ == old(self)@.push(item),
    {
        self.pending.push(item);
    }

    /// Hands the waiting instructions to the renderer, in the order in which
    /// they came, and leaves the queue empty. What `frame` held before is
    /// dropped; its buffer is the one the queue fills next.
    pub fn take_frame(&mut self, frame: &mut Vec<T>)
        ensures
            final(frame)@ == old(self)@,
            final(self)@ == Seq::<T>::empty(),
    {
        std::mem::swap(&mut self.pending, frame);
        self.pending.clear();
    }
}

} // verus!
