//! A model of the multiple-producer, single-consumer hand-off channel
//! that carries task results to the coordinator. The model keeps the
//! outstanding (sent but unreceived) messages in order, counts the live
//! producer handles, and captures the channel's blocking discipline in
//! its contracts: a send needs room, a receive needs a message or the
//! closure signal, and a bounded channel never holds more outstanding
//! messages than its capacity.

use vstd::prelude::*;

verus! {

/// What one receive observes: the oldest outstanding message, or the
/// closure signal once every producer handle is gone and nothing is
/// left to drain.
pub enum RecvOutcome<T> {
    Received(T),
    Closed,
}

/// The channel model. `bound` is the capacity of a bounded channel, or
/// `None` for the unbounded variant.
pub struct ChannelModel<T> {
    pub bound: Option<usize>,
    /// Outstanding messages, oldest first.
    pub queue: Vec<T>,
    /// Live producer handles.
    pub senders: usize,
}

impl<T> ChannelModel<T> {
    /// Backpressure invariant: the outstanding messages never exceed a
    /// bounded channel's capacity. Every operation below preserves it.
    pub open spec fn wf(&self) -> bool {
        match self.bound {
            Some(c) => self.queue@.len() <= c,
            None => true,
        }
    }

    /// Whether a send could proceed without blocking.
    pub open spec fn has_room(&self) -> bool {
        match self.bound {
            Some(c) => self.queue@.len() < c,
            None => true,
        }
    }

    /// A fresh bounded channel with the given capacity, shared by the
    /// given number of producer handles.
    pub fn new_bounded(capacity: usize, senders: usize) -> (ch: Self)
        ensures
            ch.bound == Some(capacity),
            ch.queue@ =~= Seq::<T>::empty(),
            ch.senders == senders,
            ch.wf(),
    {
        ChannelModel { bound: Some(capacity), queue: Vec::new(), senders }
    }

    /// A fresh unbounded channel.
    pub fn new_unbounded(senders: usize) -> (ch: Self)
        ensures
            ch.bound is None,
            ch.queue@ =~= Seq::<T>::empty(),
            ch.senders == senders,
            ch.wf(),
    {
        ChannelModel { bound: None, queue: Vec::new(), senders }
    }

    /// Whether a send would block right now.
    pub fn is_full(&self) -> (r: bool)
        ensures
            r == !self.has_room(),
    {
        match self.bound {
            Some(c) => self.queue.len() >= c,
            None => false,
        }
    }

    /// A producer hands a message off. A full bounded channel suspends
    /// the producer instead, so a send only happens where there is room.
    pub fn send(&mut self, message: T)
        requires
            old(self).wf(),
            old(self).senders > 0,
            old(self).has_room(),
        ensures
            final(self).queue@ == old(self).queue@.push(message),
            final(self).bound == old(self).bound,
            final(self).senders == old(self).senders,
            final(self).wf(),
    {
        self.queue.push(message);
    }

    /// A producing task finishes and releases its handle.
    pub fn release_sender(&mut self)
        requires
            old(self).senders > 0,
        ensures
            final(self).senders == old(self).senders - 1,
            final(self).queue@ == old(self).queue@,
            final(self).bound == old(self).bound,
            old(self).wf() ==> final(self).wf(),
    {
        self.senders = self.senders - 1;
    }

    /// The consumer takes the oldest outstanding message, or observes
    /// closure if the queue is drained and no producer handle is left.
    /// While the queue is empty but producers live, a receive would
    /// block; the model leaves that case out.
    pub fn recv(&mut self) -> (r: RecvOutcome<T>)
        requires
            old(self).queue@.len() > 0 || old(self).senders == 0,
        ensures
            final(self).bound == old(self).bound,
            final(self).senders == old(self).senders,
            old(self).wf() ==> final(self).wf(),
            old(self).queue@.len() > 0 ==> (r matches RecvOutcome::Received(t)
                && t == old(self).queue@[0]
                && final(self).queue@ == old(self).queue@.remove(0)),
            old(self).queue@.len() == 0 ==> r is Closed
                && final(self).queue@ == old(self).queue@,
    {
        if self.queue.len() > 0 {
            let message = self.queue.remove(0);
            RecvOutcome::Received(message)
        } else {
            RecvOutcome::Closed
        }
    }
}

/// Backpressure, stated on its own: at any instant, a bounded channel's
/// outstanding unreceived messages number at most its capacity.
pub proof fn lemma_backpressure<T>(ch: ChannelModel<T>, capacity: usize)
    requires
        ch.wf(),
        ch.bound == Some(capacity),
    ensures
        ch.queue@.len() <= capacity,
{
}

} // verus!
