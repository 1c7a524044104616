//! The polling-mode delivery sink: a fixed-capacity FIFO queue of framed
//! messages. A push into a full queue is rejected — never does it corrupt or
//! displace what the queue already holds — and draining an empty queue hands
//! out a sentinel message rather than blocking.

use vstd::prelude::*;

use crate::MidiMessage;

verus! {

/// What one push does to the retained messages: appends when there is room,
/// leaves the queue unchanged when it is full.
pub open spec fn spec_push(
    q: Seq<MidiMessage>,
    cap: nat,
    m: MidiMessage,
) -> Seq<MidiMessage> {
    if q.len() < cap {
        q.push(m)
    } else {
        q
    }
}

/// A sequence of pushes, oldest first.
pub open spec fn spec_push_all(
    q: Seq<MidiMessage>,
    cap: nat,
    ms: Seq<MidiMessage>,
) -> Seq<MidiMessage>
    decreases ms.len(),
{
    if ms.len() == 0 {
        q
    } else {
        spec_push_all(spec_push(q, cap, ms[0]), cap, ms.drop_first())
    }
}

/// Pushing any sequence of messages retains the oldest messages, in arrival
/// order, up to the capacity.
pub proof fn lemma_push_all_retains_oldest(q: Seq<MidiMessage>, cap: nat, ms: Seq<MidiMessage>)
    requires
        q.len() <= cap,
    ensures
        spec_push_all(q, cap, ms) == (q + ms).take(
            if q.len() + ms.len() <= cap {
                (q.len() + ms.len()) as int
            } else {
                cap as int
            },
        ),
    decreases ms.len(),
{
    if ms.len() == 0 {
        assert((q + ms).take(q.len() as int) =~= q);
    } else if q.len() < cap {
        lemma_push_all_retains_oldest(q.push(ms[0]), cap, ms.drop_first());
        assert(q.push(ms[0]) + ms.drop_first() =~= q + ms);
    } else {
        lemma_push_all_retains_oldest(q, cap, ms.drop_first());
        assert((q + ms.drop_first()).take(cap as int) =~= (q + ms).take(cap as int));
    }
}

/// Queue overflow: pushing `capacity + 1` messages into an empty queue of
/// that capacity retains exactly the first `capacity` messages (FIFO, oldest
/// retained); the one message over capacity is rejected, and nothing already
/// retained is disturbed.
pub proof fn lemma_queue_overflow(cap: nat, ms: Seq<MidiMessage>)
    requires
        ms.len() == cap + 1,
    ensures
        spec_push_all(Seq::empty(), cap, ms) == ms.take(cap as int),
        spec_push_all(Seq::empty(), cap, ms).len() == cap,
{
    lemma_push_all_retains_oldest(Seq::empty(), cap, ms);
    assert((Seq::empty() + ms).take(cap as int) =~= ms.take(cap as int));
}

/// Fixed-capacity FIFO queue of framed messages, drained by polling.
#[derive(Debug)]
pub struct BoundedQueue {
    buf: Vec<MidiMessage>,
    capacity: usize,
}

impl BoundedQueue {
    /// The retained messages, front (oldest) first.
    pub closed spec fn contents(&self) -> Seq<MidiMessage> {
        self.buf@
    }

    /// The fixed capacity chosen at creation.
    pub closed spec fn spec_capacity(&self) -> usize {
        self.capacity
    }

    /// The queue never retains more messages than its capacity.
    pub open spec fn wf(&self) -> bool {
        self.contents().len() <= self.spec_capacity()
    }

    /// An empty queue with the given fixed capacity.
    pub fn new(capacity: usize) -> (r: BoundedQueue)
        ensures
            r.wf(),
            r.contents() == Seq::<MidiMessage>::empty(),
            r.spec_capacity() == capacity,
    {
        BoundedQueue { buf: Vec::new(), capacity }
    }

    /// How many messages the queue currently retains.
    pub fn len(&self) -> (r: usize)
        ensures
            r == self.contents().len(),
    {
        self.buf.len()
    }

    /// The fixed capacity chosen at creation.
    pub fn capacity(&self) -> (r: usize)
        ensures
            r == self.spec_capacity(),
    {
        self.capacity
    }

    /// Appends a message at the back. A push into a full queue is rejected:
    /// it returns false and the retained messages are exactly as before.
    pub fn push(&mut self, m: MidiMessage) -> (accepted: bool)
        requires
            old(self).wf(),
        ensures
            final(self).wf(),
            final(self).spec_capacity() == old(self).spec_capacity(),
            accepted == (old(self).contents().len() < old(self).spec_capacity()),
            final(self).contents() == spec_push(
                old(self).contents(),
                old(self).spec_capacity() as nat,
                m,
            ),
    {
        if self.buf.len() < self.capacity {
            self.buf.push(m);
            true
        } else {
            false
        }
    }

    /// Removes and returns the front (oldest) message, or nothing when the
    /// queue is empty.
    pub fn pop(&mut self) -> (r: Option<MidiMessage>)
        requires
            old(self).wf(),
        ensures
            final(self).wf(),
            final(self).spec_capacity() == old(self).spec_capacity(),
            old(self).contents().len() == 0 ==> r is None && final(self).contents() == old(self).contents(),
            old(self).contents().len() > 0 ==> r == Some(old(self).contents()[0]) && final(self).contents() == old(self).contents().drop_first(),
    {
        if self.buf.len() == 0 {
            Option::None
        } else {
            let m = self.buf.remove(0);
            proof {
                assert(self.buf@ =~= old(self).contents().drop_first());
            }
            Option::Some(m)
        }
    }

    /// Removes and returns the front message; when the queue is empty,
    /// returns the sentinel instead: an empty message with timestamp 0.
    pub fn get_message(&mut self) -> (r: MidiMessage)
        requires
            old(self).wf(),
        ensures
            final(self).wf(),
            final(self).spec_capacity() == old(self).spec_capacity(),
            old(self).contents().len() == 0 ==> r.bytes@ == Seq::<u8>::empty() && r.timestamp == 0
                && final(self).contents() == old(self).contents(),
            old(self).contents().len() > 0 ==> r == old(self).contents()[0] && final(self).contents() == old(self).contents().drop_first(),
    {
        match self.pop() {
            Option::Some(m) => m,
            Option::None => MidiMessage::new(),
        }
    }
}

} // verus!
