//! The bounded message queue that producers and consumers share, guarded by a
//! mutex and two counting semaphores.

use vstd::prelude::*;

use crate::sync::{SemCall, SemOp};

verus! {

/// The most messages the queue can be made to hold.
pub const MAX_CAPACITY: usize = 16;
/// How many messages each producer sends and each consumer takes.
pub const MESSAGE_PER_WORKER: usize = 10;
/// The number of producers, and of consumers.
pub const PRODUCER_COUNT: usize = 8;

pub const SEM_MUTEX_KEY: u32 = 0x200;
pub const SEM_EMPTY_KEY: u32 = 0x201;
pub const SEM_FULL_KEY: u32 = 0x202;

/// The message that producer `id` sends as its `seq`-th.
pub fn message_of(id: usize, seq: usize) -> (r: usize)
    requires
        id < PRODUCER_COUNT,
        seq < MESSAGE_PER_WORKER,
    ensures
        r == id * 100 + seq,
{
    id * 100 + seq
}

/// The slot of the `i`-th oldest message in a ring of `cap` slots whose
/// oldest message is at `head`.
pub open spec fn ring_slot(head: int, i: int, cap: int) -> int {
    if head + i < cap {
        head + i
    } else {
        head + i - cap
    }
}

/// A ring of messages with a capacity of at most `MAX_CAPACITY`.
pub struct MessageQueue {
    buf: [usize; 16],
    head: usize,
    tail: usize,
    count: usize,
    capacity: usize,
}

impl MessageQueue {
    /// The ring's own invariant.
    pub closed spec fn wf(&self) -> bool {
        &&& 1 <= self.capacity <= MAX_CAPACITY
        &&& self.head < self.capacity
        &&& self.tail < self.capacity
        &&& self.count <= self.capacity
        &&& self.tail == ring_slot(self.head as int, self.count as int, self.capacity as int)
    }

    /// The number of messages the queue holds at most.
    pub closed spec fn spec_capacity(&self) -> nat {
        self.capacity as nat
    }

    /// The messages held, oldest first.
    pub closed spec fn view(&self) -> Seq<usize> {
        Seq::new(
            self.count as nat,
            |i: int| self.buf@[ring_slot(self.head as int, i, self.capacity as int)],
        )
    }

    /// An empty queue for `capacity` messages.
    pub fn reset_queue(capacity: usize) -> (r: MessageQueue)
        requires
            1 <= capacity <= MAX_CAPACITY,
        ensures
            r.wf(),
            r.view() == Seq::<usize>::empty(),
            r.spec_capacity() == capacity,
    {
        let q = MessageQueue { buf: [0usize; 16], head: 0, tail: 0, count: 0, capacity };
        assert(q.view() =~= Seq::<usize>::empty());
        q
    }

    /// The number of messages held.
    pub fn count(&self) -> (r: usize)
        requires
            self.wf(),
        ensures
            r == self.view().len(),
    {
        self.count
    }

    /// Appends `message`; the `EMPTY` semaphore lets a producer in only where
    /// the queue has room.
    pub fn push_message(&mut self, message: usize)
        requires
            old(self).wf(),
            old(self).view().len() < old(self).spec_capacity(),
        ensures
            final(self).wf(),
            final(self).spec_capacity() == old(self).spec_capacity(),
            final(self).view() == old(self).view().push(message),
    {
        let ghost v0 = self.view();
        let t = self.tail;
        assert(t == ring_slot(self.head as int, self.count as int, self.capacity as int));
        self.buf[t] = message;
        self.tail = if self.tail + 1 == self.capacity {
            0
        } else {
            self.tail + 1
        };
        self.count = self.count + 1;
        assert forall|i: int| 0 <= i < v0.len() implies ring_slot(
            self.head as int,
            i,
            self.capacity as int,
        ) != t by {}
        assert(self.view() =~= v0.push(message));
    }

    /// Takes the oldest message out; the `FULL` semaphore lets a consumer in
    /// only where the queue holds one.
    pub fn pop_message(&mut self) -> (r: usize)
        requires
            old(self).wf(),
            old(self).view().len() > 0,
        ensures
            final(self).wf(),
            final(self).spec_capacity() == old(self).spec_capacity(),
            r == old(self).view()[0],
            final(self).view() == old(self).view().drop_first(),
    {
        let ghost v0 = self.view();
        let m = self.buf[self.head];
        self.head = if self.head + 1 == self.capacity {
            0
        } else {
            self.head + 1
        };
        self.count = self.count - 1;
        assert(self.view() =~= v0.drop_first());
        m
    }
}

/// The calls that set up a run with `capacity` slots: a free mutex, `EMPTY`
/// counting the free slots and `FULL` the messages.
pub fn queue_init_calls(capacity: usize) -> (r: Vec<SemCall>)
    ensures
        r@ == seq![
            SemCall { op: SemOp::New, key: SEM_MUTEX_KEY, value: 1 },
            SemCall { op: SemOp::New, key: SEM_EMPTY_KEY, value: capacity },
            SemCall { op: SemOp::New, key: SEM_FULL_KEY, value: 0 },
        ],
{
    let mut r: Vec<SemCall> = Vec::new();
    r.push(SemCall { op: SemOp::New, key: SEM_MUTEX_KEY, value: 1 });
    r.push(SemCall { op: SemOp::New, key: SEM_EMPTY_KEY, value: capacity });
    r.push(SemCall { op: SemOp::New, key: SEM_FULL_KEY, value: 0 });
    r
}

/// A message pushed onto a queue that holds nothing else is the next to be
/// popped, and popping it leaves the queue as it was.
pub proof fn lemma_fifo(q: Seq<usize>, m: usize)
    ensures
        q.push(m).drop_first() == (if q.len() == 0 { q } else { q.drop_first().push(m) }),
        q.len() == 0 ==> q.push(m)[0] == m,
        q.len() > 0 ==> q.push(m)[0] == q[0],
{
    if q.len() == 0 {
        assert(q.push(m).drop_first() =~= q);
    } else {
        assert(q.push(m).drop_first() =~= q.drop_first().push(m));
    }
}

} // verus!
