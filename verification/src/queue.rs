//! A closeable first-in, first-out queue between one producer and its
//! consumers.
//!
//! The queue itself never blocks and never sleeps. It records, as a pending
//! [`Wake`], which consumers a change has made runnable, and it answers
//! whether a consumer that arrives now would have to wait. Whoever shares the
//! queue between threads holds it behind a lock, sleeps while
//! [`Queue::would_block`] holds, and delivers the wake-up that
//! [`Queue::take_wake`] hands out after each change.

use std::collections::VecDeque;
use vstd::prelude::*;

verus! {

/// Which sleeping consumers have to be woken.
#[derive(Clone, Copy, Debug, PartialEq, Eq, Structural)]
pub enum Wake {
    /// Nobody: nothing happened that a sleeping consumer waits for.
    Nobody,
    /// One consumer: an item arrived in an empty queue.
    One,
    /// Every consumer: the queue was closed, or a wake-up of all was asked for.
    All,
}

impl Wake {
    /// The position of a wake-up in the order `Nobody < One < All`.
    pub open spec fn rank(self) -> int {
        match self {
            Wake::Nobody => 0,
            Wake::One => 1,
            Wake::All => 2,
        }
    }

    /// The wider of two wake-ups.
    pub open spec fn join(self, other: Wake) -> Wake {
        if self.rank() >= other.rank() {
            self
        } else {
            other
        }
    }

    /// Combines two wake-ups into the one that serves both.
    pub fn merge(self, other: Wake) -> (wake: Wake)
        ensures
            wake == self.join(other),
    {
        match (self, other) {
            (Wake::All, _) => Wake::All,
            (_, Wake::All) => Wake::All,
            (Wake::One, _) => Wake::One,
            (_, Wake::One) => Wake::One,
            _ => Wake::Nobody,
        }
    }
}

/// A first-in, first-out queue with a closed flag.
///
/// Its view is the sequence of the items it holds, the oldest first. The
/// capacity given to [`Queue::new`] sizes the first allocation and is no
/// limit: the queue grows as far as memory allows.
pub struct Queue<T> {
    closed: bool,
    wake: Wake,
    q: VecDeque<T>,
}

impl<T> View for Queue<T> {
    type V = Seq<T>;

    closed spec fn view(&self) -> Seq<T> {
        self.q@
    }
}

/// The items of a queue that held `items` after each of `added` was enqueued,
/// one call after the other.
pub open spec fn after_enqueues<T>(items: Seq<T>, added: Seq<T>) -> Seq<T>
    decreases added.len(),
{
    if added.len() == 0 {
        items
    } else {
        after_enqueues(items.push(added[0]), added.drop_first())
    }
}

/// What `n` successive dequeues hand out of a queue that holds `items`, in the
/// order of the calls. A dequeue that finds the queue empty hands out nothing.
pub open spec fn dequeued<T>(items: Seq<T>, n: nat) -> Seq<T>
    decreases n,
{
    if n == 0 || items.len() == 0 {
        Seq::empty()
    } else {
        seq![items[0]] + dequeued(items.drop_first(), (n - 1) as nat)
    }
}

/// What is left of a queue that held `items` after `n` successive dequeues.
pub open spec fn after_dequeues<T>(items: Seq<T>, n: nat) -> Seq<T>
    decreases n,
{
    if n == 0 || items.len() == 0 {
        items
    } else {
        after_dequeues(items.drop_first(), (n - 1) as nat)
    }
}

impl<T> Queue<T> {
    /// Whether the queue has been closed.
    pub closed spec fn closed(&self) -> bool {
        self.closed
    }

    /// The wake-up that is owed to the consumers and not yet handed out.
    pub closed spec fn pending_wake(&self) -> Wake {
        self.wake
    }

    /// Whether a consumer has to wait: there is nothing to take, and the queue
    /// is still open, so something may yet arrive.
    pub open spec fn blocks(&self) -> bool {
        !self.closed() && self@.len() == 0
    }

    /// An empty, open queue with room for `capacity` items before it has to
    /// grow.
    pub fn new(capacity: usize) -> (queue: Self)
        ensures
            queue@ == Seq::<T>::empty(),
            !queue.closed(),
            queue.pending_wake() == Wake::Nobody,
    {
        Queue { closed: false, wake: Wake::Nobody, q: VecDeque::with_capacity(capacity) }
    }

    /// Appends `v` behind the items already queued. It always succeeds, also
    /// on a closed queue. If the queue was empty, one consumer is owed a
    /// wake-up.
    pub fn enqueue(&mut self, v: T)
        ensures
            final(self)@ == old(self)@.push(v),
            final(self).closed() == old(self).closed(),
            final(self).pending_wake() == old(self).pending_wake().join(
                if old(self)@.len() == 0 {
                    Wake::One
                } else {
                    Wake::Nobody
                },
            ),
    {
        let was_empty = self.q.len() == 0;
        self.q.push_back(v);
        if was_empty {
            self.wake = self.wake.merge(Wake::One);
        }
    }

    /// Takes the oldest item, or `None` if and only if the queue is empty.
    pub fn dequeue(&mut self) -> (item: Option<T>)
        ensures
            old(self)@.len() == 0 ==> item.is_none() && final(self)@ == old(self)@,
            old(self)@.len() > 0 ==> item == Some(old(self)@[0]) && final(self)@ == old(
                self,
            )@.drop_first(),
            final(self).closed() == old(self).closed(),
            final(self).pending_wake() == old(self).pending_wake(),
    {
        let item = self.q.pop_front();
        proof {
            if old(self)@.len() > 0 {
                assert(old(self)@.subrange(1, old(self)@.len() as int) == old(self)@.drop_first());
            }
        }
        item
    }

    /// Whether a consumer that wants an item has to wait for one: the queue is
    /// empty and not closed.
    pub fn would_block(&self) -> (wait: bool)
        ensures
            wait == self.blocks(),
    {
        !self.closed && self.q.len() == 0
    }

    /// Whether the queue holds no item at this moment.
    pub fn is_empty(&self) -> (empty: bool)
        ensures
            empty == (self@.len() == 0),
    {
        self.q.len() == 0
    }

    /// Asks for a wake-up of every consumer, whatever the state of the queue.
    pub fn notify_all(&mut self)
        ensures
            final(self)@ == old(self)@,
            final(self).closed() == old(self).closed(),
            final(self).pending_wake() == Wake::All,
    {
        self.wake = Wake::All;
    }

    /// Whether the queue has been closed.
    pub fn is_closed(&self) -> (closed: bool)
        ensures
            closed == self.closed(),
    {
        self.closed
    }

    /// Closes the queue and asks for a wake-up of every consumer, so that
    /// none of them goes on waiting. The items stay. Closing a closed queue
    /// changes nothing but the wake-up.
    pub fn close(&mut self)
        ensures
            final(self).closed(),
            final(self)@ == old(self)@,
            final(self).pending_wake() == Wake::All,
            !final(self).blocks(),
    {
        self.closed = true;
        self.wake = Wake::All;
    }

    /// Hands out the wake-up that is owed to the consumers and clears it.
    pub fn take_wake(&mut self) -> (wake: Wake)
        ensures
            wake == old(self).pending_wake(),
            final(self).pending_wake() == Wake::Nobody,
            final(self)@ == old(self)@,
            final(self).closed() == old(self).closed(),
    {
        let wake = self.wake;
        self.wake = Wake::Nobody;
        wake
    }
}

/// Enqueueing `added` one by one appends them, in their order, behind what
/// the queue held.
pub proof fn lemma_enqueues_append<T>(items: Seq<T>, added: Seq<T>)
    ensures
        after_enqueues(items, added) == items + added,
    decreases added.len(),
{
    if added.len() == 0 {
        assert(items + added == items);
    } else {
        lemma_enqueues_append(items.push(added[0]), added.drop_first());
        assert(items.push(added[0]) + added.drop_first() == items + added);
    }
}

/// `n` dequeues hand out the `n` oldest items, the oldest first, or all of
/// them where the queue holds fewer, and leave the others in their order.
pub proof fn lemma_dequeues_take_front<T>(items: Seq<T>, n: nat)
    ensures
        dequeued(items, n) == items.take(if n <= items.len() { n as int } else { items.len() as int }),
        after_dequeues(items, n) == items.skip(if n <= items.len() { n as int } else { items.len() as int }),
    decreases n,
{
    let k = if n <= items.len() { n as int } else { items.len() as int };
    if n == 0 || items.len() == 0 {
        assert(items.take(k) == Seq::<T>::empty());
        assert(items.skip(k) == items);
    } else {
        lemma_dequeues_take_front(items.drop_first(), (n - 1) as nat);
        assert(seq![items[0]] + items.drop_first().take(k - 1) == items.take(k));
        assert(items.drop_first().skip(k - 1) == items.skip(k));
    }
}

/// First in, first out: items enqueued one after the other into an empty
/// queue and then dequeued, as many times as there are items, come out in the
/// order in which they went in, and the queue is empty again.
pub proof fn lemma_fifo<T>(added: Seq<T>)
    ensures
        dequeued(after_enqueues(Seq::<T>::empty(), added), added.len()) == added,
        after_dequeues(after_enqueues(Seq::<T>::empty(), added), added.len()) == Seq::<T>::empty(),
{
    lemma_enqueues_append(Seq::<T>::empty(), added);
    assert(Seq::<T>::empty() + added == added);
    lemma_dequeues_take_front(added, added.len());
    assert(added.take(added.len() as int) == added);
    assert(added.skip(added.len() as int) == Seq::<T>::empty());
}

/// First in, first out, for a queue that already holds items: what it held
/// comes out first, then what was enqueued, each in its order.
pub proof fn lemma_fifo_behind<T>(items: Seq<T>, added: Seq<T>)
    ensures
        dequeued(after_enqueues(items, added), items.len() + added.len()) == items + added,
{
    lemma_enqueues_append(items, added);
    lemma_dequeues_take_front(items + added, items.len() + added.len());
    assert((items + added).take((items.len() + added.len()) as int) == items + added);
}

} // verus!
