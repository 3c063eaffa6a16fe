//! Fixed-capacity rolling history backed by `circular_queue`.

use circular_queue::CircularQueue;
use vstd::prelude::*;

verus! {

#[verifier::external_type_specification]
#[verifier::external_body]
#[verifier::reject_recursive_types(T)]
pub struct ExCircularQueue<T>(CircularQueue<T>);

/// What a queue holds, most recently pushed first.
pub uninterp spec fn queue_items(q: CircularQueue<u64>) -> Seq<u64>;

/// The capacity a queue was made with.
pub uninterp spec fn queue_capacity(q: CircularQueue<u64>) -> nat;

/// Relies on `CircularQueue::with_capacity`: an empty queue of that capacity.
#[verifier::external_body]
fn queue_with_capacity(capacity: usize) -> (r: CircularQueue<u64>)
    ensures
        queue_items(r) == Seq::<u64>::empty(),
        queue_capacity(r) == capacity as nat,
{
    CircularQueue::with_capacity(capacity)
}

/// Relies on `CircularQueue::push`: on a queue of capacity zero nothing changes;
/// otherwise the value goes in front and, once full, the oldest value is dropped.
#[verifier::external_body]
fn queue_push(q: &mut CircularQueue<u64>, value: u64)
    ensures
        queue_capacity(*final(q)) == queue_capacity(*old(q)),
        queue_capacity(*old(q)) == 0 ==> queue_items(*final(q)) == queue_items(*old(q)),
        queue_capacity(*old(q)) > 0 ==> queue_items(*final(q)) == (seq![value] + queue_items(
            *old(q),
        )).take(min_nat(queue_items(*old(q)).len() + 1, queue_capacity(*old(q))) as int),
{
    q.push(value);
}

/// Relies on `CircularQueue::iter`: the values from the most recent to the oldest.
#[verifier::external_body]
fn queue_recent_first(q: &CircularQueue<u64>) -> (r: Vec<u64>)
    ensures
        r@ == queue_items(*q),
{
    q.iter().copied().collect()
}

/// Relies on `CircularQueue::len`: the number of values held.
#[verifier::external_body]
fn queue_len(q: &CircularQueue<u64>) -> (r: usize)
    ensures
        r as nat == queue_items(*q).len(),
{
    q.len()
}

pub open spec fn min_nat(a: nat, b: nat) -> nat {
    if a <= b {
        a
    } else {
        b
    }
}

/// The history that a sequence of pushes leaves in a buffer of capacity `capacity`:
/// the last `capacity` values, most recent first.
pub open spec fn history_after(pushes: Seq<u64>, capacity: nat) -> Seq<u64>
    decreases pushes.len(),
{
    if pushes.len() == 0 {
        Seq::empty()
    } else {
        let rest = history_after(pushes.drop_last(), capacity);
        (seq![pushes.last()] + rest).take(min_nat(rest.len() + 1, capacity) as int)
    }
}

/// A fixed-capacity buffer that keeps the most recent values, evicting the oldest.
pub struct RingBuffer {
    queue: CircularQueue<u64>,
}

impl RingBuffer {
    /// The values held, most recent first.
    pub closed spec fn view(&self) -> Seq<u64> {
        queue_items(self.queue)
    }

    pub closed spec fn spec_capacity(&self) -> nat {
        queue_capacity(self.queue)
    }

    pub open spec fn wf(&self) -> bool {
        &&& self.spec_capacity() > 0
        &&& self@.len() <= self.spec_capacity()
    }

    /// An empty buffer; a capacity of zero is not a buffer.
    pub fn new(capacity: usize) -> (r: Self)
        requires
            capacity > 0,
        ensures
            r.wf(),
            r@ == Seq::<u64>::empty(),
            r.spec_capacity() == capacity as nat,
    {
        RingBuffer { queue: queue_with_capacity(capacity) }
    }

    /// Adds a value, dropping the oldest one once the buffer is full.
    pub fn push(&mut self, value: u64)
        requires
            old(self).wf(),
        ensures
            final(self).wf(),
            final(self).spec_capacity() == old(self).spec_capacity(),
            final(self)@ == (seq![value] + old(self)@).take(
                min_nat(old(self)@.len() + 1, old(self).spec_capacity()) as int,
            ),
    {
        queue_push(&mut self.queue, value);
    }

    /// The number of values held.
    pub fn len(&self) -> (r: usize)
        ensures
            r as nat == self@.len(),
    {
        queue_len(&self.queue)
    }

    /// The values held, from the most recent to the oldest; a fresh copy on each call.
    pub fn iter_most_recent_first(&self) -> (r: Vec<u64>)
        ensures
            r@ == self@,
    {
        queue_recent_first(&self.queue)
    }

    /// Pushes each value in turn.
    pub fn push_all(&mut self, values: &Vec<u64>)
        requires
            old(self).wf(),
        ensures
            final(self).wf(),
            final(self).spec_capacity() == old(self).spec_capacity(),
            old(self)@.len() == 0 ==> final(self)@ == history_after(
                values@,
                old(self).spec_capacity(),
            ),
    {
        let ghost start = self@;
        let mut i: usize = 0;
        while i < values.len()
            invariant
                self.wf(),
                self.spec_capacity() == old(self).spec_capacity(),
                i <= values.len(),
                start == old(self)@,
                start.len() == 0 ==> self@ == history_after(
                    values@.take(i as int),
                    self.spec_capacity(),
                ),
            decreases values.len() - i,
        {
            proof {
                assert(values@.take(i as int + 1).drop_last() == values@.take(i as int));
            }
            self.push(values[i]);
            i = i + 1;
        }
        proof {
            assert(values@.take(values.len() as int) == values@);
        }
    }
}

/// A buffer of capacity `capacity` that has seen the pushes `pushes` holds
/// `min(N, C)` values, which are the last ones pushed in reverse order.
pub proof fn lemma_history_bounded(pushes: Seq<u64>, capacity: nat)
    requires
        capacity > 0,
    ensures
        history_after(pushes, capacity).len() == min_nat(pushes.len(), capacity),
        forall|i: int|
            0 <= i < history_after(pushes, capacity).len() ==> #[trigger] history_after(
                pushes,
                capacity,
            )[i] == pushes[pushes.len() - 1 - i],
    decreases pushes.len(),
{
    if pushes.len() > 0 {
        lemma_history_bounded(pushes.drop_last(), capacity);
        let rest = history_after(pushes.drop_last(), capacity);
        let h = history_after(pushes, capacity);
        assert forall|i: int| 0 <= i < h.len() implies #[trigger] h[i] == pushes[pushes.len()
            - 1 - i] by {
            if i > 0 {
                assert(h[i] == rest[i - 1]);
            }
        }
    }
}

} // verus!
