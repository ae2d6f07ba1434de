//! The list of discovered slaves, in a queue of fixed capacity.

use super::Slave;
use vstd::prelude::*;

verus! {

/// The double-ended queue of the `heapless` crate.
#[verifier::external_type_specification]
#[verifier::external_body]
#[verifier::reject_recursive_types(T)]
pub struct ExDeque<T, const N: usize>(heapless::Deque<T, N>);

/// At most `N` slaves, in the order in which they were discovered.
///
/// The slaves are held in a `heapless::Deque`, which only the functions of this module touch. The
/// other fields say what it holds.
pub struct SlaveQueue<const N: usize> {
    deque: heapless::Deque<Slave, N>,
    items: Ghost<Seq<Slave>>,
    untouched: Ghost<bool>,
}

impl<const N: usize> View for SlaveQueue<N> {
    type V = Seq<Slave>;

    closed spec fn view(&self) -> Seq<Slave> {
        self.items@
    }
}

impl<const N: usize> SlaveQueue<N> {
    /// No slave has been taken from the queue since it was made.
    pub closed spec fn untouched(self) -> bool {
        self.untouched@
    }

    /// Calls `heapless::Deque::new`, which makes an empty queue. It does not compile for a capacity
    /// of 0.
    #[verifier::external_body]
    fn deque_new() -> (queue: Self)
        requires
            N > 0,
        ensures
            queue@ == Seq::<Slave>::empty(),
            queue.untouched(),
    {
        SlaveQueue {
            deque: heapless::Deque::new(),
            items: Ghost(Seq::empty()),
            untouched: Ghost(true),
        }
    }

    /// Calls `heapless::Deque::len`, which returns the number of slaves in the queue.
    #[verifier::external_body]
    fn deque_len(&self) -> (len: usize)
        ensures
            len == self@.len(),
    {
        self.deque.len()
    }

    /// Calls `heapless::Deque::push_back`, which appends the slave if fewer than `N` are in the
    /// queue and hands it back otherwise.
    #[verifier::external_body]
    fn deque_push_back(&mut self, slave: Slave) -> (pushed: Result<(), Slave>)
        ensures
            pushed is Ok <==> old(self)@.len() < N,
            pushed is Ok ==> final(self)@ == old(self)@.push(slave),
            pushed matches Err(s) ==> s == slave && final(self)@ == old(self)@,
            final(self).untouched() == old(self).untouched(),
    {
        self.deque.push_back(slave)
    }

    /// Calls `heapless::Deque::pop_front`, which takes the first slave out if there is one.
    #[verifier::external_body]
    fn deque_pop_front(&mut self) -> (slave: Option<Slave>)
        ensures
            slave is Some <==> old(self)@.len() > 0,
            slave matches Some(s) ==> s == old(self)@[0] && final(self)@ == old(self)@.skip(1),
            slave is None ==> final(self)@ == old(self)@,
    {
        self.deque.pop_front()
    }

    /// Calls `heapless::Deque::as_mut_slices`, which hands out the slaves in two slices that follow
    /// each other. The second one is empty until a slave has been taken from the queue: only then
    /// does the queue start elsewhere than at the start of its memory.
    #[verifier::external_body]
    fn deque_as_mut_slices(&mut self) -> (slices: (&mut [Slave], &mut [Slave]))
        ensures
            slices.0@ + slices.1@ == old(self)@,
            old(self).untouched() ==> slices.1@.len() == 0,
            final(slices.0)@.len() == slices.0@.len(),
            final(slices.1)@.len() == slices.1@.len(),
            final(self)@ == final(slices.0)@ + final(slices.1)@,
            final(self).untouched() == old(self).untouched(),
    {
        self.deque.as_mut_slices()
    }

    /// An empty queue.
    pub fn new() -> (queue: Self)
        requires
            N > 0,
        ensures
            queue@ == Seq::<Slave>::empty(),
            queue.untouched(),
    {
        SlaveQueue::deque_new()
    }

    /// The number of slaves in the queue.
    pub fn len(&self) -> (len: usize)
        ensures
            len == self@.len(),
    {
        self.deque_len()
    }

    /// Whether the queue holds no slave.
    pub fn is_empty(&self) -> (is_empty: bool)
        ensures
            is_empty == (self@.len() == 0),
    {
        self.deque_len() == 0
    }

    /// Append a slave. It is handed back if the queue is full.
    pub fn push_back(&mut self, slave: Slave) -> (pushed: Result<(), Slave>)
        ensures
            pushed == if old(self)@.len() < N {
                Ok(())
            } else {
                Err(slave)
            },
            final(self)@ == if pushed is Ok {
                old(self)@.push(slave)
            } else {
                old(self)@
            },
            final(self).untouched() == old(self).untouched(),
    {
        match self.deque_push_back(slave) {
            Ok(()) => Ok(()),
            Err(slave) => Err(slave),
        }
    }

    /// Take the first slave out of the queue, if there is one.
    pub fn pop_front(&mut self) -> (slave: Option<Slave>)
        ensures
            slave == if old(self)@.len() > 0 {
                Some(old(self)@[0])
            } else {
                None
            },
            final(self)@ == if slave is Some {
                old(self)@.skip(1)
            } else {
                old(self)@
            },
    {
        self.deque_pop_front()
    }

    /// The slaves, in two slices that follow each other. The second one is empty if no slave has been
    /// taken from the queue.
    pub fn as_mut_slices(&mut self) -> (slices: (&mut [Slave], &mut [Slave]))
        ensures
            slices.0@ + slices.1@ == old(self)@,
            old(self).untouched() ==> slices.1@.len() == 0,
            final(slices.0)@.len() == slices.0@.len(),
            final(slices.1)@.len() == slices.1@.len(),
            final(self)@ == final(slices.0)@ + final(slices.1)@,
            final(self).untouched() == old(self).untouched(),
    {
        self.deque_as_mut_slices()
    }
}

/// A slave is appended exactly if the queue is not full, and handed back otherwise.
pub proof fn law_queue_takes_slaves_up_to_its_capacity<const N: usize>(
    queue: &mut SlaveQueue<N>,
    slave: Slave,
    pushed: Result<(), Slave>,
    before: usize,
    after: usize,
)
    requires
        call_ensures(SlaveQueue::<N>::len, (&*old(queue),), before),
        call_ensures(SlaveQueue::<N>::push_back, (queue, slave), pushed),
        call_ensures(SlaveQueue::<N>::len, (&*final(queue),), after),
    ensures
        pushed is Ok <==> before < N,
        pushed is Ok ==> after == before + 1 && final(queue)@.last() == slave && final(
            queue)@.drop_last() == old(queue)@,
        pushed matches Err(s) ==> s == slave && final(queue)@ == old(queue)@,
{
    assert(old(queue)@.push(slave).drop_last() =~= old(queue)@);
}

/// Slaves leave the queue from its front, one at a time.
pub proof fn law_slaves_leave_from_the_front<const N: usize>(
    queue: &mut SlaveQueue<N>,
    popped: Option<Slave>,
    empty: bool,
)
    requires
        call_ensures(SlaveQueue::<N>::is_empty, (&*old(queue),), empty),
        call_ensures(SlaveQueue::<N>::pop_front, (queue,), popped),
    ensures
        popped is None <==> empty,
        empty <==> old(queue)@.len() == 0,
        popped matches Some(slave) ==> old(queue)@.len() == final(queue)@.len() + 1 && old(queue)@[0]
            == slave && forall|i: int|
            0 <= i < final(queue)@.len() ==> final(queue)@[i] == old(queue)@[i + 1],
        popped is None ==> final(queue)@ == old(queue)@,
{
}

} // verus!
