//! The bounded queue between an input interrupt handler and the task that
//! decodes its bytes: the handler adds each byte it reads, the task takes
//! them out in the order they came.

use vstd::prelude::*;
use crossbeam_queue::ArrayQueue;

verus! {

#[verifier::external_type_specification]
#[verifier::external_body]
#[verifier::reject_recursive_types(T)]
pub struct ExArrayQueue<T>(crossbeam_queue::ArrayQueue<T>);

/// The bytes a `crossbeam_queue` byte queue holds, oldest first.
pub uninterp spec fn queue_items(q: ArrayQueue<u8>) -> Seq<u8>;

/// The capacity a `crossbeam_queue` byte queue was made with.
pub uninterp spec fn queue_capacity(q: ArrayQueue<u8>) -> nat;

/// Number of bytes the queue can hold.
pub const QUEUE_CAPACITY: usize = 100;

/// `ArrayQueue::new`: an empty queue of capacity `cap` (it panics on 0, and
/// on a capacity whose successor has no power of two in 64 bits).
#[verifier::external_body]
fn queue_new(cap: usize) -> (q: ArrayQueue<u8>)
    requires
        0 < cap <= 0x1_0000,
    ensures
        queue_items(q) == Seq::<u8>::empty(),
        queue_capacity(q) == cap,
{
    ArrayQueue::new(cap)
}

/// `ArrayQueue::push`, with the queue held exclusively: a full queue hands
/// the byte back as the error; otherwise the byte joins the back.
#[verifier::external_body]
fn queue_push(q: &mut ArrayQueue<u8>, byte: u8) -> (r: Result<(), u8>)
    requires
        queue_items(*old(q)).len() <= queue_capacity(*old(q)),
    ensures
        queue_capacity(*final(q)) == queue_capacity(*old(q)),
        queue_items(*old(q)).len() < queue_capacity(*old(q)) ==> r is Ok && queue_items(*final(q))
            == queue_items(*old(q)).push(byte),
        queue_items(*old(q)).len() == queue_capacity(*old(q)) ==> (r matches Err(b) && b == byte)
            && queue_items(*final(q)) == queue_items(*old(q)),
{
    q.push(byte)
}

/// `ArrayQueue::pop`, with the queue held exclusively: the oldest byte, or
/// `None` when the queue is empty.
#[verifier::external_body]
fn queue_pop(q: &mut ArrayQueue<u8>) -> (r: Option<u8>)
    ensures
        queue_capacity(*final(q)) == queue_capacity(*old(q)),
        queue_items(*old(q)).len() == 0 ==> r is None && queue_items(*final(q)) == queue_items(*old(q)),
        queue_items(*old(q)).len() > 0 ==> r == Some(queue_items(*old(q))[0]) && queue_items(*final(q))
            == queue_items(*old(q)).drop_first(),
{
    q.pop()
}

/// The bytes waiting for a decoding task.
pub struct ScancodeStream {
    queue: ArrayQueue<u8>,
}

impl ScancodeStream {
    /// The waiting bytes, oldest first.
    pub closed spec fn items(&self) -> Seq<u8> {
        queue_items(self.queue)
    }

    /// How many bytes can wait at most.
    pub closed spec fn capacity(&self) -> nat {
        queue_capacity(self.queue)
    }

    /// No more bytes wait than the queue holds.
    pub open spec fn wf(&self) -> bool {
        &&& self.capacity() == QUEUE_CAPACITY
        &&& self.items().len() <= self.capacity()
    }

    /// An empty stream with room for `QUEUE_CAPACITY` bytes.
    pub fn new() -> (s: ScancodeStream)
        ensures
            s.wf(),
            s.items() == Seq::<u8>::empty(),
    {
        ScancodeStream { queue: queue_new(QUEUE_CAPACITY) }
    }

    /// Takes the oldest waiting byte, if any.
    pub fn poll_next(&mut self) -> (r: Option<u8>)
        requires
            old(self).wf(),
        ensures
            final(self).wf(),
            old(self).items().len() == 0 ==> r is None && final(self).items() == old(self).items(),
            old(self).items().len() > 0 ==> r == Some(old(self).items()[0]) && final(self).items()
                == old(self).items().drop_first(),
    {
        queue_pop(&mut self.queue)
    }
}

/// Queues a byte read by the interrupt handler. Returns `false`, leaving the
/// queue as it was, when it is full and the byte is dropped.
pub fn add_scancode(stream: &mut ScancodeStream, scancode: u8) -> (added: bool)
    requires
        old(stream).wf(),
    ensures
        final(stream).wf(),
        added == (old(stream).items().len() < QUEUE_CAPACITY),
        added ==> final(stream).items() == old(stream).items().push(scancode),
        !added ==> final(stream).items() == old(stream).items(),
{
    match queue_push(&mut stream.queue, scancode) {
        Ok(()) => true,
        Err(_) => false,
    }
}

} // verus!
