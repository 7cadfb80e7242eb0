use vstd::prelude::*;

use heapless::spsc::Queue;

verus! {

#[verifier::external_type_specification]
#[verifier::external_body]
#[verifier::reject_recursive_types(T)]
pub struct ExQueue<T, const N: usize>(Queue<T, N>);

/// Bytes that a channel queue can hold (a `Queue<u8, N>` holds `N - 1`).
pub const QUEUE_CAPACITY: usize = 128;

/// What an enqueue returns: the byte back when there was no room.
pub type Pushed = Result<(), u8>;

/// The bytes in a heapless queue, oldest first.
pub uninterp spec fn spsc_items(q: Queue<u8, 129>) -> Seq<u8>;

/// Relies on heapless `Queue::new`: a new queue is empty.
#[verifier::external_body]
fn spsc_new() -> (r: Queue<u8, 129>)
    ensures
        spsc_items(r) == Seq::<u8>::empty(),
{
    Queue::new()
}

/// Relies on heapless `Queue::enqueue`: it appends unless the queue holds
/// `N - 1` items, and hands the byte back when it does not.
#[verifier::external_body]
fn spsc_enqueue(q: &mut Queue<u8, 129>, byte: u8) -> (r: Pushed)
    ensures
        spsc_items(*old(q)).len() < 128 ==> r is Ok,
        spsc_items(*old(q)).len() < 128 ==> spsc_items(*final(q)) == spsc_items(*old(q)).push(byte),
        spsc_items(*old(q)).len() >= 128 ==> r == Pushed::Err(byte),
        spsc_items(*old(q)).len() >= 128 ==> spsc_items(*final(q)) == spsc_items(*old(q)),
{
    q.enqueue(byte)
}

/// Relies on heapless `Queue::dequeue`: it removes and returns the oldest item,
/// or returns `None` on an empty queue.
#[verifier::external_body]
fn spsc_dequeue(q: &mut Queue<u8, 129>) -> (r: Option<u8>)
    ensures
        spsc_items(*old(q)).len() == 0 ==> r == None::<u8>,
        spsc_items(*old(q)).len() == 0 ==> spsc_items(*final(q)) == spsc_items(*old(q)),
        spsc_items(*old(q)).len() > 0 ==> r == Some(spsc_items(*old(q))[0]),
        spsc_items(*old(q)).len() > 0 ==> spsc_items(*final(q)) == spsc_items(*old(q)).skip(1),
{
    q.dequeue()
}

/// Relies on heapless `Queue::peek`: the oldest item, left in place.
#[verifier::external_body]
fn spsc_peek(q: &Queue<u8, 129>) -> (r: Option<u8>)
    ensures
        spsc_items(*q).len() == 0 ==> r == None::<u8>,
        spsc_items(*q).len() > 0 ==> r == Some(spsc_items(*q)[0]),
{
    q.peek().copied()
}

/// Relies on heapless `Queue::len`: the number of items.
#[verifier::external_body]
fn spsc_len(q: &Queue<u8, 129>) -> (r: usize)
    ensures
        r == spsc_items(*q).len(),
{
    q.len()
}

/// A bounded single-producer, single-consumer byte queue. A full queue refuses
/// a byte and hands it back; an empty one yields nothing. Nothing is dropped
/// silently.
pub struct ByteQueue {
    inner: Queue<u8, 129>,
}

impl View for ByteQueue {
    type V = Seq<u8>;

    closed spec fn view(&self) -> Seq<u8> {
        spsc_items(self.inner)
    }
}

impl ByteQueue {
    /// At most `QUEUE_CAPACITY` bytes are held.
    pub open spec fn wf(&self) -> bool {
        self@.len() <= QUEUE_CAPACITY
    }

    /// An empty queue.
    pub fn new() -> (r: Self)
        ensures
            r@ == Seq::<u8>::empty(),
            r.wf(),
    {
        ByteQueue { inner: spsc_new() }
    }

    /// Appends `byte`, or hands it back when the queue is full.
    pub fn enqueue(&mut self, byte: u8) -> (r: Pushed)
        requires
            old(self).wf(),
        ensures
            final(self).wf(),
            old(self)@.len() < QUEUE_CAPACITY ==> r is Ok && final(self)@ == old(
                self,
            )@.push(byte),
            old(self)@.len() == QUEUE_CAPACITY ==> r == Pushed::Err(byte) && final(self)@
                == old(self)@,
    {
        spsc_enqueue(&mut self.inner, byte)
    }

    /// Removes and returns the oldest byte, or `None` when empty.
    pub fn dequeue(&mut self) -> (r: Option<u8>)
        requires
            old(self).wf(),
        ensures
            final(self).wf(),
            old(self)@.len() == 0 ==> r == None::<u8> && final(self)@ == old(self)@,
            old(self)@.len() > 0 ==> r == Some(old(self)@[0]) && final(self)@ == old(
                self,
            )@.skip(1),
    {
        spsc_dequeue(&mut self.inner)
    }

    /// The oldest byte, left in place.
    pub fn peek(&self) -> (r: Option<u8>)
        ensures
            self@.len() == 0 ==> r == None::<u8>,
            self@.len() > 0 ==> r == Some(self@[0]),
    {
        spsc_peek(&self.inner)
    }

    /// Number of bytes held.
    pub fn len(&self) -> (r: usize)
        ensures
            r == self@.len(),
    {
        spsc_len(&self.inner)
    }

    /// Room left for more bytes.
    pub fn free(&self) -> (r: usize)
        requires
            self.wf(),
        ensures
            r == QUEUE_CAPACITY - self@.len(),
    {
        QUEUE_CAPACITY - self.len()
    }
}

} // verus!
