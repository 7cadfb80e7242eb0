use vstd::prelude::*;

use heapless::Vec as HVec;

use crate::queue::{ByteQueue, QUEUE_CAPACITY};

verus! {

#[verifier::external_type_specification]
#[verifier::external_body]
#[verifier::reject_recursive_types(T)]
pub struct ExHVec<T, const N: usize>(HVec<T, N>);

/// Bytes of one frame body, before its delimiter, that the frame buffer keeps.
pub const MAX_FRAME_BODY: usize = 63;

/// The bytes in a heapless vector of capacity 64.
pub uninterp spec fn hvec_items(v: HVec<u8, 64>) -> Seq<u8>;

/// Relies on heapless `Vec::new`: a new vector is empty.
#[verifier::external_body]
fn hvec_new() -> (r: HVec<u8, 64>)
    ensures
        hvec_items(r) == Seq::<u8>::empty(),
{
    HVec::new()
}

/// Relies on heapless `Vec::push`: it appends while fewer than `N` items are
/// held, and hands the item back otherwise.
#[verifier::external_body]
fn hvec_push(v: &mut HVec<u8, 64>, byte: u8) -> (r: crate::queue::Pushed)
    ensures
        hvec_items(*old(v)).len() < 64 ==> r is Ok,
        hvec_items(*old(v)).len() < 64 ==> hvec_items(*final(v)) == hvec_items(*old(v)).push(byte),
        hvec_items(*old(v)).len() >= 64 ==> hvec_items(*final(v)) == hvec_items(*old(v)),
{
    v.push(byte)
}

/// Relies on heapless `Vec::clear`: no items remain.
#[verifier::external_body]
fn hvec_clear(v: &mut HVec<u8, 64>)
    ensures
        hvec_items(*final(v)) == Seq::<u8>::empty(),
{
    v.clear()
}

/// Relies on heapless `Vec::as_slice`: the items, in order.
#[verifier::external_body]
fn hvec_as_slice(v: &HVec<u8, 64>) -> (r: &[u8])
    ensures
        r@ == hvec_items(*v),
{
    v.as_slice()
}

/// Relies on heapless `Vec::len`: the number of items.
#[verifier::external_body]
fn hvec_len(v: &HVec<u8, 64>) -> (r: usize)
    ensures
        r == hvec_items(*v).len(),
{
    v.len()
}

/// Frame-splitter state: the bytes of the frame being gathered, and whether an
/// over-long frame is being skipped up to its delimiter.
pub struct SplitterView {
    pub pending: Seq<u8>,
    pub discarding: bool,
}

/// The state a splitter starts in, and returns to after every delimiter.
pub open spec fn clean() -> SplitterView {
    SplitterView { pending: Seq::empty(), discarding: false }
}

/// The splitter fed one byte: the next state, and the frame that the byte
/// completes, if any, with its zero delimiter. Empty frames are skipped; a frame
/// whose body outgrows the buffer is dropped whole.
pub open spec fn feed(s: SplitterView, byte: u8) -> (SplitterView, Option<Seq<u8>>) {
    if byte == 0 {
        if !s.discarding && s.pending.len() > 0 {
            (clean(), Some(s.pending.push(0)))
        } else {
            (clean(), None)
        }
    } else if s.discarding {
        (s, None)
    } else if s.pending.len() < MAX_FRAME_BODY {
        (SplitterView { pending: s.pending.push(byte), discarding: false }, None)
    } else {
        (SplitterView { pending: Seq::empty(), discarding: true }, None)
    }
}

/// The splitter fed bytes from `queue` until a frame completes or the queue is
/// empty: the next state, the bytes left in the queue, and the frame.
pub open spec fn split(s: SplitterView, queue: Seq<u8>) -> (SplitterView, Seq<u8>, Option<Seq<u8>>)
    decreases queue.len(),
{
    if queue.len() == 0 {
        (s, queue, None)
    } else {
        let (next, frame) = feed(s, queue[0]);
        if frame.is_some() {
            (next, queue.skip(1), frame)
        } else {
            split(next, queue.skip(1))
        }
    }
}

/// Whether `bytes` hold no zero, the delimiter.
pub open spec fn no_delimiter(bytes: Seq<u8>) -> bool {
    forall|i: int| 0 <= i < bytes.len() ==> bytes[i] != 0
}

/// Why a frame was not queued for sending.
#[derive(Debug, Clone, Copy, PartialEq, Eq, Structural)]
pub enum FrameError {
    /// Not a delimited frame: empty, not ending in the delimiter, or holding a
    /// delimiter before its end.
    Malformed,
    /// The outbound queue has no room for the whole frame.
    Full,
}

/// Whether `frame` is one delimited frame: a non-empty body free of zeros,
/// then a single zero.
pub open spec fn delimited(frame: Seq<u8>) -> bool {
    frame.len() >= 2 && frame.last() == 0 && no_delimiter(frame.drop_last())
}

/// The message side of a byte channel: splits the inbound byte stream into
/// zero-delimited frames and queues whole frames outbound. Frames keep their
/// order, and a malformed or over-long frame never affects the next one.
pub struct Service {
    incomplete: HVec<u8, 64>,
    discarding: bool,
}

impl View for Service {
    type V = SplitterView;

    closed spec fn view(&self) -> SplitterView {
        SplitterView { pending: hvec_items(self.incomplete), discarding: self.discarding }
    }
}

impl Service {
    /// Gathered bytes fit the body limit, and none is a delimiter.
    pub open spec fn wf(&self) -> bool {
        &&& self@.pending.len() <= MAX_FRAME_BODY
        &&& no_delimiter(self@.pending)
        &&& self@.discarding ==> self@.pending.len() == 0
    }

    /// A splitter with nothing gathered.
    pub fn new() -> (r: Self)
        ensures
            r@ == clean(),
            r.wf(),
    {
        Service { incomplete: hvec_new(), discarding: false }
    }

    /// Takes bytes from `requests` until a frame is complete, and returns it with
    /// its delimiter; returns `None` once the queue is empty without one.
    pub fn recv(&mut self, requests: &mut ByteQueue) -> (r: Option<Vec<u8>>)
        requires
            old(self).wf(),
            old(requests).wf(),
        ensures
            final(self).wf(),
            final(requests).wf(),
            ({
                let (next, rest, frame) = split(old(self)@, old(requests)@);
                &&& final(self)@ == next
                &&& final(requests)@ == rest
                &&& match r {
                    Some(f) => frame == Some(f@),
                    None => frame.is_none(),
                }
            }),
    {
        loop
            invariant
                self.wf(),
                requests.wf(),
                split(self@, requests@) == split(old(self)@, old(requests)@),
            decreases requests@.len(),
        {
            let ghost before = self@;
            let ghost queue = requests@;
            match requests.dequeue() {
                None => {
                    return None;
                },
                Some(byte) => {
                    if byte == 0 {
                        let pending = hvec_len(&self.incomplete);
                        if !self.discarding && pending > 0 {
                            let frame = self.take_frame();
                            return Some(frame);
                        }
                        hvec_clear(&mut self.incomplete);
                        self.discarding = false;
                        assert(self@ == clean());
                    } else if !self.discarding {
                        if hvec_len(&self.incomplete) < MAX_FRAME_BODY {
                            hvec_push(&mut self.incomplete, byte);
                        } else {
                            hvec_clear(&mut self.incomplete);
                            self.discarding = true;
                        }
                    }
                    proof {
                        assert(feed(before, byte).0 == self@);
                    }
                },
            }
        }
    }

    /// The gathered frame with its delimiter; leaves the splitter clean.
    fn take_frame(&mut self) -> (r: Vec<u8>)
        requires
            old(self).wf(),
        ensures
            final(self).wf(),
            final(self)@ == clean(),
            r@ == old(self)@.pending.push(0),
    {
        let body = hvec_as_slice(&self.incomplete);
        let mut frame: Vec<u8> = Vec::new();
        let mut i: usize = 0;
        while i < body.len()
            invariant
                i <= body@.len(),
                frame@ == body@.take(i as int),
            decreases body@.len() - i,
        {
            frame.push(body[i]);
            i = i + 1;
            assert(body@.take(i as int) =~= body@.take(i - 1).push(body@[i - 1]));
        }
        assert(body@.take(i as int) =~= body@);
        frame.push(0);
        hvec_clear(&mut self.incomplete);
        self.discarding = false;
        frame
    }

    /// Queues one whole delimited frame on `responses`, or nothing: a frame
    /// that is not delimited is refused as malformed, and one that does not fit
    /// is refused as `Full`, so the stream never holds part of a frame.
    pub fn send(&mut self, responses: &mut ByteQueue, packet: &[u8]) -> (r: Result<(), FrameError>)
        requires
            old(responses).wf(),
        ensures
            final(responses).wf(),
            !delimited(packet@) ==> r == Err::<(), FrameError>(FrameError::Malformed),
            !delimited(packet@) ==> final(responses)@ == old(responses)@,
            delimited(packet@) && packet@.len() > QUEUE_CAPACITY - old(responses)@.len() ==> r
                == Err::<(), FrameError>(FrameError::Full),
            delimited(packet@) && packet@.len() > QUEUE_CAPACITY - old(responses)@.len()
                ==> final(responses)@ == old(responses)@,
            delimited(packet@) && packet@.len() <= QUEUE_CAPACITY - old(responses)@.len() ==> r
                == Ok::<(), FrameError>(()),
            delimited(packet@) && packet@.len() <= QUEUE_CAPACITY - old(responses)@.len()
                ==> final(responses)@ == old(responses)@ + packet@,
    {
        let n = packet.len();
        if n < 2 || packet[n - 1] != 0 {
            return Err(FrameError::Malformed);
        }
        let mut i: usize = 0;
        while i < n - 1
            invariant
                n == packet@.len(),
                n >= 2,
                i <= n - 1,
                no_delimiter(packet@.take(i as int)),
                responses.wf(),
                responses@ == old(responses)@,
            decreases n - 1 - i,
        {
            if packet[i] == 0 {
                assert(packet@.drop_last()[i as int] == 0);
                return Err(FrameError::Malformed);
            }
            i = i + 1;
            assert(packet@.take(i as int) =~= packet@.take(i - 1).push(packet@[i - 1]));
        }
        assert(packet@.take(i as int) =~= packet@.drop_last());
        if n > responses.free() {
            return Err(FrameError::Full);
        }
        let mut j: usize = 0;
        while j < n
            invariant
                n == packet@.len(),
                j <= n,
                responses.wf(),
                n <= QUEUE_CAPACITY - old(responses)@.len(),
                responses@ == old(responses)@ + packet@.take(j as int),
            decreases n - j,
        {
            let _ = responses.enqueue(packet[j]);
            j = j + 1;
            assert(packet@.take(j as int) =~= packet@.take(j - 1).push(packet@[j - 1]));
        }
        assert(packet@.take(j as int) =~= packet@);
        Ok(())
    }
}

/// The two byte queues of a command channel: requests in, responses out.
pub struct Rpc {
    pub requests: ByteQueue,
    pub responses: ByteQueue,
}

impl Rpc {
    /// Both queues empty.
    pub fn new() -> (r: Self)
        ensures
            r.requests@ == Seq::<u8>::empty(),
            r.responses@ == Seq::<u8>::empty(),
            r.requests.wf(),
            r.responses.wf(),
    {
        Rpc { requests: ByteQueue::new(), responses: ByteQueue::new() }
    }
}

proof fn lemma_gather(p: Seq<u8>, v: Seq<u8>, rest: Seq<u8>)
    requires
        p.len() + v.len() <= MAX_FRAME_BODY,
        p.len() + v.len() > 0,
        no_delimiter(p),
        no_delimiter(v),
    ensures
        split(SplitterView { pending: p, discarding: false }, v + seq![0u8] + rest) == (
            clean(),
            rest,
            Some((p + v).push(0)),
        ),
    decreases v.len(),
{
    let q = v + seq![0u8] + rest;
    let s = SplitterView { pending: p, discarding: false };
    if v.len() == 0 {
        assert(q[0] == 0);
        assert(q.skip(1) =~= rest);
        assert(p + v =~= p);
    } else {
        assert(q[0] == v[0]);
        let p_next = p.push(v[0]);
        let v_rest = v.skip(1);
        assert(q.skip(1) =~= v_rest + seq![0u8] + rest);
        assert(p_next + v_rest =~= p + v);
        assert(no_delimiter(p_next)) by {
            assert forall|i: int| 0 <= i < p_next.len() implies p_next[i] != 0 by {
                if i < p.len() {
                    assert(p_next[i] == p[i]);
                } else {
                    assert(p_next[i] == v[0]);
                }
            }
        }
        assert(no_delimiter(v_rest)) by {
            assert forall|i: int| 0 <= i < v_rest.len() implies v_rest[i] != 0 by {
                assert(v_rest[i] == v[i + 1]);
            }
        }
        lemma_gather(p_next, v_rest, rest);
    }
}

/// Frames are isolated by their delimiters: from a clean splitter, a stream
/// holding a damaged frame (any short run of non-zero bytes, such as a frame
/// that lost a byte), its delimiter, then a valid frame, yields the damaged one
/// first, to be rejected by whoever decodes it, and then the valid frame
/// exactly as sent, with the rest of the stream left for later.
pub proof fn lemma_frames_isolated(damaged: Seq<u8>, valid: Seq<u8>, rest: Seq<u8>)
    requires
        0 < damaged.len() <= MAX_FRAME_BODY,
        0 < valid.len() <= MAX_FRAME_BODY,
        no_delimiter(damaged),
        no_delimiter(valid),
    ensures
        split(clean(), damaged + seq![0u8] + valid + seq![0u8] + rest) == (
            clean(),
            valid + seq![0u8] + rest,
            Some(damaged.push(0)),
        ),
        split(clean(), valid + seq![0u8] + rest) == (clean(), rest, Some(valid.push(0))),
{
    let tail = valid + seq![0u8] + rest;
    assert(damaged + seq![0u8] + valid + seq![0u8] + rest =~= damaged + seq![0u8] + tail);
    lemma_gather(Seq::empty(), damaged, tail);
    assert(Seq::<u8>::empty() + damaged =~= damaged);
    assert(clean() == SplitterView { pending: Seq::<u8>::empty(), discarding: false });
    lemma_gather(Seq::empty(), valid, rest);
    assert(Seq::<u8>::empty() + valid =~= valid);
}

} // verus!
