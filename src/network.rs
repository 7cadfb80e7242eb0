use vstd::prelude::*;

use sha2::{Digest, Sha256};

use vstd::string::StringSliceAdditionalSpecFns;

use crate::queue::{ByteQueue, QUEUE_CAPACITY};

verus! {

/// Receive-side lifecycle of one logical connection, tracked apart from the
/// socket's own state: it says when the remote has gone and when to listen
/// again.
#[derive(Debug, Clone, Copy, PartialEq, Eq, Structural)]
pub enum RecvChannelState {
    Listening,
    Receiving,
    Closing,
}

/// What the socket must be told after a lifecycle step.
#[derive(Debug, Clone, Copy, PartialEq, Eq, Structural)]
pub enum SocketAction {
    Nothing,
    Close,
    Listen(u16),
}

/// One lifecycle step, from whether the socket can still receive and whether it
/// is active at all: the next state, whether to read from the socket now, and
/// what to tell the socket.
pub open spec fn transition(
    state: RecvChannelState,
    port: u16,
    may_recv: bool,
    is_active: bool,
) -> (RecvChannelState, bool, SocketAction) {
    match (state, may_recv) {
        (RecvChannelState::Listening, true) => (RecvChannelState::Receiving, true, SocketAction::Nothing),
        (RecvChannelState::Receiving, false) => (RecvChannelState::Closing, false, SocketAction::Close),
        (RecvChannelState::Closing, false) => if is_active {
            (RecvChannelState::Closing, false, SocketAction::Nothing)
        } else {
            (RecvChannelState::Listening, false, SocketAction::Listen(port))
        },
        _ => (state, may_recv, SocketAction::Nothing),
    }
}

/// The receive side of a logical connection on a fixed local port.
pub struct RecvChannel {
    port: u16,
    state: RecvChannelState,
}

impl RecvChannel {
    pub closed spec fn spec_port(&self) -> u16 {
        self.port
    }

    pub closed spec fn spec_state(&self) -> RecvChannelState {
        self.state
    }

    /// A channel listening on `port`.
    pub fn new(port: u16) -> (r: Self)
        ensures
            r.spec_port() == port,
            r.spec_state() == RecvChannelState::Listening,
    {
        RecvChannel { port, state: RecvChannelState::Listening }
    }

    /// The local port.
    pub fn port(&self) -> (r: u16)
        ensures
            r == self.spec_port(),
    {
        self.port
    }

    /// The lifecycle state.
    pub fn state(&self) -> (r: RecvChannelState)
        ensures
            r == self.spec_state(),
    {
        self.state
    }

    /// Steps the lifecycle on what the socket reports. Returns whether to read
    /// from the socket now, and what to tell it: close it once the remote has
    /// closed, and listen on the same port again once it is fully inactive.
    pub fn may_recv(&mut self, socket_may_recv: bool, socket_is_active: bool) -> (r: (
        bool,
        SocketAction,
    ))
        ensures
            final(self).spec_port() == old(self).spec_port(),
            (final(self).spec_state(), r.0, r.1) == transition(
                old(self).spec_state(),
                old(self).spec_port(),
                socket_may_recv,
                socket_is_active,
            ),
    {
        let (state, may_recv, action) = match (self.state, socket_may_recv) {
            (RecvChannelState::Listening, true) => (
                RecvChannelState::Receiving,
                true,
                SocketAction::Nothing,
            ),
            (RecvChannelState::Receiving, false) => (
                RecvChannelState::Closing,
                false,
                SocketAction::Close,
            ),
            (RecvChannelState::Closing, false) => {
                if socket_is_active {
                    (RecvChannelState::Closing, false, SocketAction::Nothing)
                } else {
                    (RecvChannelState::Listening, false, SocketAction::Listen(self.port))
                }
            },
            (state, receive) => (state, receive, SocketAction::Nothing),
        };
        self.state = state;
        (may_recv, action)
    }

    /// Queues as many of the `peeked` socket bytes as `inbound` has room for,
    /// in order, and returns how many it queued: exactly the number the caller
    /// may then consume from the socket. The rest stay in the socket, which
    /// holds the remote back.
    pub fn forward(&self, peeked: &[u8], inbound: &mut ByteQueue) -> (consumed: usize)
        requires
            old(inbound).wf(),
        ensures
            final(inbound).wf(),
            consumed == vstd::math::min(peeked@.len() as int, QUEUE_CAPACITY - old(inbound)@.len()),
            final(inbound)@ == old(inbound)@ + peeked@.take(consumed as int),
    {
        let mut consumed: usize = 0;
        let mut full = false;
        while consumed < peeked.len() && !full
            invariant
                inbound.wf(),
                full ==> inbound@.len() == QUEUE_CAPACITY,
                consumed <= peeked@.len(),
                consumed <= QUEUE_CAPACITY - old(inbound)@.len(),
                inbound@ == old(inbound)@ + peeked@.take(consumed as int),
            decreases peeked@.len() - consumed + if full { 0int } else { 1int },
        {
            match inbound.enqueue(peeked[consumed]) {
                Ok(()) => {
                    assert(peeked@.take(consumed + 1) =~= peeked@.take(consumed as int).push(
                        peeked@[consumed as int],
                    ));
                    consumed = consumed + 1;
                },
                Err(_) => {
                    full = true;
                },
            }
        }
        consumed
    }
}

/// Lifecycle reuse: a remote that disconnects while the channel receives takes
/// it to `Closing` (closing the socket), where it stays while the socket is
/// still active; once the socket is inactive the channel listens again on the
/// same port, and the next remote connection is received. The cycle ends in the
/// state where it began, so it repeats for any number of connections.
pub proof fn lemma_reconnect_cycle(port: u16, active: bool)
    ensures
        transition(RecvChannelState::Receiving, port, false, active) == (
            RecvChannelState::Closing,
            false,
            SocketAction::Close,
        ),
        transition(RecvChannelState::Closing, port, false, true) == (
            RecvChannelState::Closing,
            false,
            SocketAction::Nothing,
        ),
        transition(RecvChannelState::Closing, port, false, false) == (
            RecvChannelState::Listening,
            false,
            SocketAction::Listen(port),
        ),
        transition(RecvChannelState::Listening, port, true, active) == (
            RecvChannelState::Receiving,
            true,
            SocketAction::Nothing,
        ),
{
}

/// The send side of a logical connection.
pub struct SendChannel {
    port: u16,
}

impl SendChannel {
    pub closed spec fn spec_port(&self) -> u16 {
        self.port
    }

    /// The send side of the connection on `port`.
    pub fn new(port: u16) -> (r: Self)
        ensures
            r.spec_port() == port,
    {
        SendChannel { port }
    }

    /// The local port.
    pub fn port(&self) -> (r: u16)
        ensures
            r == self.spec_port(),
    {
        self.port
    }

    /// Drains the outbound queue. While the socket may send, takes as many
    /// bytes as it has `room` for, in order, for the caller to hand to the
    /// socket. When it may not (no remote, or half closed), discards the queue,
    /// so that a disconnected channel never blocks whoever feeds it.
    pub fn try_send(&mut self, outbound: &mut ByteQueue, may_send: bool, room: usize) -> (r: Vec<
        u8,
    >)
        requires
            old(outbound).wf(),
        ensures
            final(outbound).wf(),
            may_send ==> r@ == old(outbound)@.take(
                vstd::math::min(room as int, old(outbound)@.len() as int),
            ),
            may_send ==> final(outbound)@ == old(outbound)@.skip(r@.len() as int),
            !may_send ==> r@.len() == 0 && final(outbound)@.len() == 0,
    {
        let mut out: Vec<u8> = Vec::new();
        if may_send {
            let mut empty = false;
            while out.len() < room && !empty
                invariant
                    outbound.wf(),
                    empty ==> outbound@.len() == 0,
                    out@.len() <= room,
                    out@.len() <= old(outbound)@.len(),
                    out@ == old(outbound)@.take(out@.len() as int),
                    outbound@ == old(outbound)@.skip(out@.len() as int),
                decreases room - out@.len() + if empty { 0int } else { 1int },
            {
                match outbound.dequeue() {
                    Some(byte) => {
                        proof {
                            assert(old(outbound)@.take(out@.len() as int + 1) =~= out@.push(byte));
                            assert(old(outbound)@.skip(out@.len() as int + 1) =~= outbound@);
                        }
                        out.push(byte);
                    },
                    None => {
                        empty = true;
                    },
                }
            }
        } else {
            while outbound.len() > 0
                invariant
                    outbound.wf(),
                    out@.len() == 0,
                decreases outbound@.len(),
            {
                outbound.dequeue();
            }
        }
        out
    }
}

/// The SHA-256 digest of a message.
pub uninterp spec fn sha256_of(message: Seq<u8>) -> Seq<u8>;

/// Relies on sha2's `Sha256` (`new`, `update`, `finalize`): the 32-byte SHA-256
/// digest of `message`.
#[verifier::external_body]
fn sha256(message: &[u8]) -> (r: [u8; 32])
    ensures
        r@ == sha256_of(message@),
{
    let mut digest = Sha256::new();
    digest.update(message);
    digest.finalize().into()
}

/// The bytes hashed for a MAC address: the seed, then the chip's unique id
/// (lot number, wafer number, die `x` big-endian, die `y` little-endian).
pub open spec fn mac_message(seed: Seq<u8>, lot: Seq<u8>, waf: u8, x: u16, y: u16) -> Seq<u8> {
    seed + lot + seq![waf, (x / 256) as u8, (x % 256) as u8, (y % 256) as u8, (y / 256) as u8]
}

/// A MAC address from a digest: its first six bytes, marked as locally
/// administered.
pub open spec fn mac_of(digest: Seq<u8>) -> Seq<u8> {
    seq![digest[0] | 2u8, digest[1], digest[2], digest[3], digest[4], digest[5]]
}

fn append_bytes(out: &mut Vec<u8>, bytes: &[u8])
    ensures
        final(out)@ == old(out)@ + bytes@,
{
    let mut i: usize = 0;
    while i < bytes.len()
        invariant
            i <= bytes@.len(),
            out@ == old(out)@ + bytes@.take(i as int),
        decreases bytes@.len() - i,
    {
        out.push(bytes[i]);
        i = i + 1;
        assert(bytes@.take(i as int) =~= bytes@.take(i - 1).push(bytes@[i - 1]));
    }
    assert(bytes@.take(i as int) =~= bytes@);
}

/// A stable, locally administered MAC address for this device and `seed`:
/// derived from the SHA-256 digest of the seed and the chip's unique id.
pub fn mac_address(seed: &str, lot_num: &str, waf_num: u8, x: u16, y: u16) -> (r: [u8; 6])
    ensures
        r@ == mac_of(sha256_of(mac_message(seed.spec_bytes(), lot_num.spec_bytes(), waf_num, x, y))),
{
    let mut message: Vec<u8> = Vec::new();
    append_bytes(&mut message, seed.as_bytes());
    append_bytes(&mut message, lot_num.as_bytes());
    message.push(waf_num);
    message.push((x / 256) as u8);
    message.push((x % 256) as u8);
    message.push((y % 256) as u8);
    message.push((y / 256) as u8);
    assert(message@ =~= mac_message(seed.spec_bytes(), lot_num.spec_bytes(), waf_num, x, y));
    let hash = sha256(message.as_slice());
    let mac: [u8; 6] = [hash[0] | 2u8, hash[1], hash[2], hash[3], hash[4], hash[5]];
    assert(mac@ =~= mac_of(hash@));
    mac
}

} // verus!
