use vstd::prelude::*;

use crate::interval::{elapsed, ticks_between};
use crate::protocol::Temp;
use crate::signal::{Signal, written};
use crate::statistics::StatsAccumulator;

verus! {

/// Number of bits in a sensor frame.
pub const FRAME_BITS: u8 = 40;

/// A bit-serial frame being filled by the decoder.
///
/// Field 0 counts the bits still to come, from 40 down to 0. Field 1 holds the
/// bytes, filled MSB-first from index 4 down to index 0, so that once the frame is
/// complete index 4 holds the first byte on the wire (humidity, integer part),
/// index 3 the humidity tenths, index 2 the temperature integer part, index 1 the
/// temperature tenths and index 0 the checksum.
#[derive(Debug, Clone, Copy)]
pub struct Packet(pub u8, pub [u8; 5]);

/// What a packet holds: the bits still to come and its five bytes.
pub struct PacketView {
    pub remaining: nat,
    pub bytes: Seq<u8>,
}

impl View for Packet {
    type V = PacketView;

    open spec fn view(&self) -> PacketView {
        PacketView { remaining: self.0 as nat, bytes: self.1@ }
    }
}

/// A byte with one more bit shifted in at the low end.
pub open spec fn shift_in(byte: u8, bit: bool) -> u8 {
    (byte << 1u8) | if bit { 1u8 } else { 0u8 }
}

/// Index of the byte that the next bit goes to, when `remaining` bits are still
/// to come.
pub open spec fn byte_index(remaining: nat) -> int {
    ((remaining - 1) / 8) as int
}

/// A packet with one more bit appended.
pub open spec fn appended(p: PacketView, bit: bool) -> PacketView {
    let k = byte_index(p.remaining);
    PacketView {
        remaining: (p.remaining - 1) as nat,
        bytes: p.bytes.update(k, shift_in(p.bytes[k], bit)),
    }
}

/// The empty packet: 40 bits to come, all bytes zero.
pub open spec fn empty_packet() -> PacketView {
    PacketView { remaining: 40, bytes: seq![0u8, 0u8, 0u8, 0u8, 0u8] }
}

/// The checksum byte that matches four payload bytes: their sum modulo 256.
pub open spec fn checksum_of(b1: u8, b2: u8, b3: u8, b4: u8) -> u8 {
    ((b1 as int + b2 as int + b3 as int + b4 as int) % 256) as u8
}

/// Whether the stored bytes of a complete packet pass the checksum.
pub open spec fn checksum_ok(bytes: Seq<u8>) -> bool {
    checksum_of(bytes[1], bytes[2], bytes[3], bytes[4]) == bytes[0]
}

/// The reading that the stored bytes of a complete packet stand for.
pub open spec fn reading_of(bytes: Seq<u8>) -> Temp {
    Temp {
        temp: (10 * bytes[2] + bytes[1]) as i16,
        humidity: (10 * bytes[4] + bytes[3]) as i16,
    }
}

impl Packet {
    /// Whether the packet is in a state that the decoder can reach.
    pub open spec fn wf(self) -> bool {
        self.0 <= FRAME_BITS
    }

    /// An empty packet, expecting 40 bits.
    pub fn new() -> (r: Self)
        ensures
            r@ == empty_packet(),
            r.wf(),
    {
        let r = Packet(FRAME_BITS, [0u8; 5]);
        assert(r@.bytes =~= empty_packet().bytes);
        r
    }

    /// Appends one bit, most significant bit of each byte first.
    pub fn append(&mut self, value: bool)
        requires
            old(self).wf(),
            old(self).0 > 0,
        ensures
            final(self).wf(),
            final(self)@ == appended(old(self)@, value),
    {
        let remaining: u8 = self.0 - 1;
        self.0 = remaining;
        let byte: usize = (remaining >> 3u8) as usize;
        assert(remaining >> 3u8 == remaining / 8) by (bit_vector);
        let old_byte = self.1[byte];
        let bit: u8 = if value { 1 } else { 0 };
        let new_byte: u8 = old_byte << 1u8 | bit;
        self.1[byte] = new_byte;
        assert(self@.bytes =~= appended(old(self)@, value).bytes);
    }

    /// Whether all 40 bits have arrived.
    pub fn complete(&self) -> (r: bool)
        ensures
            r == (self.0 == 0),
    {
        self.0 == 0
    }

    /// Stored byte `n`, widened.
    pub fn byte_n(self, n: usize) -> (r: u16)
        requires
            n < 5,
        ensures
            r == self.1[n as int] as u16,
    {
        self.1[n] as u16
    }

    /// The integer part of the value whose tenths are stored at byte `n`: the
    /// byte above it.
    pub fn word_n(self, n: usize) -> (r: u16)
        requires
            n < 4,
        ensures
            r == self.1[n as int + 1] as u16,
    {
        self.byte_n(n + 1)
    }

    /// Checks the checksum and converts the bytes to a reading in tenths of a
    /// unit.
    pub fn decode(self) -> (r: Result<Temp, ReadError>)
        ensures
            checksum_ok(self@.bytes) ==> r == Ok::<Temp, ReadError>(reading_of(self@.bytes)),
            !checksum_ok(self@.bytes) ==> r == Err::<Temp, ReadError>(ReadError::Checksum),
    {
        let humidity = 10 * self.word_n(3) + self.byte_n(3);
        let temperature = 10 * self.word_n(1) + self.byte_n(1);
        let crc = self.1[4].wrapping_add(self.1[3]).wrapping_add(self.1[2]).wrapping_add(
            self.1[1],
        );
        if crc == self.1[0] {
            Ok(Temp { temp: temperature as i16, humidity: humidity as i16 })
        } else {
            Err(ReadError::Checksum)
        }
    }
}

/// Decoder state: waiting, receiving a frame, or after a timing fault.
#[derive(Debug, Clone, Copy)]
pub enum InputState {
    Standby,
    Data(Packet),
    Error,
}

/// Why a sensor read produced no reading.
#[derive(Debug, Clone, Copy)]
pub enum ReadError {
    Checksum,
    Timeout,
    Timing(InputState, u32),
    Busy,
}


/// Idle time (µs) after which any state returns to standby: the host's start
/// pulse, or the pause between two reads.
pub const INITIATE: u32 = 18000;
/// Bounds (µs, exclusive) of the sensor's response interval.
pub const RESPONSE_MIN: u32 = 150;
pub const RESPONSE_MAX: u32 = 180;
/// Bounds (µs, exclusive) of one data bit; above the midpoint a bit is a one.
pub const DATA_MIN: u32 = 50;
pub const DATA_MAX: u32 = 150;
/// Midpoint of the data window: longer intervals are ones.
pub const DATA_MED: u32 = 100;

/// An open interval of durations with its midpoint.
#[derive(Debug, Clone, Copy)]
pub struct DurationRange {
    pub min: u32,
    pub max: u32,
    pub med: u32,
}

impl DurationRange {
    /// The range strictly between `min` and `max` microseconds.
    pub fn micros(min: u32, max: u32) -> (r: Self)
        ensures
            r.min == min,
            r.max == max,
            r.med == (min as int + max as int) / 2,
    {
        DurationRange { min, max, med: ((min as u64 + max as u64) / 2) as u32 }
    }

    /// Whether `value` lies strictly inside the range.
    pub fn contains(self, value: u32) -> (r: bool)
        ensures
            r == (self.min < value && value < self.max),
    {
        value > self.min && value < self.max
    }
}

/// Whether an interval is a sensor response.
pub open spec fn is_response(interval: u32) -> bool {
    RESPONSE_MIN < interval && interval < RESPONSE_MAX
}

/// Whether an interval is a data bit.
pub open spec fn is_data(interval: u32) -> bool {
    DATA_MIN < interval && interval < DATA_MAX
}

/// The bit that a data interval stands for.
pub open spec fn data_bit(interval: u32) -> bool {
    interval > DATA_MED
}

/// What a decoder state holds.
pub enum StateView {
    Standby,
    Data(PacketView),
    Error,
}

/// What a read error holds.
pub enum ErrorView {
    Checksum,
    Timeout,
    Timing(StateView, u32),
    Busy,
}

impl View for InputState {
    type V = StateView;

    open spec fn view(&self) -> StateView {
        match *self {
            InputState::Standby => StateView::Standby,
            InputState::Data(p) => StateView::Data(p@),
            InputState::Error => StateView::Error,
        }
    }
}

impl View for ReadError {
    type V = ErrorView;

    open spec fn view(&self) -> ErrorView {
        match *self {
            ReadError::Checksum => ErrorView::Checksum,
            ReadError::Timeout => ErrorView::Timeout,
            ReadError::Timing(s, i) => ErrorView::Timing(s@, i),
            ReadError::Busy => ErrorView::Busy,
        }
    }
}

/// What a decoder step hands on: nothing, a complete packet, or an error.
pub open spec fn outcome_view(o: Option<Result<Packet, ReadError>>) -> Option<
    Result<PacketView, ErrorView>,
> {
    match o {
        None => None,
        Some(Ok(p)) => Some(Ok(p@)),
        Some(Err(e)) => Some(Err(e@)),
    }
}

/// One step of the decoder: the next state, and what it hands on, after an edge
/// `interval` µs after the previous one.
pub open spec fn step(s: StateView, interval: u32) -> (StateView, Option<
    Result<PacketView, ErrorView>,
>) {
    match s {
        StateView::Standby if interval > INITIATE => (StateView::Standby, None),
        StateView::Error if interval > INITIATE => (StateView::Standby, None),
        StateView::Standby if is_response(interval) => (StateView::Data(empty_packet()), None),
        StateView::Data(p) if is_data(interval) => {
            let q = appended(p, data_bit(interval));
            if q.remaining == 0 {
                (StateView::Standby, Some(Ok(q)))
            } else {
                (StateView::Data(q), None)
            }
        },
        StateView::Error => (StateView::Error, None),
        _ => (StateView::Error, Some(Err(ErrorView::Timing(s, interval)))),
    }
}

impl InputState {
    /// Whether a state is one that the decoder can reach: a packet being received
    /// still expects at least one bit.
    pub open spec fn wf(self) -> bool {
        match self {
            InputState::Data(p) => 0 < p.0 <= FRAME_BITS,
            _ => true,
        }
    }

    /// The decoder's transition on an edge `interval` µs after the previous one.
    pub fn next(self, interval: u32) -> (r: (InputState, Option<Result<Packet, ReadError>>))
        requires
            self.wf(),
        ensures
            r.0.wf(),
            (r.0@, outcome_view(r.1)) == step(self@, interval),
    {
        let response = DurationRange::micros(RESPONSE_MIN, RESPONSE_MAX);
        let data = DurationRange::micros(DATA_MIN, DATA_MAX);
        match self {
            InputState::Standby if interval > INITIATE => (InputState::Standby, None),
            InputState::Error if interval > INITIATE => (InputState::Standby, None),
            InputState::Standby if response.contains(interval) => (
                InputState::Data(Packet::new()),
                None,
            ),
            InputState::Data(packet) if data.contains(interval) => {
                let mut packet = packet;
                packet.append(interval > data.med);
                if packet.complete() {
                    (InputState::Standby, Some(Ok(packet)))
                } else {
                    (InputState::Data(packet), None)
                }
            },
            InputState::Error => (InputState::Error, None),
            _ => (InputState::Error, Some(Err(ReadError::Timing(self, interval)))),
        }
    }
}


/// Timing statistics of the decoder: handler run time, response intervals, and
/// the intervals of zero and one bits.
#[derive(Clone, Copy)]
pub struct Statistics {
    pub interrupt: StatsAccumulator,
    pub response: StatsAccumulator,
    pub zero: StatsAccumulator,
    pub one: StatsAccumulator,
}

impl Statistics {
    pub open spec fn wf(self) -> bool {
        &&& self.interrupt.wf()
        &&& self.response.wf()
        &&& self.zero.wf()
        &&& self.one.wf()
    }

    /// All four accumulators empty.
    pub fn new() -> (r: Self)
        ensures
            r.wf(),
    {
        Statistics {
            interrupt: StatsAccumulator::new(),
            response: StatsAccumulator::new(),
            zero: StatsAccumulator::new(),
            one: StatsAccumulator::new(),
        }
    }
}

/// What the decoder hands to the reader: its statistics and the packet or error.
pub type Reading = (Statistics, Result<Packet, ReadError>);

/// A sample recorded into an accumulator that has room for it; once the count
/// would overflow, further samples are not recorded.
pub open spec fn recorded(s: Seq<u32>, value: u32) -> Seq<u32> {
    if s.len() < u32::MAX {
        s.push(value)
    } else {
        s
    }
}

/// The interval samples after a decoder step from `initial`: a response
/// interval goes to `response`, a data interval to `one` or `zero` by its bit.
/// Returns the new (response, zero, one) samples.
pub open spec fn stats_after(s: Statistics, initial: StateView, interval: u32) -> (
    Seq<u32>,
    Seq<u32>,
    Seq<u32>,
) {
    match initial {
        StateView::Standby if is_response(interval) => (
            recorded(s.response@, interval),
            s.zero@,
            s.one@,
        ),
        StateView::Data(_) if is_data(interval) => if data_bit(interval) {
            (s.response@, s.zero@, recorded(s.one@, interval))
        } else {
            (s.response@, recorded(s.zero@, interval), s.one@)
        },
        _ => (s.response@, s.zero@, s.one@),
    }
}

fn record(acc: &mut StatsAccumulator, value: u32)
    requires
        old(acc).wf(),
    ensures
        final(acc).wf(),
        final(acc)@ == recorded(old(acc)@, value),
{
    if acc.count() < u32::MAX {
        acc.add(value);
    }
}

/// The interrupt side of the sensor decoder: it turns falling-edge timestamps
/// into intervals and runs the decoder, handing each complete packet or fault to
/// the reader through a signal.
pub struct Dht11Writer {
    timestamp: u32,
    state: InputState,
    statistics: Statistics,
}

impl Dht11Writer {
    pub closed spec fn spec_timestamp(&self) -> u32 {
        self.timestamp
    }

    pub closed spec fn spec_state(&self) -> InputState {
        self.state
    }

    pub closed spec fn spec_statistics(&self) -> Statistics {
        self.statistics
    }

    pub closed spec fn wf(&self) -> bool {
        self.state.wf() && self.statistics.wf()
    }

    /// A decoder in standby; the last edge is taken to be at tick 0.
    pub fn new() -> (r: Self)
        ensures
            r.wf(),
            r.spec_timestamp() == 0,
            r.spec_state()@ == StateView::Standby,
    {
        Dht11Writer { timestamp: 0, state: InputState::Standby, statistics: Statistics::new() }
    }

    /// Current decoder state.
    pub fn state(&self) -> (r: InputState)
        ensures
            r == self.spec_state(),
    {
        self.state
    }

    /// Tick of the last edge.
    pub fn timestamp(&self) -> (r: u32)
        ensures
            r == self.spec_timestamp(),
    {
        self.timestamp
    }

    /// Current statistics.
    pub fn statistics(&self) -> (r: Statistics)
        ensures
            r == self.spec_statistics(),
    {
        self.statistics
    }

    /// Handles a falling edge at tick `now`: the interval since the previous
    /// edge, taken modulo the counter's width, drives one decoder step, and
    /// whatever the step hands on is written to `signal`. Returns whether the
    /// reader must be woken.
    pub fn falling_edge(&mut self, now: u32, signal: &mut Signal<Reading>) -> (wake: bool)
        requires
            old(self).wf(),
        ensures
            final(self).wf(),
            final(self).spec_timestamp() == now,
            final(self).spec_statistics().interrupt@ == old(self).spec_statistics().interrupt@,
            ({
                let interval = ticks_between(old(self).spec_timestamp(), now) as u32;
                let st = final(self).spec_statistics();
                (st.response@, st.zero@, st.one@) == stats_after(
                    old(self).spec_statistics(),
                    old(self).spec_state()@,
                    interval,
                )
            }),
            ({
                let (next, out) = step(
                    old(self).spec_state()@,
                    ticks_between(old(self).spec_timestamp(), now) as u32,
                );
                &&& final(self).spec_state()@ == next
                &&& out.is_some() ==> final(signal)@.slot.unwrap().0 == final(self).spec_statistics()
                &&& out.is_none() ==> final(signal)@ == old(signal)@ && !wake
                &&& out.is_some() ==> {
                    &&& final(signal)@.slot.is_some()
                    &&& outcome_view(Some(final(signal)@.slot.unwrap().1)) == out
                    &&& final(signal)@ == written(old(signal)@, final(signal)@.slot.unwrap())
                    &&& wake == old(signal)@.waiting
                }
            }),
    {
        let interval = elapsed(self.timestamp, now);
        self.timestamp = now;
        let initial = self.state;
        let (state, wake) = self.updated(interval, initial, signal);
        self.state = state;
        wake
    }

    /// Records the run time of one edge handler, in ticks.
    pub fn record_latency(&mut self, ticks: u32)
        requires
            old(self).wf(),
        ensures
            final(self).wf(),
            final(self).spec_state() == old(self).spec_state(),
            final(self).spec_timestamp() == old(self).spec_timestamp(),
            final(self).spec_statistics().interrupt@ == recorded(
                old(self).spec_statistics().interrupt@,
                ticks,
            ),
    {
        record(&mut self.statistics.interrupt, ticks);
    }

    /// One decoder step from `initial`; records the interval in the matching
    /// statistic and writes any outcome to `signal`.
    fn updated(&mut self, interval: u32, initial: InputState, signal: &mut Signal<Reading>) -> (r: (
        InputState,
        bool,
    ))
        requires
            old(self).statistics.wf(),
            initial.wf(),
        ensures
            final(self).statistics.wf(),
            final(self).timestamp == old(self).timestamp,
            final(self).state == old(self).state,
            final(self).statistics.interrupt@ == old(self).statistics.interrupt@,
            ({
                let st = final(self).statistics;
                (st.response@, st.zero@, st.one@) == stats_after(old(self).statistics, initial@, interval)
            }),
            r.0.wf(),
            ({
                let (next, out) = step(initial@, interval);
                &&& r.0@ == next
                &&& out.is_some() ==> final(signal)@.slot.unwrap().0 == final(self).statistics
                &&& out.is_none() ==> final(signal)@ == old(signal)@ && !r.1
                &&& out.is_some() ==> {
                    &&& final(signal)@.slot.is_some()
                    &&& outcome_view(Some(final(signal)@.slot.unwrap().1)) == out
                    &&& final(signal)@ == written(old(signal)@, final(signal)@.slot.unwrap())
                    &&& r.1 == old(signal)@.waiting
                }
            }),
    {
        let response = DurationRange::micros(RESPONSE_MIN, RESPONSE_MAX);
        let data = DurationRange::micros(DATA_MIN, DATA_MAX);
        let mut stats = self.statistics;
        match initial {
            InputState::Standby => {
                if interval <= INITIATE && response.contains(interval) {
                    record(&mut stats.response, interval);
                }
            },
            InputState::Data(_) => {
                if data.contains(interval) {
                    if interval > data.med {
                        record(&mut stats.one, interval);
                    } else {
                        record(&mut stats.zero, interval);
                    }
                }
            },
            InputState::Error => {},
        }
        self.statistics = stats;
        let (next, out) = initial.next(interval);
        match out {
            Some(result) => {
                let wake = signal.write((stats, result));
                (next, wake)
            },
            None => (next, false),
        }
    }
}

/// The reader side's claim on the sensor line: `begin` takes it, so a second
/// read started while one is in flight fails at once.
pub open spec fn begun<P>(pin: Option<P>) -> (Option<P>, Result<P, ErrorView>) {
    match pin {
        Some(p) => (None, Ok(p)),
        None => (None, Err(ErrorView::Busy)),
    }
}

/// The result of a read, from what the decoder handed on before the deadline
/// (`None`: nothing came in time).
pub open spec fn read_result(outcome: Option<Result<PacketView, ErrorView>>) -> Result<
    Temp,
    ErrorView,
> {
    match outcome {
        None => Err(ErrorView::Timeout),
        Some(Ok(p)) => if checksum_ok(p.bytes) {
            Ok(reading_of(p.bytes))
        } else {
            Err(ErrorView::Checksum)
        },
        Some(Err(e)) => Err(e),
    }
}

/// What a reading handed on by the decoder holds, without its statistics.
pub open spec fn handed_on(outcome: Option<Reading>) -> Option<Result<PacketView, ErrorView>> {
    match outcome {
        None => None,
        Some((_, r)) => outcome_view(Some(r)),
    }
}

/// The task side of the sensor: owns the request line while no read is in
/// flight.
///
/// A read is `begin`, then driving the line (low for about 20 ms, then
/// released), then waiting for the signal against a deadline, then `finish`
/// with what came in time. The waiting is the caller's: it races the signal
/// against a timer.
pub struct Dht11Reader<PIN> {
    pin: Option<PIN>,
}

impl<PIN> Dht11Reader<PIN> {
    pub closed spec fn spec_pin(&self) -> Option<PIN> {
        self.pin
    }

    /// A reader that owns `pin`, with no read in flight.
    pub fn new(pin: PIN) -> (r: Self)
        ensures
            r.spec_pin() == Some(pin),
    {
        Dht11Reader { pin: Some(pin) }
    }

    /// Whether a read is in flight.
    pub fn busy(&self) -> (r: bool)
        ensures
            r == self.spec_pin().is_none(),
    {
        self.pin.is_none()
    }

    /// Starts a read: hands out the request line, or fails with `Busy` when a
    /// read is already in flight.
    pub fn begin(&mut self) -> (r: Result<PIN, ReadError>)
        ensures
            final(self).spec_pin() == begun(old(self).spec_pin()).0,
            match r {
                Ok(p) => begun(old(self).spec_pin()).1 == Ok::<PIN, ErrorView>(p),
                Err(e) => begun(old(self).spec_pin()).1 == Err::<PIN, ErrorView>(e@),
            },
    {
        match self.pin.take() {
            Some(pin) => Ok(pin),
            None => Err(ReadError::Busy),
        }
    }

    /// Ends a read: takes the request line back and turns what the decoder
    /// handed on before the deadline into a reading or an error.
    pub fn finish(&mut self, pin: PIN, outcome: Option<Reading>) -> (r: Result<Temp, ReadError>)
        ensures
            final(self).spec_pin() == Some(pin),
            match r {
                Ok(t) => read_result(handed_on(outcome)) == Ok::<
                    Temp,
                    ErrorView,
                >(t),
                Err(e) => read_result(handed_on(outcome)) == Err::<
                    Temp,
                    ErrorView,
                >(e@),
            },
    {
        self.pin = Some(pin);
        match outcome {
            None => Err(ReadError::Timeout),
            Some((_, Ok(packet))) => packet.decode(),
            Some((_, Err(err))) => Err(err),
        }
    }
}

/// A read started while another is in flight fails with `Busy` at once, and
/// leaves the first read's claim on the line as it was.
pub proof fn lemma_concurrent_read_busy<P>(pin: P)
    ensures
        begun(Some(pin)).1 == Ok::<P, ErrorView>(pin),
        begun(begun(Some(pin)).0).1 == Err::<P, ErrorView>(ErrorView::Busy),
        begun(begun(Some(pin)).0).0 == None::<P>,
{
}


/// The decoder run over a sequence of intervals from state `s`: the final state
/// and everything handed on, in order.
pub open spec fn run(s: StateView, intervals: Seq<u32>) -> (StateView, Seq<
    Result<PacketView, ErrorView>,
>)
    decreases intervals.len(),
{
    if intervals.len() == 0 {
        (s, Seq::empty())
    } else {
        let (mid, handed) = run(s, intervals.drop_last());
        let (last, out) = step(mid, intervals.last());
        match out {
            Some(o) => (last, handed.push(o)),
            None => (last, handed),
        }
    }
}

/// Bit `n` of a frame as sent on the wire, most significant bit of each byte
/// first; `wire` holds the five bytes in the order sent.
pub open spec fn wire_bit(wire: Seq<u8>, n: int) -> bool {
    (wire[n / 8] >> ((7 - n % 8) as u8)) & 1u8 == 1u8
}

/// Byte `k` of the packet once the first `n` bits of `wire` have arrived.
pub open spec fn partial_byte(wire: Seq<u8>, n: int, k: int) -> u8 {
    let j = 4 - k;
    if n >= 8 * (j + 1) {
        wire[j]
    } else if n > 8 * j {
        wire[j] >> ((8 - (n - 8 * j)) as u8)
    } else {
        0
    }
}

/// The packet once the first `n` bits of `wire` have arrived.
pub open spec fn partial(wire: Seq<u8>, n: int) -> PacketView {
    PacketView {
        remaining: (40 - n) as nat,
        bytes: Seq::new(5, |k: int| partial_byte(wire, n, k)),
    }
}

proof fn lemma_shift_next(b: u8, i: u8)
    requires
        i < 8,
    ensures
        shift_in(
            if i == 0 {
                0u8
            } else {
                b >> (8 - i) as u8
            },
            (b >> (7 - i) as u8) & 1u8 == 1u8,
        ) == b >> (7 - i) as u8,
{
    let bit = (b >> (7 - i) as u8) & 1u8 == 1u8;
    if i == 0 {
        assert((0u8 << 1u8) | (if (b >> 7u8) & 1u8 == 1u8 { 1u8 } else { 0u8 }) == b >> 7u8)
            by (bit_vector);
    } else {
        let prev = b >> (8 - i) as u8;
        assert(((b >> (8 - i) as u8) << 1u8) | (if (b >> (7 - i) as u8) & 1u8 == 1u8 {
            1u8
        } else {
            0u8
        }) == b >> (7 - i) as u8) by (bit_vector)
            requires
                0 < i < 8,
        ;
    }
}

proof fn lemma_partial_step(wire: Seq<u8>, n: int)
    requires
        wire.len() == 5,
        0 <= n < 40,
    ensures
        appended(partial(wire, n), wire_bit(wire, n)) == partial(wire, n + 1),
{
    let j = n / 8;
    let i = n % 8;
    let k = 4 - j;
    let p = partial(wire, n);
    assert(byte_index(p.remaining) == k);
    let b = wire[j];
    lemma_shift_next(b, i as u8);
    if i == 7 {
        assert(b >> 0u8 == b) by (bit_vector);
    }
    assert(partial_byte(wire, n, k) == if i == 0 {
        0u8
    } else {
        b >> (8 - i as u8) as u8
    });
    assert(appended(p, wire_bit(wire, n)).bytes =~= partial(wire, n + 1).bytes);
}

proof fn lemma_frame_prefix(wire: Seq<u8>, intervals: Seq<u32>, n: int)
    requires
        wire.len() == 5,
        intervals.len() == 41,
        0 <= n <= 39,
        is_response(intervals[0]),
        forall|j: int|
            1 <= j < 41 ==> is_data(#[trigger] intervals[j]) && data_bit(intervals[j])
                == wire_bit(wire, j - 1),
    ensures
        run(StateView::Standby, intervals.take(n + 1)) == (
            StateView::Data(partial(wire, n)),
            Seq::<Result<PacketView, ErrorView>>::empty(),
        ),
    decreases n,
{
    if n == 0 {
        assert(intervals.take(1).drop_last() =~= Seq::<u32>::empty());
        assert(run(StateView::Standby, Seq::<u32>::empty()) == (
            StateView::Standby,
            Seq::<Result<PacketView, ErrorView>>::empty(),
        ));
        assert(intervals.take(1).last() == intervals[0]);
        assert(partial(wire, 0).bytes =~= empty_packet().bytes);
    } else {
        lemma_frame_prefix(wire, intervals, n - 1);
        assert(intervals.take(n + 1).drop_last() =~= intervals.take(n));
        assert(intervals.take(n + 1).last() == intervals[n]);
        lemma_partial_step(wire, n - 1);
    }
}

/// Fed a response interval followed by 40 data intervals that spell out a frame
/// with a correct checksum, the decoder from standby hands on exactly one
/// packet, holding the frame's bytes, which decodes to the frame's reading; and
/// it ends in standby.
pub proof fn lemma_frame_decodes(wire: Seq<u8>, intervals: Seq<u32>)
    requires
        wire.len() == 5,
        wire[4] == checksum_of(wire[0], wire[1], wire[2], wire[3]),
        intervals.len() == 41,
        is_response(intervals[0]),
        forall|j: int|
            1 <= j < 41 ==> is_data(#[trigger] intervals[j]) && data_bit(intervals[j])
                == wire_bit(wire, j - 1),
    ensures
        run(StateView::Standby, intervals).0 == StateView::Standby,
        run(StateView::Standby, intervals).1 == seq![
            Ok::<PacketView, ErrorView>(
                PacketView { remaining: 0, bytes: seq![wire[4], wire[3], wire[2], wire[1], wire[0]] },
            ),
        ],
        read_result(Some(run(StateView::Standby, intervals).1[0])) == Ok::<Temp, ErrorView>(
            Temp {
                temp: (10 * wire[2] + wire[3]) as i16,
                humidity: (10 * wire[0] + wire[1]) as i16,
            },
        ),
{
    lemma_frame_prefix(wire, intervals, 39);
    assert(intervals.take(41).drop_last() =~= intervals.take(40));
    assert(intervals.take(41) =~= intervals);
    lemma_partial_step(wire, 39);
    assert(partial(wire, 40).bytes =~= seq![wire[4], wire[3], wire[2], wire[1], wire[0]]);
}

/// Flipping any one bit of a payload byte of a packet whose checksum held makes
/// the checksum fail, so the read reports a checksum fault rather than a reading.
pub proof fn lemma_flipped_bit_fails(bytes: Seq<u8>, k: int, i: u8)
    requires
        bytes.len() == 5,
        checksum_ok(bytes),
        1 <= k < 5,
        i < 8,
    ensures
        !checksum_ok(bytes.update(k, bytes[k] ^ (1u8 << i))),
        read_result(
            Some(
                Ok(PacketView { remaining: 0, bytes: bytes.update(k, bytes[k] ^ (1u8 << i)) }),
            ),
        ) == Err::<Temp, ErrorView>(ErrorView::Checksum),
{
    let x = bytes[k];
    let y = x ^ (1u8 << i);
    assert(x ^ (1u8 << i) != x) by (bit_vector)
        requires
            i < 8,
    ;
    let flipped = bytes.update(k, y);
    assert(flipped[k] != bytes[k]);
}

/// From a packet being received, an interval outside the data window hands on
/// exactly one timing fault, tagged with that state and interval, and leaves the
/// decoder in the fault state; one long idle interval then brings it back to
/// standby, handing on nothing more.
pub proof fn lemma_stall_then_recover(p: PacketView, interval: u32, idle: u32)
    requires
        !is_data(interval),
        idle > INITIATE,
    ensures
        run(StateView::Data(p), seq![interval]) == (
            StateView::Error,
            seq![Err::<PacketView, ErrorView>(ErrorView::Timing(StateView::Data(p), interval))],
        ),
        run(StateView::Data(p), seq![interval, idle]) == (
            StateView::Standby,
            seq![Err::<PacketView, ErrorView>(ErrorView::Timing(StateView::Data(p), interval))],
        ),
{
    assert(seq![interval].drop_last() =~= Seq::<u32>::empty());
    assert(run(StateView::Data(p), Seq::<u32>::empty()) == (
        StateView::Data(p),
        Seq::<Result<PacketView, ErrorView>>::empty(),
    ));
    assert(seq![interval, idle].drop_last() =~= seq![interval]);
    assert(Seq::<Result<PacketView, ErrorView>>::empty().push(
        Err(ErrorView::Timing(StateView::Data(p), interval)),
    ) =~= seq![Err::<PacketView, ErrorView>(ErrorView::Timing(StateView::Data(p), interval))]);
    assert(seq![interval, idle].last() == idle);
    assert(run(StateView::Data(p), seq![interval]).0 == StateView::Error);
    assert(step(StateView::Error, idle) == (StateView::Standby, None::<Result<PacketView, ErrorView>>));
}


proof fn lemma_run_concat(s: StateView, a: Seq<u32>, b: Seq<u32>)
    ensures
        run(s, a + b) == (
            run(run(s, a).0, b).0,
            run(s, a).1 + run(run(s, a).0, b).1,
        ),
    decreases b.len(),
{
    let mid = run(s, a).0;
    if b.len() == 0 {
        assert(a + b =~= a);
        assert(run(s, a).1 + Seq::<Result<PacketView, ErrorView>>::empty() =~= run(s, a).1);
    } else {
        lemma_run_concat(s, a, b.drop_last());
        assert((a + b).drop_last() =~= a + b.drop_last());
        assert((a + b).last() == b.last());
        let prefix = run(mid, b.drop_last());
        let (_, out) = step(prefix.0, b.last());
        match out {
            Some(o) => {
                assert(run(s, a).1 + prefix.1.push(o) =~= (run(s, a).1 + prefix.1).push(o));
            },
            None => {},
        }
    }
}

/// After a stall mid-frame and one long idle interval, the decoder reads the
/// next whole frame as if nothing had happened: what it hands on is the one
/// timing fault, then the frame's packet, and it ends in standby.
pub proof fn lemma_usable_after_recovery(
    p: PacketView,
    interval: u32,
    idle: u32,
    wire: Seq<u8>,
    intervals: Seq<u32>,
)
    requires
        !is_data(interval),
        idle > INITIATE,
        wire.len() == 5,
        wire[4] == checksum_of(wire[0], wire[1], wire[2], wire[3]),
        intervals.len() == 41,
        is_response(intervals[0]),
        forall|j: int|
            1 <= j < 41 ==> is_data(#[trigger] intervals[j]) && data_bit(intervals[j])
                == wire_bit(wire, j - 1),
    ensures
        run(StateView::Data(p), seq![interval, idle] + intervals) == (
            StateView::Standby,
            seq![
                Err::<PacketView, ErrorView>(ErrorView::Timing(StateView::Data(p), interval)),
                Ok::<PacketView, ErrorView>(
                    PacketView {
                        remaining: 0,
                        bytes: seq![wire[4], wire[3], wire[2], wire[1], wire[0]],
                    },
                ),
            ],
        ),
{
    lemma_stall_then_recover(p, interval, idle);
    lemma_frame_decodes(wire, intervals);
    lemma_run_concat(StateView::Data(p), seq![interval, idle], intervals);
    let fault = Err::<PacketView, ErrorView>(ErrorView::Timing(StateView::Data(p), interval));
    let packet = Ok::<PacketView, ErrorView>(
        PacketView { remaining: 0, bytes: seq![wire[4], wire[3], wire[2], wire[1], wire[0]] },
    );
    assert(seq![fault] + seq![packet] =~= seq![fault, packet]);
}

} // verus!
