use aux_firmware::dht11::{
    Dht11Reader, Dht11Writer, DurationRange, InputState, Packet, ReadError, Reading, Statistics,
    INITIATE,
};
use aux_firmware::interval::elapsed;
use aux_firmware::protocol::Temp;
use aux_firmware::signal::Signal;

const ZERO: u32 = 78;
const ONE: u32 = 120;
const RESPONSE: u32 = 160;

/// Intervals of a full frame: the response, then 40 data bits, MSB first.
fn frame_intervals(wire: [u8; 5]) -> Vec<u32> {
    let mut v = vec![RESPONSE];
    for byte in wire.iter() {
        for bit in (0..8).rev() {
            v.push(if (byte >> bit) & 1 == 1 { ONE } else { ZERO });
        }
    }
    v
}

fn wire_with_checksum(h: u8, hf: u8, t: u8, tf: u8) -> [u8; 5] {
    [h, hf, t, tf, h.wrapping_add(hf).wrapping_add(t).wrapping_add(tf)]
}

/// Feeds intervals to a writer as edge timestamps starting at `start`.
fn feed(writer: &mut Dht11Writer, signal: &mut Signal<Reading>, start: u32, intervals: &[u32]) -> u32 {
    let mut now = start;
    for i in intervals {
        now = now.wrapping_add(*i);
        writer.falling_edge(now, signal);
    }
    now
}

fn run_state(state: InputState, intervals: &[u32]) -> (InputState, Vec<Result<Packet, ReadError>>) {
    let mut s = state;
    let mut out = Vec::new();
    for i in intervals {
        let (n, o) = s.next(*i);
        s = n;
        if let Some(o) = o {
            out.push(o);
        }
    }
    (s, out)
}

#[test]
fn elapsed_without_wrap() {
    assert_eq!(elapsed(100, 250), 150);
    assert_eq!(elapsed(7, 7), 0);
}

#[test]
fn elapsed_across_wrap() {
    assert_eq!(elapsed(u32::MAX, 0), 1);
    assert_eq!(elapsed(u32::MAX - 9, 5), 15);
    assert_eq!(elapsed(1, 0), u32::MAX);
}

#[test]
fn packet_append_fills_msb_first() {
    let mut p = Packet::new();
    assert!(!p.complete());
    for bit in [true, false, true, false, false, false, false, true] {
        p.append(bit);
    }
    assert_eq!(p.0, 32);
    assert_eq!(p.byte_n(4), 0b1010_0001);
    assert_eq!(p.byte_n(3), 0);
    assert_eq!(p.word_n(3), 0b1010_0001);
}

#[test]
fn packet_decode_tenths() {
    // stored order: checksum, temp tenths, temp, humidity tenths, humidity
    let p = Packet(0, [45 + 6 + 21 + 3, 3, 21, 6, 45]);
    assert!(p.complete());
    match p.decode() {
        Ok(t) => assert_eq!(t, Temp { temp: 213, humidity: 456 }),
        Err(_) => panic!("checksum should hold"),
    }
}

#[test]
fn packet_decode_checksum_wraps() {
    let p = Packet(0, [200u8.wrapping_add(100), 0, 100, 0, 200]);
    assert!(matches!(p.decode(), Ok(Temp { temp: 1000, humidity: 2000 })));
}

#[test]
fn packet_decode_checksum_fault() {
    let p = Packet(0, [1, 3, 21, 6, 45]);
    assert!(matches!(p.decode(), Err(ReadError::Checksum)));
}

#[test]
fn duration_range_is_open() {
    let r = DurationRange::micros(50, 150);
    assert_eq!(r.med, 100);
    assert!(!r.contains(50));
    assert!(r.contains(51));
    assert!(r.contains(149));
    assert!(!r.contains(150));
}

#[test]
fn well_formed_frame_decodes_once() {
    let wire = wire_with_checksum(55, 0, 23, 4);
    let (state, out) = run_state(InputState::Standby, &frame_intervals(wire));
    assert!(matches!(state, InputState::Standby));
    assert_eq!(out.len(), 1);
    let packet = match out[0] {
        Ok(p) => p,
        Err(_) => panic!("expected a packet"),
    };
    assert_eq!(packet.1, [wire[4], wire[3], wire[2], wire[1], wire[0]]);
    assert!(matches!(packet.decode(), Ok(Temp { temp: 234, humidity: 550 })));
}

#[test]
fn writer_hands_frame_to_reader() {
    let mut writer = Dht11Writer::new();
    let mut signal: Signal<Reading> = Signal::new();
    let mut reader = Dht11Reader::new(7u8);
    let pin = reader.begin().ok().unwrap();
    assert!(signal.poll_fresh().is_none());
    let wire = wire_with_checksum(40, 0, 25, 0);
    let mut intervals = vec![INITIATE + 1];
    intervals.extend(frame_intervals(wire));
    feed(&mut writer, &mut signal, 1000, &intervals);
    assert!(matches!(writer.state(), InputState::Standby));
    let outcome = signal.try_read();
    assert!(outcome.is_some());
    let stats: Statistics = outcome.unwrap().0;
    assert_eq!(stats.response.count(), 1);
    assert_eq!(stats.zero.count() + stats.one.count(), 40);
    let result = reader.finish(pin, outcome);
    assert!(matches!(result, Ok(Temp { temp: 250, humidity: 400 })));
    assert!(!reader.busy());
}

#[test]
fn writer_reports_wake_for_waiting_reader() {
    let mut writer = Dht11Writer::new();
    let mut signal: Signal<Reading> = Signal::new();
    assert!(signal.poll_fresh().is_none());
    let intervals = frame_intervals(wire_with_checksum(1, 2, 3, 4));
    let mut now: u32 = 0;
    let mut wakes = 0;
    for i in intervals.iter() {
        now += i;
        if writer.falling_edge(now, &mut signal) {
            wakes += 1;
        }
    }
    assert_eq!(wakes, 1);
    assert_eq!(writer.timestamp(), now);
}

#[test]
fn frame_across_counter_wrap_decodes() {
    let mut writer = Dht11Writer::new();
    let mut signal: Signal<Reading> = Signal::new();
    let wire = wire_with_checksum(60, 0, 20, 0);
    let mut intervals = vec![INITIATE + 1];
    intervals.extend(frame_intervals(wire));
    feed(&mut writer, &mut signal, u32::MAX - 20000, &intervals);
    let outcome = signal.try_read().unwrap();
    assert!(matches!(outcome.1, Ok(p) if matches!(p.decode(), Ok(Temp { temp: 200, humidity: 600 }))));
}

#[test]
fn flipped_payload_bit_is_checksum_fault() {
    let wire = wire_with_checksum(55, 0, 23, 4);
    for byte in 0..4 {
        for bit in 0..8 {
            let mut damaged = wire;
            damaged[byte] ^= 1 << bit;
            let (_, out) = run_state(InputState::Standby, &frame_intervals(damaged));
            assert_eq!(out.len(), 1);
            let packet = match out[0] {
                Ok(p) => p,
                Err(_) => panic!("timing should be fine"),
            };
            assert!(matches!(packet.decode(), Err(ReadError::Checksum)));
        }
    }
}

#[test]
fn stall_mid_frame_is_one_timing_fault_then_recovers() {
    let wire = wire_with_checksum(55, 0, 23, 4);
    let mut intervals: Vec<u32> = frame_intervals(wire)[..11].to_vec();
    intervals.push(400);
    let (state, out) = run_state(InputState::Standby, &intervals);
    assert!(matches!(state, InputState::Error));
    assert_eq!(out.len(), 1);
    match out[0] {
        Err(ReadError::Timing(InputState::Data(p), 400)) => assert_eq!(p.0, 30),
        _ => panic!("expected a timing fault tagged with the data state"),
    }
    // short edges while faulted hand on nothing more
    let (state, out) = run_state(state, &[100, 160]);
    assert!(matches!(state, InputState::Error));
    assert!(out.is_empty());
    // one long idle interval, then a whole frame
    let mut again = vec![INITIATE + 1];
    again.extend(frame_intervals(wire));
    let (state, out) = run_state(state, &again);
    assert!(matches!(state, InputState::Standby));
    assert_eq!(out.len(), 1);
    assert!(matches!(out[0], Ok(p) if p.decode().is_ok()));
}

#[test]
fn unexpected_interval_in_standby_is_timing_fault() {
    let (state, out) = run_state(InputState::Standby, &[100]);
    assert!(matches!(state, InputState::Error));
    assert!(matches!(out[0], Err(ReadError::Timing(InputState::Standby, 100))));
}

#[test]
fn second_read_while_in_flight_is_busy() {
    let mut reader = Dht11Reader::new(3u8);
    let first = reader.begin();
    assert!(matches!(first, Ok(3)));
    assert!(reader.busy());
    assert!(matches!(reader.begin(), Err(ReadError::Busy)));
    let _ = reader.finish(3, None);
    assert!(matches!(reader.begin(), Ok(3)));
}

#[test]
fn read_without_result_times_out() {
    let mut reader = Dht11Reader::new(());
    let pin = reader.begin().ok().unwrap();
    assert!(matches!(reader.finish(pin, None), Err(ReadError::Timeout)));
}

#[test]
fn read_passes_timing_fault_on() {
    let mut reader = Dht11Reader::new(());
    let pin = reader.begin().ok().unwrap();
    let outcome = Some((Statistics::new(), Err(ReadError::Timing(InputState::Standby, 9))));
    assert!(matches!(
        reader.finish(pin, outcome),
        Err(ReadError::Timing(InputState::Standby, 9))
    ));
}

#[test]
fn latency_is_recorded() {
    let mut writer = Dht11Writer::new();
    writer.record_latency(4);
    writer.record_latency(6);
    let stats = writer.statistics();
    assert_eq!(stats.interrupt.count(), 2);
    assert_eq!(stats.interrupt.sum(), 10);
}
