use aux_firmware::queue::{ByteQueue, QUEUE_CAPACITY};
use aux_firmware::rpc::{FrameError, Rpc, Service};

fn push_all(q: &mut ByteQueue, bytes: &[u8]) {
    for b in bytes {
        assert!(q.enqueue(*b).is_ok());
    }
}

fn drain(q: &mut ByteQueue) -> Vec<u8> {
    let mut v = Vec::new();
    while let Some(b) = q.dequeue() {
        v.push(b);
    }
    v
}

#[test]
fn frames_split_on_delimiter() {
    let mut s = Service::new();
    let mut q = ByteQueue::new();
    push_all(&mut q, &[0, 0, 3, 1, 2, 0, 2, 9, 0, 5]);
    assert_eq!(s.recv(&mut q), Some(vec![3, 1, 2, 0]));
    assert_eq!(s.recv(&mut q), Some(vec![2, 9, 0]));
    assert_eq!(s.recv(&mut q), None);
    push_all(&mut q, &[6, 0]);
    assert_eq!(s.recv(&mut q), Some(vec![5, 6, 0]));
}

#[test]
fn damaged_frame_does_not_spoil_the_next() {
    let mut s = Service::new();
    let mut q = ByteQueue::new();
    // a frame that lost its middle byte, then a valid one
    push_all(&mut q, &[3, 1, 0, 2, 2, 7, 0]);
    assert_eq!(s.recv(&mut q), Some(vec![3, 1, 0]));
    assert_eq!(s.recv(&mut q), Some(vec![2, 2, 7, 0]));
}

#[test]
fn overlong_frame_is_dropped_whole() {
    let mut s = Service::new();
    let mut q = ByteQueue::new();
    push_all(&mut q, &[1u8; 70]);
    push_all(&mut q, &[0, 4, 4, 0]);
    assert_eq!(s.recv(&mut q), Some(vec![4, 4, 0]));
}

#[test]
fn longest_frame_is_kept() {
    let mut s = Service::new();
    let mut q = ByteQueue::new();
    push_all(&mut q, &[8u8; 63]);
    push_all(&mut q, &[0]);
    let mut expected = vec![8u8; 63];
    expected.push(0);
    assert_eq!(s.recv(&mut q), Some(expected));
}

#[test]
fn send_queues_whole_frames_only() {
    let mut s = Service::new();
    let mut q = ByteQueue::new();
    assert_eq!(s.send(&mut q, &[1, 2, 0]), Ok(()));
    assert_eq!(s.send(&mut q, &[]), Err(FrameError::Malformed));
    assert_eq!(s.send(&mut q, &[0]), Err(FrameError::Malformed));
    assert_eq!(s.send(&mut q, &[1, 2]), Err(FrameError::Malformed));
    assert_eq!(s.send(&mut q, &[1, 0, 2, 0]), Err(FrameError::Malformed));
    assert_eq!(drain(&mut q), vec![1, 2, 0]);
}

#[test]
fn send_refuses_frame_without_room() {
    let mut s = Service::new();
    let mut q = ByteQueue::new();
    push_all(&mut q, &vec![9u8; QUEUE_CAPACITY - 2]);
    assert_eq!(s.send(&mut q, &[1, 2, 0]), Err(FrameError::Full));
    assert_eq!(q.len(), QUEUE_CAPACITY - 2);
    assert_eq!(s.send(&mut q, &[1, 0]), Ok(()));
    assert_eq!(q.len(), QUEUE_CAPACITY);
}

/// A request for the fan's state, then one pass of the service: exactly one
/// delimited response frame, carrying the duty and rpm, comes out.
#[test]
fn fan_get_yields_one_response_frame() {
    let mut rpc = Rpc::new();
    let mut service = Service::new();
    // request: correlation id 7, command 0 (get)
    let mut request_buf = [0u8; 16];
    let request = postcard::to_slice_cobs(&(7i32, 0u32), &mut request_buf).unwrap();
    assert_eq!(request.last(), Some(&0));
    push_all(&mut rpc.requests, request);
    let mut responses = 0;
    while let Some(mut frame) = service.recv(&mut rpc.requests) {
        let (id, command): (i32, u32) = postcard::from_bytes_cobs(&mut frame).unwrap();
        assert_eq!((id, command), (7, 0));
        let duty: u16 = 512;
        let rpm: i32 = 3000;
        let mut response_buf = [0u8; 32];
        let response = postcard::to_slice_cobs(&(id, duty, rpm), &mut response_buf).unwrap();
        assert_eq!(service.send(&mut rpc.responses, response), Ok(()));
        responses += 1;
    }
    assert_eq!(responses, 1);
    let mut out = drain(&mut rpc.responses);
    assert_eq!(out.last(), Some(&0));
    assert_eq!(out.iter().filter(|b| **b == 0).count(), 1);
    let decoded: (i32, u16, i32) = postcard::from_bytes_cobs(&mut out).unwrap();
    assert_eq!(decoded, (7, 512, 3000));
}

/// A response encoded into a frame, queued, and split off the stream again
/// decodes to the same value.
#[test]
fn response_round_trip_through_queue() {
    let mut rpc = Rpc::new();
    let mut service = Service::new();
    for id in [0i32, -1, 7, i32::MAX, i32::MIN] {
        let mut buf = [0u8; 16];
        let frame = postcard::to_slice_cobs(&(id, 0u32), &mut buf).unwrap();
        assert_eq!(service.send(&mut rpc.responses, frame), Ok(()));
        let mut receiver = Service::new();
        let mut got = receiver.recv(&mut rpc.responses).unwrap();
        let decoded: (i32, u32) = postcard::from_bytes_cobs(&mut got).unwrap();
        assert_eq!(decoded, (id, 0));
    }
}

/// A frame that lost a byte in the middle fails to decode, and the frame after
/// it still decodes.
#[test]
fn dropped_byte_frame_rejected_next_intact() {
    let mut rpc = Rpc::new();
    let mut service = Service::new();
    let mut first = [0u8; 16];
    let damaged = postcard::to_slice_cobs(&(300i32, 0u32), &mut first).unwrap().to_vec();
    let mut cut = damaged.clone();
    cut.remove(cut.len() / 2);
    push_all(&mut rpc.requests, &cut);
    let mut second = [0u8; 16];
    let valid = postcard::to_slice_cobs(&(5i32, 0u32), &mut second).unwrap();
    push_all(&mut rpc.requests, valid);
    let mut f1 = service.recv(&mut rpc.requests).unwrap();
    let r1: Result<(i32, u32), _> = postcard::from_bytes_cobs(&mut f1);
    assert!(r1.map(|v| v != (300, 0)).unwrap_or(true));
    let mut f2 = service.recv(&mut rpc.requests).unwrap();
    let r2: (i32, u32) = postcard::from_bytes_cobs(&mut f2).unwrap();
    assert_eq!(r2, (5, 0));
}
