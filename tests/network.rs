use aux_firmware::network::{mac_address, RecvChannel, RecvChannelState, SendChannel, SocketAction};
use aux_firmware::queue::{ByteQueue, QUEUE_CAPACITY};
use sha2::{Digest, Sha256};

fn queue_with(n: usize) -> ByteQueue {
    let mut q = ByteQueue::new();
    for i in 0..n {
        assert!(q.enqueue(i as u8).is_ok());
    }
    q
}

#[test]
fn queue_full_and_empty_are_distinct() {
    let mut q = queue_with(QUEUE_CAPACITY);
    assert_eq!(q.free(), 0);
    assert_eq!(q.enqueue(9), Err(9));
    let mut e = ByteQueue::new();
    assert_eq!(e.dequeue(), None);
    assert_eq!(e.peek(), None);
    assert_eq!(q.peek(), Some(0));
    assert_eq!(q.dequeue(), Some(0));
    assert_eq!(q.len(), QUEUE_CAPACITY - 1);
}

#[test]
fn forward_consumes_only_what_was_queued() {
    let channel = RecvChannel::new(1337);
    let peeked: Vec<u8> = (0..40u8).collect();
    for fill in [0usize, 1, 100, 127, 128] {
        let mut q = queue_with(fill);
        let consumed = channel.forward(&peeked, &mut q);
        let room = QUEUE_CAPACITY - fill;
        assert_eq!(consumed, peeked.len().min(room));
        assert_eq!(q.len(), fill + consumed);
        for _ in 0..fill {
            q.dequeue();
        }
        for i in 0..consumed {
            assert_eq!(q.dequeue(), Some(peeked[i]));
        }
        assert_eq!(q.dequeue(), None);
    }
}

#[test]
fn lifecycle_reuse_over_several_connections() {
    let mut c = RecvChannel::new(1338);
    assert_eq!(c.state(), RecvChannelState::Listening);
    assert_eq!(c.may_recv(false, true), (false, SocketAction::Nothing));
    for _ in 0..3 {
        // remote connects
        assert_eq!(c.may_recv(true, true), (true, SocketAction::Nothing));
        assert_eq!(c.state(), RecvChannelState::Receiving);
        assert_eq!(c.may_recv(true, true), (true, SocketAction::Nothing));
        // remote closes
        assert_eq!(c.may_recv(false, true), (false, SocketAction::Close));
        assert_eq!(c.state(), RecvChannelState::Closing);
        assert_eq!(c.may_recv(false, true), (false, SocketAction::Nothing));
        assert_eq!(c.state(), RecvChannelState::Closing);
        // socket fully inactive: listen again on the same port
        assert_eq!(c.may_recv(false, false), (false, SocketAction::Listen(1338)));
        assert_eq!(c.state(), RecvChannelState::Listening);
    }
    assert_eq!(c.port(), 1338);
}

#[test]
fn send_drains_up_to_room() {
    let mut s = SendChannel::new(1337);
    let mut q = queue_with(10);
    let out = s.try_send(&mut q, true, 4);
    assert_eq!(out, vec![0, 1, 2, 3]);
    assert_eq!(q.len(), 6);
    let out = s.try_send(&mut q, true, 100);
    assert_eq!(out, vec![4, 5, 6, 7, 8, 9]);
    assert_eq!(q.len(), 0);
    assert!(s.try_send(&mut q, true, 100).is_empty());
    assert_eq!(s.port(), 1337);
}

#[test]
fn send_without_remote_discards() {
    let mut s = SendChannel::new(1337);
    let mut q = queue_with(QUEUE_CAPACITY);
    let out = s.try_send(&mut q, false, 100);
    assert!(out.is_empty());
    assert_eq!(q.len(), 0);
}

#[test]
fn mac_address_is_digest_prefix_marked_local() {
    let mac = mac_address("device", "LOT1234", 7, 0x1234, 0xabcd);
    let mut message: Vec<u8> = b"device".to_vec();
    message.extend_from_slice(b"LOT1234");
    message.extend_from_slice(&[7, 0x12, 0x34, 0xcd, 0xab]);
    let digest = Sha256::digest(&message);
    assert_eq!(mac[0], digest[0] | 2);
    assert_eq!(&mac[1..], &digest[1..6]);
    assert_ne!(mac, mac_address("interface", "LOT1234", 7, 0x1234, 0xabcd));
}
