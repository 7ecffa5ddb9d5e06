use camera_backup::channel::{channel, RecvOutcome, SendOutcome};

#[test]
fn three_items_through_capacity_one_then_finished() {
    let (s, r, _c) = channel::<u32>(1);
    assert_eq!(s.send(1), SendOutcome::Sent);
    assert_eq!(r.recv(), RecvOutcome::Received(1));
    assert_eq!(s.send(2), SendOutcome::Sent);
    assert_eq!(r.recv(), RecvOutcome::Received(2));
    assert_eq!(s.send(3), SendOutcome::Sent);
    s.finish();
    assert_eq!(r.recv(), RecvOutcome::Received(3));
    assert_eq!(r.recv(), RecvOutcome::Finished);
    assert_eq!(r.recv(), RecvOutcome::Finished);
}

#[test]
fn full_channel_hands_the_item_back() {
    let (s, r, _c) = channel::<u32>(2);
    assert_eq!(s.send(10), SendOutcome::Sent);
    assert_eq!(s.send(11), SendOutcome::Sent);
    assert_eq!(s.send(12), SendOutcome::Full(12));
    assert_eq!(r.len(), 2);
    assert_eq!(r.recv(), RecvOutcome::Received(10));
    assert_eq!(s.send(12), SendOutcome::Sent);
}

#[test]
fn items_come_out_in_order() {
    let (s, r, _c) = channel::<u32>(8);
    for i in 0..5u32 {
        assert_eq!(s.send(i), SendOutcome::Sent);
    }
    assert_eq!(r.len(), 5);
    for i in 0..5u32 {
        assert_eq!(r.recv(), RecvOutcome::Received(i));
    }
    assert_eq!(r.recv(), RecvOutcome::Empty);
}

#[test]
fn recv_on_empty_unfinished_asks_to_wait() {
    let (_s, r, _c) = channel::<u32>(1);
    assert_eq!(r.recv(), RecvOutcome::Empty);
}

#[test]
fn cancellation_fails_a_waiting_receiver() {
    let (s, r, c) = channel::<u32>(1);
    assert_eq!(r.recv(), RecvOutcome::Empty);
    c.cancel();
    assert_eq!(r.recv(), RecvOutcome::Cancelled);
    assert_eq!(s.send(1), SendOutcome::Cancelled(1));
}

#[test]
fn cancellation_is_idempotent_and_terminal() {
    let (s, r, c) = channel::<u32>(4);
    assert_eq!(s.send(1), SendOutcome::Sent);
    c.cancel();
    c.cancel();
    assert!(s.cancelled());
    assert!(r.cancelled());
    assert_eq!(r.recv(), RecvOutcome::Cancelled);
    assert_eq!(s.send(2), SendOutcome::Cancelled(2));
}

#[test]
fn flags_start_clear() {
    let (s, r, _c) = channel::<u32>(3);
    assert!(!s.cancelled());
    assert!(!r.cancelled());
    assert_eq!(r.len(), 0);
}

#[test]
fn abandoned_producer_drains_then_reports_disconnect() {
    let (s, r, _c) = channel::<u32>(4);
    assert_eq!(s.send(1), SendOutcome::Sent);
    assert_eq!(s.send(2), SendOutcome::Sent);
    s.abandon();
    assert_eq!(r.recv(), RecvOutcome::Received(1));
    assert_eq!(r.recv(), RecvOutcome::Received(2));
    assert_eq!(r.recv(), RecvOutcome::Disconnected);
}

#[test]
fn abandoned_consumer_refuses_sends() {
    let (s, r, _c) = channel::<u32>(4);
    r.abandon();
    assert_eq!(s.send(7), SendOutcome::Disconnected(7));
}
