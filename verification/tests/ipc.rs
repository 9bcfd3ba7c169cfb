use loom::ipc::{
    connection_finished, consume_written, event_of_frame, interest_after_flush, queue_frame,
    EventSlot, Frame, Inbox, Interest, Subscriber, FRAME_END,
};

#[test]
fn publishing_counts_versions() {
    let mut slot: EventSlot<u32> = EventSlot::new();
    assert_eq!(slot.snapshot(), (0, None));
    assert!(!slot.publish(None));
    assert_eq!(slot.snapshot(), (0, None));
    assert!(slot.publish(Some(7)));
    assert_eq!(slot.snapshot(), (1, Some(&7)));
    assert!(slot.publish(Some(9)));
    assert!(!slot.publish(None));
    assert_eq!(slot.snapshot(), (2, Some(&9)));
}

#[test]
fn each_event_is_forwarded_once() {
    let mut slot: EventSlot<&str> = EventSlot::new();
    let mut connection = Subscriber::new();
    assert_eq!(connection.observe(slot.snapshot()), None);
    slot.publish(Some("volume"));
    assert_eq!(connection.observe(slot.snapshot()), Some(&"volume"));
    assert_eq!(connection.last_seen_version, 1);
    assert_eq!(connection.observe(slot.snapshot()), None);
    slot.publish(Some("mode"));
    slot.publish(Some("pitch"));
    assert_eq!(connection.observe(slot.snapshot()), Some(&"pitch"));
    assert_eq!(connection.observe(slot.snapshot()), None);
}

#[test]
fn late_connection_gets_the_latest_event() {
    let mut slot: EventSlot<u8> = EventSlot::new();
    slot.publish(Some(1));
    slot.publish(Some(2));
    let mut connection = Subscriber::new();
    assert_eq!(connection.observe(slot.snapshot()), Some(&2));
}

#[test]
fn frames_are_queued_with_a_newline_and_drained() {
    let mut out = Vec::new();
    queue_frame(&mut out, b"{\"Response\":\"Ok\"}");
    queue_frame(&mut out, b"{}");
    assert_eq!(out, b"{\"Response\":\"Ok\"}\n{}\n".to_vec());
    assert_eq!(FRAME_END, b'\n');
    assert_eq!(interest_after_flush(&out), Interest::ReadableWritable);
    consume_written(&mut out, 5);
    assert_eq!(out, b"ponse\":\"Ok\"}\n{}\n".to_vec());
    let rest = out.len();
    consume_written(&mut out, rest);
    assert!(out.is_empty());
    assert_eq!(interest_after_flush(&out), Interest::Readable);
}

#[test]
fn connection_ends_after_hang_up_and_flush() {
    assert!(connection_finished(true, &Vec::new()));
    assert!(!connection_finished(true, &vec![1]));
    assert!(!connection_finished(false, &Vec::new()));
}

#[test]
fn inbox_holds_latest_event_while_waiting() {
    let mut inbox: Inbox<u32> = Inbox::new();
    assert_eq!(inbox.receive_while_waiting::<&str>(Frame::Event(1)), None);
    assert_eq!(inbox.receive_while_waiting::<&str>(Frame::Event(2)), None);
    assert_eq!(inbox.receive_while_waiting(Frame::Response("ok")), Some("ok"));
    assert_eq!(inbox.take_event(), Some(2));
    assert_eq!(inbox.take_event(), None);
}

#[test]
fn stale_answer_is_no_event() {
    assert_eq!(event_of_frame::<u8, &str>(Frame::Event(4)), Some(4));
    assert_eq!(event_of_frame::<u8, &str>(Frame::Response("late")), None);
}
