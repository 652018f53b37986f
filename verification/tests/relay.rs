use broadcast_relay::hub::Hub;
use broadcast_relay::msg::Message;
use broadcast_relay::msg::MsgKind;
use broadcast_relay::msg::encode_line;
use broadcast_relay::msg::strip_line_terminator;
use broadcast_relay::queue::BoundedQueue;
use broadcast_relay::session::Session;

fn msg(origin: &[u8], kind: MsgKind, text: &[u8]) -> Message {
    Message { origin: origin.to_vec(), kind, text: text.to_vec() }
}

#[test]
fn encode_chat_line() {
    let m = msg(b"1.2.3.4:5", MsgKind::Chat, b"hello");
    assert_eq!(encode_line(&m), b"1.2.3.4:5: hello\n".to_vec());
}

#[test]
fn encode_joined_line() {
    let m = msg(b"1.2.3.4:5", MsgKind::Joined, b"");
    assert_eq!(encode_line(&m), b"1.2.3.4:5 joined\n".to_vec());
}

#[test]
fn encode_left_line() {
    let m = msg(b"1.2.3.4:5", MsgKind::Left, b"");
    assert_eq!(encode_line(&m), b"1.2.3.4:5 disconnected\n".to_vec());
}

#[test]
fn chat_payload_is_byte_identical() {
    // A payload with no embedded newline reappears unchanged between the
    // origin prefix and the final newline.
    let payload: &[u8] = b"  weird \t bytes \xc3\xa9 !";
    let m = msg(b"p", MsgKind::Chat, payload);
    let line = encode_line(&m);
    assert_eq!(&line[3..line.len() - 1], payload);
}

#[test]
fn strip_newline() {
    assert_eq!(strip_line_terminator(b"hi\n".to_vec()), b"hi".to_vec());
}

#[test]
fn strip_crlf() {
    assert_eq!(strip_line_terminator(b"hi\r\n".to_vec()), b"hi".to_vec());
}

#[test]
fn strip_nothing_without_terminator() {
    assert_eq!(strip_line_terminator(b"hi".to_vec()), b"hi".to_vec());
    assert_eq!(strip_line_terminator(b"".to_vec()), b"".to_vec());
    assert_eq!(strip_line_terminator(b"hi\r".to_vec()), b"hi\r".to_vec());
    // Only one terminator is removed; interior newlines are the reader's
    // concern, not the stripper's.
    assert_eq!(strip_line_terminator(b"a\nb\n".to_vec()), b"a\nb".to_vec());
}

#[test]
fn queue_drops_oldest_on_overflow() {
    let mut q = BoundedQueue::new(2);
    q.push_drop_oldest(msg(b"a", MsgKind::Chat, b"1"));
    q.push_drop_oldest(msg(b"a", MsgKind::Chat, b"2"));
    q.push_drop_oldest(msg(b"a", MsgKind::Chat, b"3"));
    assert_eq!(q.len(), 2);
    let first = q.pop_front().unwrap();
    assert_eq!(first.text, b"2".to_vec());
    let second = q.pop_front().unwrap();
    assert_eq!(second.text, b"3".to_vec());
    assert!(q.pop_front().is_none());
}

#[test]
fn fanout_reaches_all_but_sender() {
    let mut hub = Hub::new(8);
    let a = hub.subscribe();
    let b = hub.subscribe();
    let c = hub.subscribe();
    hub.publish(a, &msg(b"pa", MsgKind::Chat, b"x"));
    // The sender's own queue never sees its message.
    assert!(hub.pop(a).is_none());
    let at_b = hub.pop(b).unwrap();
    assert_eq!(encode_line(&at_b), b"pa: x\n".to_vec());
    let at_c = hub.pop(c).unwrap();
    assert_eq!(encode_line(&at_c), b"pa: x\n".to_vec());
}

#[test]
fn delivery_preserves_publish_order() {
    let mut hub = Hub::new(8);
    let a = hub.subscribe();
    let b = hub.subscribe();
    hub.publish(a, &msg(b"pa", MsgKind::Chat, b"first"));
    hub.publish(a, &msg(b"pa", MsgKind::Chat, b"second"));
    hub.publish(a, &msg(b"pa", MsgKind::Chat, b"third"));
    assert_eq!(hub.pop(b).unwrap().text, b"first".to_vec());
    assert_eq!(hub.pop(b).unwrap().text, b"second".to_vec());
    assert_eq!(hub.pop(b).unwrap().text, b"third".to_vec());
    assert!(hub.pop(b).is_none());
}

#[test]
fn late_subscriber_sees_no_history() {
    let mut hub = Hub::new(8);
    let a = hub.subscribe();
    let b = hub.subscribe();
    hub.publish(a, &msg(b"pa", MsgKind::Chat, b"early"));
    let late = hub.subscribe();
    assert!(hub.pop(late).is_none());
    // The subscriber that was present still gets it.
    assert_eq!(hub.pop(b).unwrap().text, b"early".to_vec());
}

#[test]
fn unsubscribed_gets_nothing_others_unaffected() {
    let mut hub = Hub::new(8);
    let a = hub.subscribe();
    let b = hub.subscribe();
    let c = hub.subscribe();
    hub.unsubscribe(b);
    hub.publish(a, &msg(b"pa", MsgKind::Chat, b"x"));
    assert!(hub.pop(b).is_none());
    assert_eq!(hub.pop(c).unwrap().text, b"x".to_vec());
    assert_eq!(hub.subscriber_count(), 2);
}

#[test]
fn slow_subscriber_never_blocks_others() {
    // One subscriber with a full queue: publishing goes on, others receive
    // everything, and only the slow one loses its own oldest entries.
    let mut hub = Hub::new(2);
    let a = hub.subscribe();
    let slow = hub.subscribe();
    let other = hub.subscribe();
    hub.publish(a, &msg(b"pa", MsgKind::Chat, b"1"));
    hub.publish(a, &msg(b"pa", MsgKind::Chat, b"2"));
    // slow's queue is full now; keep publishing and drain `other` promptly.
    assert_eq!(hub.pop(other).unwrap().text, b"1".to_vec());
    hub.publish(a, &msg(b"pa", MsgKind::Chat, b"3"));
    assert_eq!(hub.pop(other).unwrap().text, b"2".to_vec());
    assert_eq!(hub.pop(other).unwrap().text, b"3".to_vec());
    // The slow consumer lost only its own oldest message.
    assert_eq!(hub.pop(slow).unwrap().text, b"2".to_vec());
    assert_eq!(hub.pop(slow).unwrap().text, b"3".to_vec());
    assert!(hub.pop(slow).is_none());
}

#[test]
fn mutual_arrival_notices_not_own() {
    // Both sessions subscribe before either announces: each ends up with
    // exactly the other's arrival notice.
    let mut hub = Hub::new(8);
    let mut x = Session::new(b"X".to_vec());
    let mut y = Session::new(b"Y".to_vec());
    x.activate(&mut hub);
    y.activate(&mut hub);
    x.announce_join(&mut hub);
    y.announce_join(&mut hub);
    assert_eq!(x.next_delivery(&mut hub), Some(b"Y joined\n".to_vec()));
    assert_eq!(x.next_delivery(&mut hub), None);
    assert_eq!(y.next_delivery(&mut hub), Some(b"X joined\n".to_vec()));
    assert_eq!(y.next_delivery(&mut hub), None);
}

#[test]
fn departure_notice_exactly_once_after_chats() {
    let mut hub = Hub::new(8);
    let mut x = Session::new(b"X".to_vec());
    let mut y = Session::new(b"Y".to_vec());
    x.activate(&mut hub);
    y.activate(&mut hub);
    y.on_line(&mut hub, b"bye soon\n".to_vec());
    y.close(&mut hub);
    // Closing an already-closed session must not emit a second notice.
    y.close(&mut hub);
    assert_eq!(x.next_delivery(&mut hub), Some(b"Y: bye soon\n".to_vec()));
    assert_eq!(x.next_delivery(&mut hub), Some(b"Y disconnected\n".to_vec()));
    assert_eq!(x.next_delivery(&mut hub), None);
    assert!(!y.is_active());
    assert_eq!(hub.subscriber_count(), 1);
}

#[test]
fn failed_handshake_closes_silently() {
    let mut hub = Hub::new(8);
    let mut x = Session::new(b"X".to_vec());
    x.activate(&mut hub);
    x.announce_join(&mut hub);
    // A third connection that never finishes its handshake: it closes from
    // Joining, publishes nothing, and leaves no subscription behind.
    let mut intruder = Session::new(b"Z".to_vec());
    intruder.close(&mut hub);
    assert!(!intruder.is_active());
    assert_eq!(hub.subscriber_count(), 1);
    assert_eq!(x.next_delivery(&mut hub), None);
}

#[test]
fn example_trace() {
    // X connects and becomes active: nobody is there to be notified.
    let mut hub = Hub::new(16);
    let mut x = Session::new(b"X".to_vec());
    x.activate(&mut hub);
    x.announce_join(&mut hub);
    assert_eq!(x.next_delivery(&mut hub), None);

    // Y connects and becomes active: X learns of it.
    let mut y = Session::new(b"Y".to_vec());
    y.activate(&mut hub);
    y.announce_join(&mut hub);
    assert_eq!(x.next_delivery(&mut hub), Some(b"Y joined\n".to_vec()));
    assert_eq!(y.next_delivery(&mut hub), None);

    // Y says hello: X receives it prefixed, Y does not echo to itself.
    y.on_line(&mut hub, b"hello\n".to_vec());
    assert_eq!(x.next_delivery(&mut hub), Some(b"Y: hello\n".to_vec()));
    assert_eq!(y.next_delivery(&mut hub), None);

    // A handshake failure from an untrusted third connection is dropped
    // silently; X and Y go on unaffected.
    let mut z = Session::new(b"Z".to_vec());
    z.close(&mut hub);
    assert_eq!(x.next_delivery(&mut hub), None);
    assert_eq!(y.next_delivery(&mut hub), None);

    // Y disconnects: X sees exactly one departure notice.
    y.close(&mut hub);
    assert_eq!(x.next_delivery(&mut hub), Some(b"Y disconnected\n".to_vec()));
    assert_eq!(x.next_delivery(&mut hub), None);
    assert_eq!(hub.subscriber_count(), 1);
}

#[test]
fn can_subscribe_reports_id_space() {
    let hub = Hub::new(4);
    assert!(hub.can_subscribe());
}
