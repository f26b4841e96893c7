use warpinator_lib::proto::TextMessage;
use warpinator_lib::types::message::{Direction, Message};

fn is_random_uuid(text: &str) -> bool {
    let chars: Vec<char> = text.chars().collect();
    chars.len() == 36
        && (0..36).all(|i| match i {
            8 | 13 | 18 | 23 => chars[i] == '-',
            14 => chars[i] == '4',
            19 => matches!(chars[i], '8' | '9' | 'a' | 'b'),
            _ => matches!(chars[i], '0'..='9' | 'a'..='f'),
        })
}

#[test]
fn new_message_has_an_identifier_of_its_own() {
    let first = Message::new("remote".to_string(), Direction::Sent, "hello".to_string());
    let second = Message::new("remote".to_string(), Direction::Sent, "hello".to_string());
    assert!(is_random_uuid(&first.uuid));
    assert!(is_random_uuid(&second.uuid));
    assert_ne!(first.uuid, second.uuid);
    assert_eq!(first.remote_uuid, "remote");
    assert_eq!(first.direction, Direction::Sent);
    assert_eq!(first.content, "hello");
}

#[test]
fn new_message_is_stamped_with_the_time() {
    let before = chrono::Utc::now().timestamp_millis() as u64;
    let message = Message::new("remote".to_string(), Direction::Sent, String::new());
    let after = chrono::Utc::now().timestamp_millis() as u64;
    assert!(before <= message.timestamp);
    assert!(message.timestamp <= after);
}

#[test]
fn message_goes_out_under_the_service_identifier() {
    let message = Message::stamped(
        "id".to_string(),
        1700000000123,
        "remote".to_string(),
        Direction::Sent,
        "hello".to_string(),
    );
    let sent = message.as_proto("service");
    assert_eq!(sent.ident, "service");
    assert_eq!(sent.timestamp, 1700000000123);
    assert_eq!(sent.message, "hello");
}

#[test]
fn received_text_is_recorded_on_arrival() {
    let before = chrono::Utc::now().timestamp_millis() as u64;
    let message = Message::from(&TextMessage {
        ident: "sender".to_string(),
        timestamp: 5,
        message: "hi".to_string(),
    });
    assert!(is_random_uuid(&message.uuid));
    assert_eq!(message.remote_uuid, "sender");
    assert_eq!(message.direction, Direction::Received);
    assert_eq!(message.content, "hi");
    assert!(before <= message.timestamp);
}

#[test]
fn sent_content_is_received() {
    let sent = Message::new("b".to_string(), Direction::Sent, "text\nwith lines".to_string());
    let received = Message::from(&sent.as_proto("a"));
    assert_eq!(received.content, sent.content);
    assert_eq!(received.remote_uuid, "a");
    assert_eq!(received.direction, Direction::Received);
}

#[test]
fn copied_message_is_the_same() {
    let message = Message::new("b".to_string(), Direction::Received, "x".to_string());
    assert_eq!(format!("{:?}", message.clone()), format!("{:?}", message));
}
