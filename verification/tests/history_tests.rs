use rust_p2p_chat::history::{ChatLog, ChatMessage, DEFAULT_LOG_CAPACITY};
use rust_p2p_chat::protocol::Timestamp;

fn line(text: &str) -> ChatMessage {
    ChatMessage {
        text: text.to_string(),
        sender: "You".to_string(),
        timestamp: Timestamp::from_secs(1),
        is_encrypted: false,
        is_file: false,
    }
}

#[test]
fn test_chat_message_default() {
    let message = ChatMessage::default();
    assert_eq!(message.text, "");
    assert_eq!(message.sender, "");
    assert!(!message.is_encrypted);
    assert!(!message.is_file);
    assert!(message.timestamp.nanos < 1_000_000_000);
    assert_eq!(message.clone(), message);
}

#[test]
fn test_chat_log_keeps_the_most_recent_lines() {
    let mut log = ChatLog::new(3);
    assert_eq!(log.len(), 0);
    assert_eq!(log.capacity(), 3);
    assert!(log.get(0).is_none());

    for text in ["one", "two", "three"] {
        log.add_message(line(text));
    }
    assert_eq!(log.len(), 3);
    assert_eq!(log.get(0).unwrap().text, "one");
    assert_eq!(log.get(2).unwrap().text, "three");

    log.add_message(line("four"));
    assert_eq!(log.len(), 3);
    assert_eq!(log.get(0).unwrap().text, "two");
    assert_eq!(log.get(1).unwrap().text, "three");
    assert_eq!(log.get(2).unwrap().text, "four");
    assert!(log.get(3).is_none());
}

#[test]
fn test_chat_log_default_capacity() {
    assert_eq!(DEFAULT_LOG_CAPACITY, 1000);
    let mut log = ChatLog::new(DEFAULT_LOG_CAPACITY);
    for i in 0..1005 {
        log.add_message(line(&format!("line {}", i)));
    }
    assert_eq!(log.len(), 1000);
    assert_eq!(log.get(0).unwrap().text, "line 5");
    assert_eq!(log.get(999).unwrap().text, "line 1004");
}

#[test]
fn test_chat_log_without_room() {
    let mut log = ChatLog::new(0);
    log.add_message(line("gone at once"));
    assert_eq!(log.len(), 0);
}
