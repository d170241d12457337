use rust_p2p_chat::channel::OutboundQueue;
use rust_p2p_chat::error::ChatError;
use rust_p2p_chat::protocol::{Message, MessageType};

#[test]
fn test_queue_is_first_in_first_out() {
    let mut queue = OutboundQueue::new();
    assert!(queue.is_empty());
    assert_eq!(queue.len(), 0);
    assert!(!queue.is_closed());

    for i in 0..3 {
        assert!(queue.send(Message::new_acknowledgment(i)).is_ok());
    }
    assert_eq!(queue.len(), 3);

    for i in 0..3 {
        let message = queue.recv().unwrap();
        assert_eq!(message.msg_type, MessageType::Acknowledgment(i));
    }
    assert!(queue.recv().is_none());
    assert!(queue.is_empty());
}

#[test]
fn test_closed_queue_takes_no_message_but_can_be_drained() {
    let mut queue = OutboundQueue::new();
    queue.send(Message::new_heartbeat()).unwrap();
    queue.close();
    assert!(queue.is_closed());

    assert_eq!(
        queue.send(Message::new_heartbeat()),
        Err(ChatError::PeerDisconnected)
    );
    assert_eq!(queue.len(), 1);

    assert!(queue.recv().is_some());
    assert!(queue.recv().is_none());
}
