use rust_p2p_chat::commands::CommandHandler;
use rust_p2p_chat::config::Config;
use rust_p2p_chat::file_transfer::FileTransfer;
use rust_p2p_chat::protocol::{FileInfo, Message, MessageType};
use std::path::PathBuf;

#[test]
fn lib_test_config_default() {
    let config = Config::default();
    assert_eq!(config.default_port, 8080);
    assert_eq!(config.buffer_size, 8192);
}

#[test]
fn lib_test_command_parsing() {
    assert!(CommandHandler::parse_command("/help").is_some());
    assert!(CommandHandler::parse_command("/quit").is_some());
    assert!(CommandHandler::parse_command("not a command").is_none());
}

#[test]
fn lib_complex_test_config_default() {
    let config = Config::default();
    assert_eq!(config.default_port, 8080);
    assert_eq!(config.buffer_size, 8192);
}

#[test]
fn lib_complex_test_command_parsing() {
    assert!(CommandHandler::parse_command("/help").is_some());
    assert!(CommandHandler::parse_command("/quit").is_some());
    assert!(CommandHandler::parse_command("not a command").is_none());
}

#[test]
fn lib_old_test_config_default() {
    let config = Config::default();
    assert_eq!(config.default_port, 8080);
    assert_eq!(config.buffer_size, 8192);
}

#[test]
fn lib_old_test_command_parsing() {
    assert!(CommandHandler::parse_command("/help").is_some());
    assert!(CommandHandler::parse_command("/quit").is_some());
    assert!(CommandHandler::parse_command("not a command").is_none());
}

#[test]
fn integration_tests_test_config_default_values() {
    // Test that default configuration values are sensible
    let config = Config::default();

    // Verify default values make sense
    assert!(config.default_port >= 1024); // Non-privileged port
    assert!(config.buffer_size >= 1024); // Reasonable buffer size
    assert!(config.max_file_size_mb >= 1); // At least 1MB

    // Verify paths are reasonable
    let download_path =
        config.download_path(Some(PathBuf::from("/home/user/Downloads")), PathBuf::from("."));
    assert!(
        download_path.to_string_lossy().contains("Downloads")
            || download_path.to_string_lossy().contains("downloads")
            || download_path == PathBuf::from(".")
            || download_path.to_string_lossy().contains("home")
    );
    if let Some(history_path) =
        config.history_path(Some(PathBuf::from("/data/p2p-chat/chat_history.json")))
    {
        assert!(history_path
            .extension()
            .map_or(false, |ext| ext == "json" || ext == "txt"));
    }
}

#[test]
fn test_message_type_variants() {
    // Test all MessageType variants
    let text_msg = MessageType::Text("Hello".to_string());
    let encrypted_msg = MessageType::EncryptedText("encrypted".to_string());
    let file_info = FileInfo {
        name: "file.txt".to_string(),
        size: 100,
        hash: "dummy_hash".to_string(),
        data: vec![],
    };
    let file_msg = MessageType::File(file_info);

    // Test pattern matching
    match text_msg {
        MessageType::Text(content) => assert_eq!(content, "Hello"),
        _ => panic!("Expected Text variant"),
    }

    match encrypted_msg {
        MessageType::EncryptedText(content) => assert_eq!(content, "encrypted"),
        _ => panic!("Expected EncryptedText variant"),
    }

    match file_msg {
        MessageType::File(file_info) => assert_eq!(file_info.name, "file.txt"),
        _ => panic!("Expected File variant"),
    }
}

#[test]
fn test_message_protocol_integration() {
    // Test message creation and serialization in realistic scenarios
    let messages = vec![
        Message::new_text("Hello, world!".to_string()),
        Message::new_text(
            "This is a longer message with multiple words and punctuation.".to_string(),
        ),
        Message::new_text("🚀 Unicode message with emojis 🌟".to_string()),
        Message::new_text("Special characters: !@#$%^&*()_+-=[]{}|;':\",./<>?".to_string()),
        Message::new_text("".to_string()), // Empty message
    ];

    for message in messages {
        // Test serialization
        let serialized = message.serialize().unwrap();
        let deserialized = Message::deserialize(&serialized).unwrap();

        assert_eq!(message.id, deserialized.id);
        assert_eq!(message.msg_type, deserialized.msg_type);
        assert_eq!(message.timestamp, deserialized.timestamp);
    }
}

#[test]
fn test_large_file_handling() {
    // Test handling of larger files (within reasonable limits for testing)
    let ft = FileTransfer::new(10); // 10MB limit

    // A file of 1MB
    let large_content = "A".repeat(1024 * 1024); // 1MB

    // Should succeed (within 10MB limit)
    let file_info = ft
        .prepare_file("large_file.txt".to_string(), large_content.clone().into_bytes())
        .unwrap();
    assert_eq!(file_info.size, 1024 * 1024);

    // The receiver accepts it as it is
    assert!(ft.verify_file(&file_info).is_ok());
    assert_eq!(file_info.data.len(), 1024 * 1024);
    assert_eq!(file_info.data, large_content.as_bytes());
}

#[test]
fn test_unicode_filename_handling() {
    // Test handling of Unicode filenames
    let ft = FileTransfer::new(100);

    let unicode_filenames = vec![
        "测试文件.txt",         // Chinese
        "café_résumé.txt",      // French accents
        "файл.txt",             // Cyrillic
        "🚀_rocket_file.txt",   // Emoji
        "naïve_coöperate.txt",  // Special characters
    ];

    for filename in unicode_filenames {
        let content = format!("Content for {}", filename);

        // Prepare file for transfer
        let file_info = ft
            .prepare_file(filename.to_string(), content.clone().into_bytes())
            .unwrap();
        assert_eq!(file_info.name, filename);

        // The record survives the wire and is accepted on the other side
        let message = Message::with_payload(MessageType::File(file_info));
        let received = Message::deserialize(&message.serialize().unwrap()).unwrap();
        match received.msg_type {
            MessageType::File(received_info) => {
                assert!(ft.verify_file(&received_info).is_ok());
                assert_eq!(received_info.name, filename);
                assert_eq!(received_info.data, content.as_bytes());
                assert!(FileTransfer::is_media_file(
                    &received_info.name,
                    &["TXT".to_string()]
                ));
            }
            other => panic!("unexpected {:?}", other),
        }
    }
}

#[test]
fn test_message_ordering_and_timing() {
    let mut messages = Vec::new();
    for i in 0..5 {
        messages.push(Message::new_text(format!("Message {}", i)));
    }

    // Verify messages do not go back in time
    for i in 1..messages.len() {
        let earlier = messages[i - 1].timestamp;
        let later = messages[i].timestamp;
        assert!((earlier.secs, earlier.nanos) <= (later.secs, later.nanos));
    }

    // Verify message IDs are unique
    let mut ids = Vec::new();
    for message in &messages {
        ids.push(message.id);
    }
    ids.sort();
    ids.dedup();
    assert_eq!(ids.len(), messages.len());
}

#[test]
fn test_stress_test_message_creation() {
    // Stress test message creation and serialization
    let mut messages = Vec::new();

    for i in 0..100 {
        let message = Message::new_text(format!("Stress test message {}", i));

        // Serialize and deserialize
        let serialized = message.serialize().unwrap();
        let deserialized = Message::deserialize(&serialized).unwrap();

        assert_eq!(message.id, deserialized.id);
        messages.push(message);
    }

    // Verify all messages were created successfully
    assert_eq!(messages.len(), 100);

    // Verify all message IDs are unique
    let mut ids: Vec<u64> = messages.iter().map(|m| m.id).collect();
    ids.sort();
    ids.dedup();
    assert_eq!(ids.len(), 100);
}

#[test]
fn test_config_creation() {
    let config = Config::default();
    assert_eq!(config.default_port, 8080);
    assert_eq!(config.buffer_size, 8192);
    assert!(config.enable_encryption);
}
