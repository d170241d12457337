use base64::Engine;
use rust_p2p_chat::encryption::{
    bytes_less_or_equal, E2EEncryption, HandshakeAction, HandshakeState,
};
use rust_p2p_chat::error::ChatError;
use rust_p2p_chat::protocol::{EncryptionMessage, Message, MessageType, StatusUpdate, Timestamp};

fn standard_decode(text: &str) -> Result<Vec<u8>, base64::DecodeError> {
    base64::engine::general_purpose::STANDARD.decode(text)
}

fn standard_encode(bytes: &[u8]) -> String {
    base64::engine::general_purpose::STANDARD.encode(bytes)
}

fn ready_pair() -> (E2EEncryption, E2EEncryption) {
    let mut encryption1 = E2EEncryption::new().unwrap();
    let mut encryption2 = E2EEncryption::new().unwrap();
    let public_key1 = encryption1.get_public_key_base64().unwrap();
    let public_key2 = encryption2.get_public_key_base64().unwrap();
    encryption1.set_peer_public_key(&public_key2).unwrap();
    encryption2.set_peer_public_key(&public_key1).unwrap();
    let encrypted_key = encryption1.generate_shared_key().unwrap();
    encryption2.set_shared_key(&encrypted_key).unwrap();
    (encryption1, encryption2)
}

#[test]
fn test_e2e_encryption_creation() {
    let encryption = E2EEncryption::new();
    assert!(encryption.is_ok());
    
    let _enc = encryption.unwrap();
    // Should have RSA keypair generated
    // Should not have peer public key initially
    // Should not have AES key initially
}

#[test]
fn test_e2e_encryption_get_public_key() {
    let encryption = E2EEncryption::new().unwrap();
    let public_key = encryption.get_public_key_base64();
    
    assert!(public_key.is_ok());
    let key_data = public_key.unwrap();
    
    // Should be base64 encoded
    assert!(standard_decode(&key_data).is_ok());
    
    // Should be reasonably long (RSA 1024-bit key)
    assert!(key_data.len() > 100);
}

#[test]
fn test_e2e_encryption_set_peer_public_key_valid() {
    let mut encryption1 = E2EEncryption::new().unwrap();
    let encryption2 = E2EEncryption::new().unwrap();
    
    // Get public key from encryption2
    let public_key = encryption2.get_public_key_base64().unwrap();
    
    // Set it in encryption1
    let result = encryption1.set_peer_public_key(&public_key);
    assert!(result.is_ok());
}

#[test]
fn test_e2e_encryption_set_peer_public_key_invalid() {
    let mut encryption = E2EEncryption::new().unwrap();
    
    // Try to set invalid base64
    let result = encryption.set_peer_public_key(&"invalid_base64!@#".to_string());
    assert!(result.is_err());
    
    // Try to set valid base64 but invalid RSA key
    let invalid_key = standard_encode("not_an_rsa_key".as_bytes());
    let result = encryption.set_peer_public_key(&invalid_key);
    assert!(result.is_err());
}

#[test]
fn test_e2e_encryption_set_peer_public_key_empty() {
    let mut encryption = E2EEncryption::new().unwrap();
    
    // Try to set empty key
    let result = encryption.set_peer_public_key(&"".to_string());
    assert!(result.is_err());
    
    // Try to set whitespace only
    let result = encryption.set_peer_public_key(&"   ".to_string());
    assert!(result.is_err());
}

#[test]
fn test_e2e_encryption_generate_shared_key() {
    let mut encryption1 = E2EEncryption::new().unwrap();
    let encryption2 = E2EEncryption::new().unwrap();
    
    // Set up peer relationship
    let public_key2 = encryption2.get_public_key_base64().unwrap();
    encryption1.set_peer_public_key(&public_key2).unwrap();
    
    // Generate shared key
    let result = encryption1.generate_shared_key();
    assert!(result.is_ok());
    
    let encrypted_key = result.unwrap();
    // Should be base64 encoded
    assert!(standard_decode(&encrypted_key).is_ok());
    
    // Should be reasonably long (encrypted AES key)
    assert!(encrypted_key.len() > 50);
}

#[test]
fn test_e2e_encryption_generate_shared_key_no_peer() {
    let mut encryption = E2EEncryption::new().unwrap();
    
    // Try to generate shared key without setting peer public key
    let result = encryption.generate_shared_key();
    assert!(result.is_err());
}

#[test]
fn test_e2e_encryption_set_shared_key_valid() {
    let mut encryption1 = E2EEncryption::new().unwrap();
    let mut encryption2 = E2EEncryption::new().unwrap();
    
    // Set up peer relationship
    let public_key1 = encryption1.get_public_key_base64().unwrap();
    let public_key2 = encryption2.get_public_key_base64().unwrap();
    
    encryption1.set_peer_public_key(&public_key2).unwrap();
    encryption2.set_peer_public_key(&public_key1).unwrap();
    
    // Generate shared key on encryption1
    let encrypted_key = encryption1.generate_shared_key().unwrap();
    
    // Set it on encryption2
    let result = encryption2.set_shared_key(&encrypted_key);
    assert!(result.is_ok());
}

#[test]
fn test_e2e_encryption_set_shared_key_invalid() {
    let mut encryption = E2EEncryption::new().unwrap();
    
    // Try to set invalid base64
    let result = encryption.set_shared_key(&"invalid_base64!@#".to_string());
    assert!(result.is_err());
    
    // Try to set valid base64 but can't decrypt (no private key match)
    let invalid_key = standard_encode("not_encrypted_for_us".as_bytes());
    let result = encryption.set_shared_key(&invalid_key);
    assert!(result.is_err());
}

#[test]
fn test_e2e_encryption_set_shared_key_empty() {
    let mut encryption = E2EEncryption::new().unwrap();
    
    // Try to set empty key
    let result = encryption.set_shared_key(&"".to_string());
    assert!(result.is_err());
    
    // Try to set whitespace only
    let result = encryption.set_shared_key(&"   ".to_string());
    assert!(result.is_err());
}

#[test]
fn test_e2e_encryption_full_key_exchange() {
    let mut encryption1 = E2EEncryption::new().unwrap();
    let mut encryption2 = E2EEncryption::new().unwrap();
    
    // Full key exchange process
    let public_key1 = encryption1.get_public_key_base64().unwrap();
    let public_key2 = encryption2.get_public_key_base64().unwrap();
    
    // Set each other's public keys
    encryption1.set_peer_public_key(&public_key2).unwrap();
    encryption2.set_peer_public_key(&public_key1).unwrap();
    
    // Generate and exchange shared key
    let encrypted_key = encryption1.generate_shared_key().unwrap();
    encryption2.set_shared_key(&encrypted_key).unwrap();
    
    // Both should now be ready for encryption
    let message = "Test message for encryption";
    let encrypted = encryption1.encrypt_message(message);
    assert!(encrypted.is_ok());
    
    let decrypted = encryption2.decrypt_message(&encrypted.unwrap());
    assert!(decrypted.is_ok());
    assert_eq!(decrypted.unwrap(), message);
}

#[test]
fn test_e2e_encryption_encrypt_message_no_key() {
    let encryption = E2EEncryption::new().unwrap();
    
    // Try to encrypt without shared key
    let result = encryption.encrypt_message("test");
    assert!(result.is_err());
}

#[test]
fn test_e2e_encryption_encrypt_empty_message() {
    let (encryption1, encryption2) = ready_pair();
    
    // Test empty message
    let result = encryption1.encrypt_message("");
    assert!(result.is_ok());
    
    let decrypted = encryption2.decrypt_message(&result.unwrap());
    assert!(decrypted.is_ok());
    assert_eq!(decrypted.unwrap(), "");
}

#[test]
fn test_e2e_encryption_encrypt_large_message() {
    let (encryption1, encryption2) = ready_pair();
    
    // Test large message (1MB)
    let large_message = "A".repeat(1024 * 1024);
    let result = encryption1.encrypt_message(&large_message);
    assert!(result.is_ok());
    
    let decrypted = encryption2.decrypt_message(&result.unwrap());
    assert!(decrypted.is_ok());
    assert_eq!(decrypted.unwrap(), large_message);
}

#[test]
fn test_e2e_encryption_encrypt_unicode_message() {
    let (encryption1, encryption2) = ready_pair();
    
    // Test unicode message
    let unicode_message = "Hello 世界! 🌍 Café résumé naïve 🚀";
    let result = encryption1.encrypt_message(unicode_message);
    assert!(result.is_ok());
    
    let decrypted = encryption2.decrypt_message(&result.unwrap());
    assert!(decrypted.is_ok());
    assert_eq!(decrypted.unwrap(), unicode_message);
}

#[test]
fn test_e2e_encryption_decrypt_invalid_ciphertext() {
    let (encryption1, encryption2) = ready_pair();
    
    // Try to decrypt invalid base64
    let result = encryption2.decrypt_message("invalid_base64!@#");
    assert!(result.is_err());
    
    // Try to decrypt valid base64 but invalid ciphertext
    let invalid_cipher = standard_encode("not_valid_ciphertext".as_bytes());
    let result = encryption2.decrypt_message(&invalid_cipher);
    assert!(result.is_err());
}

#[test]
fn test_e2e_encryption_decrypt_corrupted_ciphertext() {
    let (encryption1, encryption2) = ready_pair();
    
    // Encrypt a message
    let original_message = "Test message for corruption";
    let encrypted = encryption1.encrypt_message(original_message).unwrap();
    
    // Corrupt the ciphertext
    let mut corrupted = encrypted.clone();
    corrupted.push('X'); // Corrupt by adding character
    let result = encryption2.decrypt_message(&corrupted);
    assert!(result.is_err());
    
    // Try with truncated ciphertext
    let truncated = &encrypted[..encrypted.len()-10];
    let result = encryption2.decrypt_message(truncated);
    assert!(result.is_err());
}

#[test]
fn test_e2e_encryption_decrypt_no_shared_key() {
    let encryption = E2EEncryption::new().unwrap();
    
    // Try to decrypt without shared key
    let result = encryption.decrypt_message("dGVzdA=="); // base64 "test"
    assert!(result.is_err());
}

#[test]
fn test_e2e_encryption_sign_message() {
    let encryption = E2EEncryption::new().unwrap();
    
    let message = "Test message for signing";
    let signature = encryption.sign_message(message);
    assert!(signature.is_ok());
    
    let sig = signature.unwrap();
    // Should be base64 encoded
    assert!(standard_decode(&sig).is_ok());
    
    // Should be reasonably long (RSA signature)
    assert!(sig.len() > 50);
}

#[test]
fn test_e2e_encryption_sign_empty_message() {
    let encryption = E2EEncryption::new().unwrap();
    
    let signature = encryption.sign_message("");
    assert!(signature.is_ok());
    
    // Should be able to sign empty message
    let sig = signature.unwrap();
    assert!(standard_decode(&sig).is_ok());
}

#[test]
fn test_e2e_encryption_verify_signature_valid() {
    let encryption1 = E2EEncryption::new().unwrap();
    let mut encryption2 = E2EEncryption::new().unwrap();
    
    // Set up peer relationship for verification
    let public_key1 = encryption1.get_public_key_base64().unwrap();
    encryption2.set_peer_public_key(&public_key1).unwrap();
    
    // Sign message with encryption1
    let message = "Test message for verification";
    let signature = encryption1.sign_message(message).unwrap();
    
    // Verify with encryption2
    let result = encryption2.verify_signature(message, &signature);
    assert!(result.is_ok());
    assert!(result.unwrap()); // Should return true for valid signature
}

#[test]
fn test_e2e_encryption_verify_signature_invalid() {
    let encryption1 = E2EEncryption::new().unwrap();
    let mut encryption2 = E2EEncryption::new().unwrap();
    
    // Set up peer relationship
    let public_key1 = encryption1.get_public_key_base64().unwrap();
    encryption2.set_peer_public_key(&public_key1).unwrap();
    
    // Sign message with encryption1
    let message = "Test message for verification";
    let signature = encryption1.sign_message(message).unwrap();
    
    // Try to verify with different message
    let result = encryption2.verify_signature("Different message", &signature);
    assert!(result.is_ok());
    assert!(!result.unwrap()); // Should return false for invalid signature
}

#[test]
fn test_e2e_encryption_verify_signature_no_peer_key() {
    let encryption = E2EEncryption::new().unwrap();
    
    // Try to verify without peer public key
    let result = encryption.verify_signature("test", "dGVzdA=="); // base64 "test"
    assert!(result.is_err());
}

#[test]
fn test_e2e_encryption_verify_signature_invalid_format() {
    let encryption1 = E2EEncryption::new().unwrap();
    let mut encryption2 = E2EEncryption::new().unwrap();
    
    // Set up peer relationship
    let public_key1 = encryption1.get_public_key_base64().unwrap();
    encryption2.set_peer_public_key(&public_key1).unwrap();
    
    // Try to verify invalid base64 signature
    let result = encryption2.verify_signature("test", "invalid_base64!@#");
    assert!(result.is_err());
    
    // Valid base64 that is no signature does not verify
    let invalid_sig = standard_encode("not_a_signature".as_bytes());
    let result = encryption2.verify_signature("test", &invalid_sig);
    assert_eq!(result, Ok(false));
}

#[test]
fn test_e2e_encryption_key_reuse() {
    let (encryption1, encryption2) = ready_pair();
    
    // Test multiple messages with same key
    let messages = vec![
        "First message",
        "Second message",
        "Third message with special chars: !@#$%^&*()",
        "Fourth message with unicode: 你好世界",
    ];
    
    for message in messages {
        let encrypted = encryption1.encrypt_message(message).unwrap();
        let decrypted = encryption2.decrypt_message(&encrypted).unwrap();
        assert_eq!(decrypted, message);
    }
}

#[test]
fn test_e2e_encryption_nonce_uniqueness() {
    let (encryption1, encryption2) = ready_pair();
    
    // Encrypt same message multiple times
    let message = "Same message";
    let mut ciphertexts = Vec::new();
    
    for _ in 0..10 {
        let encrypted = encryption1.encrypt_message(message).unwrap();
        ciphertexts.push(encrypted);
    }
    
    // All ciphertexts should be different (due to random nonces)
    for i in 0..ciphertexts.len() {
        for j in i+1..ciphertexts.len() {
            assert_ne!(ciphertexts[i], ciphertexts[j]);
        }
    }
    
    // But all should decrypt to the same message
    for ciphertext in ciphertexts {
        let decrypted = encryption2.decrypt_message(&ciphertext).unwrap();
        assert_eq!(decrypted, message);
    }
}

#[test]
fn test_encryption_message_enum() {
    // Test EncryptionMessage enum variants
    let public_key_msg = EncryptionMessage::PublicKeyExchange("test_key".to_string());
    let shared_key_msg = EncryptionMessage::SharedKeyExchange("test_shared".to_string());
    
    match public_key_msg {
        EncryptionMessage::PublicKeyExchange(key) => assert_eq!(key, "test_key"),
        _ => panic!("Expected PublicKey variant"),
    }
    
    match shared_key_msg {
        EncryptionMessage::SharedKeyExchange(key) => assert_eq!(key, "test_shared"),
        _ => panic!("Expected SharedKey variant"),
    }
}

#[test]
fn test_message_with_encryption() {
    // Test Message with encrypted content
    let encrypted_msg = Message {
        id: 1,
        timestamp: Timestamp::now(),
        msg_type: MessageType::EncryptedText("encrypted_content".to_string()),
    };
    
    match encrypted_msg.msg_type {
        MessageType::EncryptedText(content) => assert_eq!(content, "encrypted_content"),
        _ => panic!("Expected EncryptedText variant"),
    }
}
#[test]
fn test_e2e_encryption() {
    // Create two encryption instances
    let mut alice = E2EEncryption::new().unwrap();
    let mut bob = E2EEncryption::new().unwrap();

    // Exchange public keys
    let alice_pub = alice.get_public_key_base64().unwrap();
    let bob_pub = bob.get_public_key_base64().unwrap();

    alice.set_peer_public_key(&bob_pub).unwrap();
    bob.set_peer_public_key(&alice_pub).unwrap();

    // Alice generates and shares AES key
    let encrypted_key = alice.generate_shared_key().unwrap();
    bob.set_shared_key(&encrypted_key).unwrap();

    // Test encryption/decryption
    let message = "Hello, secure world!";
    let encrypted = alice.encrypt_message(message).unwrap();
    let decrypted = bob.decrypt_message(&encrypted).unwrap();

    assert_eq!(message, decrypted);

    // Test signature
    let signature = alice.sign_message(message).unwrap();
    assert!(bob.verify_signature(message, &signature).unwrap());
}

#[test]
fn test_alice_and_bob_agree_on_secret() {
    let mut alice = E2EEncryption::new().unwrap();
    let mut bob = E2EEncryption::new().unwrap();

    // Alice receives Bob's public key and, having no session key yet,
    // generates one, encrypts it for Bob, and sends it.
    let bob_pub = bob.get_public_key_base64().unwrap();
    alice.set_peer_public_key(&bob_pub).unwrap();
    assert!(!alice.is_ready());
    let for_bob = alice.generate_shared_key().unwrap();
    assert!(alice.is_ready());

    // Bob decrypts and stores it.
    assert!(!bob.is_ready());
    bob.set_shared_key(&for_bob).unwrap();
    assert!(bob.is_ready());

    // Both encrypt and decrypt "secret" and recover it exactly.
    let from_alice = alice.encrypt_message("secret").unwrap();
    assert_eq!(bob.decrypt_message(&from_alice).unwrap(), "secret");
    let from_bob = bob.encrypt_message("secret").unwrap();
    assert_eq!(alice.decrypt_message(&from_bob).unwrap(), "secret");
    assert_eq!(alice.decrypt_message(&from_alice).unwrap(), "secret");
}

#[test]
fn test_encrypt_with_nonce_is_determined_by_its_inputs() {
    let (alice, bob) = ready_pair();
    let nonce_one = [1u8; 12];
    let nonce_two = [2u8; 12];

    let first = alice.encrypt_with_nonce(&nonce_one, "same text").unwrap();
    let again = alice.encrypt_with_nonce(&nonce_one, "same text").unwrap();
    let other = alice.encrypt_with_nonce(&nonce_two, "same text").unwrap();

    assert_eq!(first, again);
    assert_ne!(first, other);
    assert_ne!(first, "same text");

    // The nonce leads the transport text; 16 bytes of tag follow the text.
    let raw = standard_decode(&first).unwrap();
    assert_eq!(&raw[..12], &nonce_one);
    assert_eq!(raw.len(), 12 + "same text".len() + 16);

    assert_eq!(bob.decrypt_message(&first).unwrap(), "same text");
    assert_eq!(bob.decrypt_message(&other).unwrap(), "same text");
}

#[test]
fn test_encryption_error_messages() {
    let mut session = E2EEncryption::new().unwrap();

    assert_eq!(
        session.encrypt_message("x"),
        Err(ChatError::Encryption("Encryption not initialized".to_string()))
    );
    assert_eq!(
        session.decrypt_message("dGVzdA=="),
        Err(ChatError::Encryption("Encryption not initialized".to_string()))
    );
    assert_eq!(
        session.generate_shared_key(),
        Err(ChatError::Encryption("Peer public key not set".to_string()))
    );
    assert!(!session.is_ready());
    assert_eq!(
        session.verify_signature("m", "dGVzdA=="),
        Err(ChatError::Encryption("Peer public key not set".to_string()))
    );
    assert_eq!(
        session.confirm_handshake(),
        Err(ChatError::Encryption(
            "Handshake completed without a session key".to_string()
        ))
    );
    match session.set_peer_public_key("invalid_base64!@#") {
        Err(ChatError::Encryption(msg)) => {
            assert!(msg.starts_with("Failed to decode public key: "))
        }
        other => panic!("unexpected {:?}", other),
    }
    match session.set_peer_public_key(&standard_encode(b"not_an_rsa_key")) {
        Err(ChatError::Encryption(msg)) => {
            assert!(msg.starts_with("Failed to parse public key: "))
        }
        other => panic!("unexpected {:?}", other),
    }
    match session.set_shared_key("invalid_base64!@#") {
        Err(ChatError::Encryption(msg)) => {
            assert!(msg.starts_with("Failed to decode encrypted key: "))
        }
        other => panic!("unexpected {:?}", other),
    }
    match session.set_shared_key(&standard_encode(b"not_encrypted_for_us")) {
        Err(ChatError::Encryption(msg)) => {
            assert!(msg.starts_with("Failed to decrypt AES key: "))
        }
        other => panic!("unexpected {:?}", other),
    }

    let (alice, _bob) = ready_pair();
    match alice.decrypt_message("invalid_base64!@#") {
        Err(ChatError::Encryption(msg)) => {
            assert!(msg.starts_with("Failed to decode ciphertext: "))
        }
        other => panic!("unexpected {:?}", other),
    }
    assert_eq!(
        alice.decrypt_message(&standard_encode(b"short")),
        Err(ChatError::Encryption("Invalid ciphertext".to_string()))
    );
    match alice.decrypt_message(&standard_encode(b"not_valid_ciphertext_at_all")) {
        Err(ChatError::Encryption(msg)) => {
            assert!(msg.starts_with("Failed to decrypt message: "))
        }
        other => panic!("unexpected {:?}", other),
    }
    match alice.verify_signature("m", "invalid_base64!@#") {
        Err(ChatError::Encryption(msg)) => {
            assert!(msg.starts_with("Failed to decode signature: "))
        }
        other => panic!("unexpected {:?}", other),
    }
}

#[test]
fn test_set_shared_key_rejects_key_of_wrong_length() {
    let mut alice = E2EEncryption::new().unwrap();
    let bob = E2EEncryption::new().unwrap();
    // A key of 16 bytes, properly encrypted for Alice, is no session key.
    let alice_der = standard_decode(&alice.get_public_key_base64().unwrap()).unwrap();
    let _ = bob;
    let public_key =
        <rsa::RsaPublicKey as rsa::pkcs8::DecodePublicKey>::from_public_key_der(&alice_der)
            .unwrap();
    let short = public_key
        .encrypt(&mut rand::rngs::OsRng, rsa::Pkcs1v15Encrypt, &[7u8; 16])
        .unwrap();
    assert_eq!(
        alice.set_shared_key(&standard_encode(&short)),
        Err(ChatError::Encryption("Invalid AES key size".to_string()))
    );
    assert!(!alice.is_ready());

    let right = public_key
        .encrypt(&mut rand::rngs::OsRng, rsa::Pkcs1v15Encrypt, &[7u8; 32])
        .unwrap();
    assert!(alice.set_shared_key(&standard_encode(&right)).is_ok());
    assert!(alice.is_ready());
}

#[test]
fn test_decrypt_rejects_text_that_is_not_utf8() {
    let (alice, _bob) = ready_pair();
    // Seal bytes that are not UTF-8 under a known session key.
    let mut carol = E2EEncryption::new().unwrap();
    let carol_der = standard_decode(&carol.get_public_key_base64().unwrap()).unwrap();
    let public_key =
        <rsa::RsaPublicKey as rsa::pkcs8::DecodePublicKey>::from_public_key_der(&carol_der)
            .unwrap();
    let key = [9u8; 32];
    let wrapped = public_key
        .encrypt(&mut rand::rngs::OsRng, rsa::Pkcs1v15Encrypt, &key)
        .unwrap();
    carol.set_shared_key(&standard_encode(&wrapped)).unwrap();

    let cipher = <aes_gcm::Aes256Gcm as aes_gcm::aead::KeyInit>::new(
        aes_gcm::Key::<aes_gcm::Aes256Gcm>::from_slice(&key),
    );
    let nonce = [3u8; 12];
    let sealed = aes_gcm::aead::Aead::encrypt(
        &cipher,
        aes_gcm::Nonce::from_slice(&nonce),
        &[0xff, 0xfe, 0xfd][..],
    )
    .unwrap();
    let mut combined = nonce.to_vec();
    combined.extend_from_slice(&sealed);
    assert_eq!(
        carol.decrypt_message(&standard_encode(&combined)),
        Err(ChatError::Encryption("Failed to decode plaintext".to_string()))
    );

    // The same construction with text is what `decrypt_message` opens.
    let sealed_text = aes_gcm::aead::Aead::encrypt(
        &cipher,
        aes_gcm::Nonce::from_slice(&nonce),
        "héllo".as_bytes(),
    )
    .unwrap();
    let mut combined_text = nonce.to_vec();
    combined_text.extend_from_slice(&sealed_text);
    let transport = standard_encode(&combined_text);
    assert_eq!(carol.decrypt_message(&transport).unwrap(), "héllo");
    assert_eq!(carol.encrypt_with_nonce(&nonce, "héllo").unwrap(), transport);
    assert!(alice.decrypt_message(&transport).is_err());
}

#[test]
fn test_handshake_states() {
    let mut alice = E2EEncryption::new().unwrap();
    let mut bob = E2EEncryption::new().unwrap();
    assert_eq!(alice.handshake_state(), HandshakeState::KeypairReady);

    let from_alice = alice.begin_handshake();
    assert_eq!(alice.handshake_state(), HandshakeState::AwaitingPeerKey);
    assert_eq!(
        from_alice,
        EncryptionMessage::PublicKeyExchange(alice.get_public_key_base64().unwrap())
    );

    // Bob learns Alice's key, makes the session key and sends it.
    let bob_actions = bob.handle_handshake_message(&from_alice).unwrap();
    assert_eq!(bob.handshake_state(), HandshakeState::AwaitingAck);
    assert_eq!(bob_actions.len(), 1);
    let key_message = match &bob_actions[0] {
        HandshakeAction::Send(msg @ EncryptionMessage::SharedKeyExchange(_)) => msg,
        other => panic!("unexpected {:?}", other),
    };

    // Alice adopts it and confirms.
    let alice_actions = alice.handle_handshake_message(key_message).unwrap();
    assert_eq!(alice.handshake_state(), HandshakeState::SessionEstablished);
    assert_eq!(
        alice_actions,
        vec![
            HandshakeAction::Send(EncryptionMessage::HandshakeComplete),
            HandshakeAction::Notify(StatusUpdate::EncryptionEnabled),
        ]
    );

    // Bob takes the confirmation.
    let done = bob
        .handle_handshake_message(&EncryptionMessage::HandshakeComplete)
        .unwrap();
    assert_eq!(bob.handshake_state(), HandshakeState::SessionEstablished);
    assert_eq!(
        done,
        vec![HandshakeAction::Notify(StatusUpdate::EncryptionEnabled)]
    );

    let sealed = alice.encrypt_message("after the handshake").unwrap();
    assert_eq!(bob.decrypt_message(&sealed).unwrap(), "after the handshake");
}

#[test]
fn test_handshake_stores_peer_key_without_new_session_key_when_ready() {
    let (mut alice, bob) = ready_pair();
    let carol = E2EEncryption::new().unwrap();
    let sealed = alice.encrypt_message("before").unwrap();

    let actions = alice
        .handle_handshake_message(&EncryptionMessage::PublicKeyExchange(
            carol.get_public_key_base64().unwrap(),
        ))
        .unwrap();
    assert!(actions.is_empty());
    // The session key is the old one.
    assert_eq!(bob.decrypt_message(&sealed).unwrap(), "before");
    assert_eq!(
        bob.decrypt_message(&alice.encrypt_message("after").unwrap()).unwrap(),
        "after"
    );
}

#[test]
fn test_handshake_rejects_bad_messages_and_keeps_state() {
    let mut session = E2EEncryption::new().unwrap();

    assert!(session
        .handle_handshake_message(&EncryptionMessage::PublicKeyExchange("???".to_string()))
        .is_err());
    assert_eq!(session.handshake_state(), HandshakeState::KeypairReady);

    assert!(session
        .handle_handshake_message(&EncryptionMessage::SharedKeyExchange("???".to_string()))
        .is_err());
    assert_eq!(session.handshake_state(), HandshakeState::KeypairReady);

    assert!(session
        .handle_handshake_message(&EncryptionMessage::HandshakeComplete)
        .is_err());
    assert_eq!(session.handshake_state(), HandshakeState::KeypairReady);
    assert!(!session.is_ready());
}

#[test]
fn test_simultaneous_key_exchange_settles_on_one_key() {
    let mut alice = E2EEncryption::new().unwrap();
    let mut bob = E2EEncryption::new().unwrap();
    let alice_key = alice.begin_handshake();
    let bob_key = bob.begin_handshake();

    // Both learn the other's key before either session key arrives, so both
    // make a session key.
    let from_alice = alice.handle_handshake_message(&bob_key).unwrap();
    let from_bob = bob.handle_handshake_message(&alice_key).unwrap();
    assert_eq!(alice.handshake_state(), HandshakeState::AwaitingAck);
    assert_eq!(bob.handshake_state(), HandshakeState::AwaitingAck);
    let alice_offer = match &from_alice[0] {
        HandshakeAction::Send(msg) => msg,
        other => panic!("unexpected {:?}", other),
    };
    let bob_offer = match &from_bob[0] {
        HandshakeAction::Send(msg) => msg,
        other => panic!("unexpected {:?}", other),
    };

    // Exactly one of them keeps its own key.
    assert_ne!(alice.keeps_own_key(), bob.keeps_own_key());

    let alice_reaction = alice.handle_handshake_message(bob_offer).unwrap();
    let bob_reaction = bob.handle_handshake_message(alice_offer).unwrap();
    let (keeper, keeper_reaction, adopter, adopter_reaction) = if alice.keeps_own_key() {
        (&mut alice, alice_reaction, &mut bob, bob_reaction)
    } else {
        (&mut bob, bob_reaction, &mut alice, alice_reaction)
    };
    assert!(keeper_reaction.is_empty());
    assert_eq!(
        adopter_reaction,
        vec![
            HandshakeAction::Send(EncryptionMessage::HandshakeComplete),
            HandshakeAction::Notify(StatusUpdate::EncryptionEnabled),
        ]
    );
    assert_eq!(adopter.handshake_state(), HandshakeState::SessionEstablished);
    keeper
        .handle_handshake_message(&EncryptionMessage::HandshakeComplete)
        .unwrap();
    assert_eq!(keeper.handshake_state(), HandshakeState::SessionEstablished);

    // Both ends now hold the same key.
    let sealed = keeper.encrypt_message("agreed").unwrap();
    assert_eq!(adopter.decrypt_message(&sealed).unwrap(), "agreed");
    let back = adopter.encrypt_message("indeed").unwrap();
    assert_eq!(keeper.decrypt_message(&back).unwrap(), "indeed");
}

#[test]
fn test_bytes_less_or_equal() {
    assert!(bytes_less_or_equal(&[], &[]));
    assert!(bytes_less_or_equal(&[], &[0]));
    assert!(!bytes_less_or_equal(&[0], &[]));
    assert!(bytes_less_or_equal(&[1, 2, 3], &[1, 2, 3]));
    assert!(bytes_less_or_equal(&[1, 2], &[1, 2, 3]));
    assert!(!bytes_less_or_equal(&[1, 2, 3], &[1, 2]));
    assert!(bytes_less_or_equal(&[1, 2, 3], &[1, 3]));
    assert!(!bytes_less_or_equal(&[2], &[1, 255]));
}

#[test]
fn test_every_handshake_state() {
    let mut quiet = E2EEncryption::new().unwrap();
    let mut loud = E2EEncryption::new().unwrap();
    let other = E2EEncryption::new().unwrap().get_public_key_base64().unwrap();
    assert_eq!(quiet.handshake_state(), HandshakeState::KeypairReady);

    // The peer's key arrives before ours is announced.
    quiet.set_peer_public_key(&other).unwrap();
    assert_eq!(quiet.handshake_state(), HandshakeState::PeerKeyKnown);
    quiet.begin_handshake();
    assert_eq!(quiet.handshake_state(), HandshakeState::AwaitingSessionKey);

    // Ours is announced before the peer's arrives.
    loud.begin_handshake();
    assert_eq!(loud.handshake_state(), HandshakeState::AwaitingPeerKey);
    loud.set_peer_public_key(&other).unwrap();
    assert_eq!(loud.handshake_state(), HandshakeState::AwaitingSessionKey);

    loud.generate_shared_key().unwrap();
    assert_eq!(loud.handshake_state(), HandshakeState::AwaitingAck);
    loud.confirm_handshake().unwrap();
    assert_eq!(loud.handshake_state(), HandshakeState::SessionEstablished);

    // Making a new key starts the wait for a confirmation again.
    loud.generate_shared_key().unwrap();
    assert_eq!(loud.handshake_state(), HandshakeState::AwaitingAck);
}

#[test]
fn test_session_from_private_key() {
    let key = rsa::RsaPrivateKey::new(&mut rand::rngs::OsRng, 1024).unwrap();
    let private_der = rsa::pkcs8::EncodePrivateKey::to_pkcs8_der(&key)
        .unwrap()
        .as_bytes()
        .to_vec();
    let public_der = rsa::pkcs8::EncodePublicKey::to_public_key_der(&key.to_public_key())
        .unwrap()
        .as_bytes()
        .to_vec();

    let session = E2EEncryption::from_private_key(private_der.clone()).unwrap();
    assert_eq!(
        session.get_public_key_base64().unwrap(),
        standard_encode(&public_der)
    );
    assert_eq!(session.handshake_state(), HandshakeState::KeypairReady);
    assert!(!session.is_ready());

    // Two sessions around one key sign alike: signing is determined by key
    // and message.
    let twin = E2EEncryption::from_private_key(private_der).unwrap();
    assert_eq!(
        session.sign_message("same").unwrap(),
        twin.sign_message("same").unwrap()
    );
    assert_ne!(
        session.sign_message("same").unwrap(),
        session.sign_message("other").unwrap()
    );

    // What a peer seals for the key's public half, the session opens.
    let mut owner = session;
    let mut peer = E2EEncryption::new().unwrap();
    peer.set_peer_public_key(&standard_encode(&public_der))
        .unwrap();
    let sealed_key = peer.generate_shared_key().unwrap();
    owner.set_shared_key(&sealed_key).unwrap();
    let sealed = peer.encrypt_message("for the owner").unwrap();
    assert_eq!(owner.decrypt_message(&sealed).unwrap(), "for the owner");
}

#[test]
fn test_use_session_key() {
    let mut alice = E2EEncryption::new().unwrap();
    let mut bob = E2EEncryption::new().unwrap();
    let key = [5u8; 32];

    let text = alice.use_session_key(&key, &[1, 2, 3]);
    assert_eq!(text, "AQID");
    assert!(alice.is_ready());
    assert_eq!(alice.handshake_state(), HandshakeState::AwaitingAck);

    bob.use_session_key(&key, &[]);
    let sealed = alice.encrypt_with_nonce(&[0u8; 12], "shared").unwrap();
    assert_eq!(bob.decrypt_message(&sealed).unwrap(), "shared");
    assert_eq!(
        sealed,
        bob.encrypt_with_nonce(&[0u8; 12], "shared").unwrap()
    );
}

#[test]
fn test_generated_key_is_the_key_the_peer_recovers() {
    let mut alice = E2EEncryption::new().unwrap();
    let mut bob = E2EEncryption::new().unwrap();
    alice
        .set_peer_public_key(&bob.get_public_key_base64().unwrap())
        .unwrap();
    let alice_public = alice.get_public_key_base64().unwrap();

    let for_bob = alice.generate_shared_key().unwrap();
    assert!(alice.is_ready());
    assert_eq!(alice.get_public_key_base64().unwrap(), alice_public);

    // What Bob recovers is 32 bytes, and it is the key Alice kept: what one
    // seals the other opens, with the same bytes on the wire for one nonce.
    assert!(bob.set_shared_key(&for_bob).is_ok());
    let nonce = [7u8; 12];
    assert_eq!(
        alice.encrypt_with_nonce(&nonce, "one key").unwrap(),
        bob.encrypt_with_nonce(&nonce, "one key").unwrap()
    );

    // Two keys made one after the other differ.
    let again = alice.generate_shared_key().unwrap();
    assert_ne!(again, for_bob);
    assert_ne!(
        alice.encrypt_with_nonce(&nonce, "one key").unwrap(),
        bob.encrypt_with_nonce(&nonce, "one key").unwrap()
    );
}
