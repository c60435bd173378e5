use conclave::identity::Identity;
use conclave::protocol::SignedEvent;
use ed25519_dalek::Signer;
use rand::RngCore;
use serde_json::Value;

fn chat_payload(player_id: &str) -> String {
    let mut m = serde_json::Map::new();
    m.insert("type".to_string(), Value::String("ChatMessage".to_string()));
    m.insert("author".to_string(), Value::String(player_id.to_string()));
    m.insert("content".to_string(), Value::String("Test message".to_string()));
    m.insert("timestamp".to_string(), Value::from(1234567890u64));
    Value::Object(m).to_string()
}

fn random_key() -> [u8; 32] {
    let mut key_bytes = [0u8; 32];
    rand::thread_rng().fill_bytes(&mut key_bytes);
    key_bytes
}

#[test]
fn test_sign_and_verify_event() {
    let key_bytes = random_key();
    let signing_key = ed25519_dalek::SigningKey::from_bytes(&key_bytes);
    let verifying_key = signing_key.verifying_key();

    let player_id = hex::encode(verifying_key.as_bytes());
    let payload = chat_payload(&player_id);

    let mut event = SignedEvent::new(1, uuid::Uuid::new_v4().as_u128(), 1, player_id.clone(), payload);

    assert!(!event.verify()); // Not signed yet

    event.sign(&key_bytes);

    assert!(event.verify()); // Should verify now
}

#[test]
fn test_verify_fails_with_wrong_signature() {
    let key_bytes = random_key();
    let signing_key = ed25519_dalek::SigningKey::from_bytes(&key_bytes);
    let player_id = hex::encode(signing_key.verifying_key().as_bytes());
    let payload = chat_payload(&player_id);

    let mut event = SignedEvent::new(1, uuid::Uuid::new_v4().as_u128(), 1, player_id.clone(), payload);

    event.sign(&key_bytes);

    // Tamper with the signature
    event.signature.push('x');

    assert!(!event.verify()); // Should fail verification
}

#[test]
fn test_verify_fails_with_tampered_data() {
    let key_bytes = random_key();
    let signing_key = ed25519_dalek::SigningKey::from_bytes(&key_bytes);
    let player_id = hex::encode(signing_key.verifying_key().as_bytes());
    let payload = chat_payload(&player_id);

    let mut event = SignedEvent::new(1, uuid::Uuid::new_v4().as_u128(), 1, player_id.clone(), payload);

    event.sign(&key_bytes);

    // Tamper with the content after signing
    let mut value: Value = serde_json::from_str(&event.payload).unwrap();
    if let Some(content) = value.get_mut("content") {
        *content = Value::String("Tampered message".to_string());
    }
    event.payload = value.to_string();

    assert!(!event.verify()); // Should fail verification
}

#[test]
fn event_type_comes_from_payload() {
    let event = SignedEvent::new(1, 7, 1, "ab".to_string(), chat_payload("ab"));
    assert_eq!(event.event_type, "ChatMessage");
    let other = SignedEvent::new(2, 7, 2, "ab".to_string(), "{\"x\":1}".to_string());
    assert_eq!(other.event_type, "unknown");
    let not_json = SignedEvent::new(3, 7, 3, "ab".to_string(), "not json".to_string());
    assert_eq!(not_json.event_type, "unknown");
    assert!(not_json.signature.is_empty());
}

#[test]
fn identity_signs_events_it_authors() {
    let identity = Identity::generate("Author".to_string()).unwrap();
    let mut event = SignedEvent::new(5, 99, 3, identity.player_id(), chat_payload("x"));
    event.sign(&identity.signing_key);
    assert!(event.verify());
    assert_eq!(event.signature.len(), 128);
}

#[test]
fn signature_matches_signed_text() {
    let key = [9u8; 32];
    let signing_key = ed25519_dalek::SigningKey::from_bytes(&key);
    let author = hex::encode(signing_key.verifying_key().as_bytes());
    let campaign = 0x0123456789abcdef0123456789abcdefu128;
    let mut event = SignedEvent::new_at(
        42,
        campaign,
        7,
        author.clone(),
        "{\"type\": \"MemberLeft\", \"player_id\": \"p\"}".to_string(),
        conclave::clock::Timestamp { secs_since_epoch: 1700000000, nanos_since_epoch: 5 },
    );
    event.sign(&key);
    let text = format!(
        "42:01234567-89ab-cdef-0123-456789abcdef:7:MemberLeft:{}:1700000000:{{\"player_id\":\"p\",\"type\":\"MemberLeft\"}}",
        author
    );
    let expected = signing_key.sign(text.as_bytes());
    assert_eq!(event.signature, hex::encode(expected.to_bytes()));
}

#[test]
fn verify_rejects_wrong_author() {
    let key = [11u8; 32];
    let mut event = SignedEvent::new(1, 1, 1, "00".repeat(32), "{}".to_string());
    event.sign(&key);
    assert!(!event.verify());
    event.author_id = "zz".to_string();
    assert!(!event.verify());
}

#[test]
fn author_public_key_reads_hex() {
    let mut event = SignedEvent::new(1, 1, 1, "ab".repeat(32), "{}".to_string());
    assert_eq!(event.author_public_key(), Some([0xabu8; 32]));
    event.author_id = "ab".repeat(31);
    assert_eq!(event.author_public_key(), None);
    event.author_id = "xy".repeat(32);
    assert_eq!(event.author_public_key(), None);
    event.author_id = "AB".repeat(32);
    assert_eq!(event.author_public_key(), Some([0xabu8; 32]));
}
