use conclave::identity::Identity;
use ed25519_dalek::Verifier;

#[test]
fn test_generate_identity() {
    let identity = Identity::generate("Test User".to_string()).unwrap();
    assert!(!identity.player_id().is_empty());
    assert_eq!(identity.display_name(), "Test User");
}

#[test]
fn test_sign_verify() {
    let identity = Identity::generate("Test User".to_string()).unwrap();
    let message = b"Hello, world!";
    let signature = identity.sign(message);

    // Verify using public key
    let sig = ed25519_dalek::Signature::from_slice(&signature).unwrap();
    let key = ed25519_dalek::VerifyingKey::from_bytes(&identity.verifying_key).unwrap();
    let result = key.verify(message, &sig);
    assert!(result.is_ok());
}

#[test]
fn player_id_is_hex_of_verifying_key() {
    let identity = Identity::generate("Hex".to_string()).unwrap();
    let id = identity.player_id();
    assert_eq!(id.len(), 64);
    assert_eq!(id, hex::encode(identity.verifying_key));
}

#[test]
fn verifying_key_belongs_to_signing_key() {
    let identity = Identity::generate("Keys".to_string()).unwrap();
    let expected = ed25519_dalek::SigningKey::from_bytes(&identity.signing_key).verifying_key();
    assert_eq!(identity.verifying_key, expected.to_bytes());
}

#[test]
fn from_entropy_follows_bip39() {
    let entropy = [7u8; 16];
    let identity = Identity::from_entropy(&entropy, "E".to_string()).unwrap();
    let seed = bip39::Mnemonic::from_entropy(&entropy).unwrap().to_seed("");
    assert_eq!(&identity.signing_key[..], &seed[..32]);
    assert_eq!(identity.display_name(), "E");
}

#[test]
fn from_mnemonic_restores_key_of_phrase() {
    let entropy = [42u8; 16];
    let phrase = bip39::Mnemonic::from_entropy(&entropy).unwrap().to_string();
    let identity = Identity::from_mnemonic(&phrase).unwrap();
    let generated = Identity::from_entropy(&entropy, "Someone".to_string()).unwrap();
    assert_eq!(identity.signing_key, generated.signing_key);
    assert_eq!(identity.verifying_key, generated.verifying_key);
    assert_eq!(identity.display_name(), "Unknown");
}

#[test]
fn from_mnemonic_rejects_nonsense() {
    match Identity::from_mnemonic("not a valid phrase at all") {
        Err(conclave::identity::CoreError::InvalidMnemonic(text)) => assert!(!text.is_empty()),
        _ => panic!("expected InvalidMnemonic"),
    }
}

#[test]
fn export_mnemonic_is_words_of_entropy() {
    let identity = Identity::from_entropy(&[1u8; 16], "X".to_string()).unwrap();
    let phrase = identity.export_mnemonic();
    let expected = bip39::Mnemonic::from_entropy(&[1u8; 16]).unwrap().to_string();
    assert_eq!(phrase, expected);
    assert_eq!(phrase.split(' ').count(), 12);
}

#[test]
fn exported_phrase_restores_identity() {
    let identity = Identity::generate("Original".to_string()).unwrap();
    let phrase = identity.export_mnemonic();
    let restored = Identity::from_mnemonic(&phrase).unwrap();
    assert_eq!(restored.player_id(), identity.player_id());
    assert_eq!(restored.signing_key, identity.signing_key);
    assert_eq!(restored.verifying_key, identity.verifying_key);
    assert_eq!(restored.entropy, identity.entropy);
    assert_eq!(restored.display_name(), "Unknown");
    assert_eq!(restored.export_mnemonic(), phrase);
}

#[test]
fn restored_identity_keeps_entropy_of_long_phrase() {
    let entropy = [9u8; 32];
    let phrase = bip39::Mnemonic::from_entropy(&entropy).unwrap().to_string();
    let restored = Identity::from_mnemonic(&phrase).unwrap();
    assert_eq!(restored.entropy, entropy.to_vec());
    assert_eq!(restored.export_mnemonic(), phrase);
    let seed = bip39::Mnemonic::from_entropy(&entropy).unwrap().to_seed("");
    assert_eq!(&restored.signing_key[..], &seed[..32]);
}

#[test]
fn signatures_are_deterministic() {
    let identity = Identity::from_entropy(&[3u8; 16], "D".to_string()).unwrap();
    assert_eq!(identity.sign(b"abc"), identity.sign(b"abc"));
    assert_ne!(identity.sign(b"abc"), identity.sign(b"abd"));
}

#[test]
fn export_is_twelve_lowercase_words() {
    let identity = Identity::generate("Words".to_string()).unwrap();
    let phrase = identity.export_mnemonic();
    let words: Vec<&str> = phrase.split(' ').collect();
    assert_eq!(words.len(), 12);
    assert!(words.iter().all(|w| !w.is_empty() && w.chars().all(|c| c.is_ascii_lowercase())));
    assert_eq!(identity.export_mnemonic(), phrase);
}

#[test]
fn export_of_hand_built_identity_uses_key_prefix() {
    let generated = Identity::from_entropy(&[5u8; 16], "H".to_string()).unwrap();
    let hand_built = Identity {
        signing_key: generated.signing_key,
        verifying_key: generated.verifying_key,
        display_name: "H".to_string(),
        entropy: vec![1, 2, 3],
    };
    let expected = bip39::Mnemonic::from_entropy(&generated.signing_key[..16]).unwrap().to_string();
    assert_eq!(hand_built.export_mnemonic(), expected);
}

#[test]
fn from_mnemonic_refuses_bad_word_count() {
    match Identity::from_mnemonic("abandon abandon") {
        Err(conclave::identity::CoreError::InvalidMnemonic(text)) => assert_eq!(
            text,
            "mnemonic has an invalid word count: 2. Word count must be 12, 15, 18, 21, or 24"
        ),
        _ => panic!("expected InvalidMnemonic"),
    }
    match Identity::from_mnemonic("  ") {
        Err(conclave::identity::CoreError::InvalidMnemonic(text)) => {
            assert!(text.starts_with("mnemonic has an invalid word count: 0."))
        }
        _ => panic!("expected InvalidMnemonic"),
    }
}
