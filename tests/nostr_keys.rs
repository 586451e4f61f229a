use ecash_wallet::error::ErrorKind;
use ecash_wallet::identity::{
    generate_keys, generate_keys_with_bech32, get_public_key_from_private, greet, nip04_decrypt,
    nip04_encrypt, nip44_decrypt, nip44_encrypt, npub_to_public_key, nsec_to_secret_key,
    public_key_to_npub, secret_key_to_nsec, sign_event, verify_event, EventTemplate, NostrEvent,
};

#[test]
fn test_nostr_functions() {
    println!("Testing Nostr Rust functions...");

    let keys = generate_keys().unwrap();
    println!("✅ Generated keys successfully");

    let plaintext = "Hello, Nostr!";
    let encrypted = nip04_encrypt(plaintext, &keys.public_key, &keys.private_key).unwrap();
    println!("✅ NIP-04 encryption successful");

    let decrypted = nip04_decrypt(&encrypted, &keys.public_key, &keys.private_key).unwrap();
    assert_eq!(decrypted, plaintext);
    println!("✅ NIP-04 round-trip test passed!");

    let encrypted44 = nip44_encrypt(plaintext, &keys.public_key, &keys.private_key).unwrap();
    println!("✅ NIP-44 encryption successful");

    let decrypted44 = nip44_decrypt(&encrypted44, &keys.public_key, &keys.private_key).unwrap();
    assert_eq!(decrypted44, plaintext);
    println!("✅ NIP-44 round-trip test passed!");

    println!("All Nostr tests passed!");
}

#[test]
fn decryption_with_another_key_fails_cleanly() {
    let owner = generate_keys().unwrap();
    let stranger = generate_keys().unwrap();
    let sealed = nip44_encrypt("backup", &owner.public_key, &owner.private_key).unwrap();
    let e = nip44_decrypt(&sealed, &owner.public_key, &stranger.private_key).unwrap_err();
    assert_eq!(e.kind, ErrorKind::DecryptionFailed);
    assert_eq!(nip44_decrypt(&sealed, "nothex", &owner.private_key).unwrap_err().kind, ErrorKind::InvalidInput);
}

#[test]
fn known_key_derivation_and_bech32() {
    let sk = "0000000000000000000000000000000000000000000000000000000000000001";
    let pk = get_public_key_from_private(sk).unwrap();
    assert_eq!(pk, "79be667ef9dcbbac55a06295ce870b07029bfcdb2dce28d959f2815b16f81798");
    let nsec = secret_key_to_nsec(sk).unwrap();
    assert!(nsec.starts_with("nsec1"));
    assert_eq!(nsec_to_secret_key(&nsec).unwrap(), sk);
    let npub = public_key_to_npub(&pk).unwrap();
    assert!(npub.starts_with("npub1"));
    assert_eq!(npub_to_public_key(&npub).unwrap(), pk);
    assert_eq!(get_public_key_from_private("xyz").unwrap_err().kind, ErrorKind::InvalidInput);
    assert_eq!(nsec_to_secret_key("npub1xyz").unwrap_err().kind, ErrorKind::InvalidInput);
}

#[test]
fn generated_bech32_keys_agree() {
    let k = generate_keys_with_bech32().unwrap();
    assert_eq!(nsec_to_secret_key(&k.nsec).unwrap(), k.private_key);
    assert_eq!(npub_to_public_key(&k.npub).unwrap(), k.public_key);
    assert_eq!(get_public_key_from_private(&k.private_key).unwrap(), k.public_key);
}

#[test]
fn signed_event_verifies_and_tampering_is_detected() {
    let keys = generate_keys().unwrap();
    let template = EventTemplate {
        created_at: 1_700_000_000,
        kind: 1,
        tags: vec![vec!["t".to_string(), "cashu".to_string()]],
        content: "hello".to_string(),
    };
    let json = sign_event(&template, &keys.private_key).unwrap();
    let v: serde_json::Value = serde_json::from_str(&json).unwrap();
    let tags: Vec<Vec<String>> = serde_json::from_value(v["tags"].clone()).unwrap();
    let mut event = NostrEvent {
        id: v["id"].as_str().unwrap().to_string(),
        pubkey: v["pubkey"].as_str().unwrap().to_string(),
        created_at: v["created_at"].as_u64().unwrap(),
        kind: v["kind"].as_u64().unwrap(),
        tags,
        content: v["content"].as_str().unwrap().to_string(),
        sig: v["sig"].as_str().unwrap().to_string(),
    };
    assert_eq!(event.pubkey, keys.public_key);
    assert_eq!(verify_event(&event).unwrap(), true);
    event.content = "changed".to_string();
    assert_eq!(verify_event(&event).unwrap(), false);
    event.kind = 70_000;
    assert_eq!(verify_event(&event).unwrap_err().kind, ErrorKind::InvalidInput);
    let big = EventTemplate { kind: 70_000, ..template };
    assert_eq!(sign_event(&big, &keys.private_key).unwrap_err().kind, ErrorKind::InvalidInput);
}

#[test]
fn greeting() {
    assert_eq!(greet("Tom"), "Hello, Tom!");
}
