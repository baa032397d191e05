use mimicrypt::bootstrap::{create_contact_invite, create_invite_response, verify_invite_response};
use mimicrypt::crypto::{
    consume_one_time_prekey, derive_bootstrap_root_key_initiator,
    derive_bootstrap_root_key_responder, export_public_bundle, fingerprint_ed25519,
    generate_device_keys, random_x25519_private, verify_signed_prekey,
};
use mimicrypt::envelope::{open_message, seal_message};
use mimicrypt::ratchet::SessionState;
use mimicrypt::reliability::{should_retry, transition_outbox, RetryPolicy};
use mimicrypt::spec_types::{
    AppMessage, DeliveryState, OutboxItem, TrustState, DEFAULT_SIGNED_PREKEY_LIFETIME_DAYS,
};
use time::OffsetDateTime;
use uuid::Uuid;
use x25519_dalek::{PublicKey as X25519PublicKey, StaticSecret};

fn new_id() -> [u8; 16] {
    Uuid::new_v4().into_bytes()
}

fn uuid_text(id: &[u8; 16]) -> String {
    Uuid::from_bytes(*id).to_string()
}

/// The canonical JSON of a message, built field by field in sorted key order.
fn message_json(message: &AppMessage) -> Vec<u8> {
    let mut map = serde_json::Map::new();
    map.insert("attachments".to_string(), serde_json::Value::Array(Vec::new()));
    map.insert("body".to_string(), serde_json::Value::String(message.body.clone()));
    map.insert("created_at".to_string(), serde_json::Value::from(message.created_at));
    map.insert("message_id".to_string(), serde_json::Value::String(uuid_text(&message.message_id)));
    map.insert("sender_device_id".to_string(), serde_json::Value::String(uuid_text(&message.sender_device_id)));
    map.insert("sender_email".to_string(), serde_json::Value::String(message.sender_email.clone()));
    map.insert("session_id".to_string(), serde_json::Value::String(uuid_text(&message.session_id)));
    serde_json::to_vec(&serde_json::Value::Object(map)).unwrap()
}

#[test]
fn invite_roundtrip_establishes_unverified_contact() {
    let now = OffsetDateTime::now_utc().unix_timestamp();
    let inviter = generate_device_keys(now, DEFAULT_SIGNED_PREKEY_LIFETIME_DAYS, 8);
    let responder = generate_device_keys(now, DEFAULT_SIGNED_PREKEY_LIFETIME_DAYS, 8);
    let invite = create_contact_invite("alice@example.com", new_id(), &inviter, now);
    let response = create_invite_response(&invite, "bob@example.com", new_id(), &responder);
    let contact = verify_invite_response(&invite, &response, now).unwrap();
    assert_eq!(contact.trust_state, TrustState::Unverified);
}

#[test]
fn bundle_signature_verifies() {
    let keys = generate_device_keys(1_700_000_000, DEFAULT_SIGNED_PREKEY_LIFETIME_DAYS, 4);
    let bundle = export_public_bundle(&keys);
    verify_signed_prekey(&bundle).unwrap();
}

#[test]
fn shared_bootstrap_key_matches_for_both_parties() {
    let alice = generate_device_keys(1_700_000_000, 14, 4);
    let mut bob = generate_device_keys(1_700_000_000, 14, 4);
    let bob_bundle = export_public_bundle(&bob);
    let bob_otk = bob_bundle.one_time_prekeys[0].clone();

    let alice_ephemeral_private = random_x25519_private();
    let alice_root = derive_bootstrap_root_key_initiator(
        alice.x25519_identity_private,
        alice_ephemeral_private,
        bob_bundle.identity_x25519_public,
        bob_bundle.signed_prekey.public_key,
        Some(bob_otk.public_key),
    )
    .unwrap();

    let bob_one_time_private = consume_one_time_prekey(&mut bob, bob_otk.key_id).unwrap();
    let alice_ephemeral_secret = StaticSecret::from(alice_ephemeral_private);
    let alice_ephemeral_public = X25519PublicKey::from(&alice_ephemeral_secret).to_bytes();
    let bob_root = derive_bootstrap_root_key_responder(
        bob.x25519_identity_private,
        bob.signed_prekey_private,
        Some(bob_one_time_private),
        alice.x25519_identity_public,
        alice_ephemeral_public,
    )
    .unwrap();

    assert_eq!(alice_root, bob_root);
}

#[test]
fn padded_message_roundtrip() {
    let now = OffsetDateTime::now_utc().unix_timestamp();
    let keys = generate_device_keys(now, DEFAULT_SIGNED_PREKEY_LIFETIME_DAYS, 8);
    let session_id = new_id();
    let sender_device_id = new_id();
    let (mut bob, bob_pub) = SessionState::init_bob(session_id, [42_u8; 32]);
    let mut alice = SessionState::init_alice(session_id, [42_u8; 32], &bob_pub).unwrap();
    let message = AppMessage {
        message_id: new_id(),
        session_id,
        sender_email: "alice@example.com".into(),
        sender_device_id,
        body: "hello".into(),
        created_at: OffsetDateTime::now_utc().unix_timestamp(),
        attachments: vec![],
        delivery_state: DeliveryState::Queued,
    };
    let encoded = seal_message(
        &keys,
        sender_device_id,
        fingerprint_ed25519(&keys.identity.verifying_key),
        &mut alice,
        message.session_id,
        &message_json(&message),
    );

    let opened = open_message(&encoded, sender_device_id, &mut bob).unwrap();
    let value: serde_json::Value = serde_json::from_slice(&opened).unwrap();
    assert_eq!(value["body"], "hello");
}

#[test]
fn ratchet_roundtrip_and_replay_guard() {
    let root = [7_u8; 32];
    let session_id = new_id();
    let sender_device_id = new_id();
    let (mut bob, bob_pub) = SessionState::init_bob(session_id, root);
    let mut alice = SessionState::init_alice(session_id, root, &bob_pub).unwrap();
    let aad = b"aad";
    let payload = alice.encrypt(b"hello", aad);
    let plaintext = bob.decrypt(sender_device_id, &payload, aad).unwrap();
    assert_eq!(plaintext, b"hello");
    assert!(bob.decrypt(sender_device_id, &payload, aad).is_err());
}

#[test]
fn retry_backoff_moves_time_forward() {
    let now = OffsetDateTime::now_utc().unix_timestamp();
    let policy = RetryPolicy::default();
    let item = OutboxItem {
        message_id: new_id(),
        session_id: new_id(),
        recipient_email: "bob@example.com".into(),
        delivery_state: DeliveryState::Queued,
        attempt_count: 0,
        next_attempt_at: now,
        payload_b64: "payload".into(),
        transport_subject: "hello".into(),
    };
    let failed = transition_outbox(item, DeliveryState::FailedRetryable, &policy, now);
    assert!(failed.next_attempt_at > now);
    assert!(should_retry(&failed, &policy, failed.next_attempt_at));
}
