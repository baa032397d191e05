use mimicrypt::app_services::{
    accept_contact_invite, mark_contact_verified, queue_outbound_message,
    register_contact_response, AppServiceError,
};
use mimicrypt::bootstrap::{
    create_contact_invite, create_invite_response, decode_bundle_payload_bytes,
    encode_bundle_payload_bytes, invite_from_parts, safety_number, tofu_pin,
    validate_contact_invite, verify_invite_response, BootstrapError, INVITE_LIFETIME_SECONDS,
};
use mimicrypt::crypto::{export_public_bundle, fingerprint_ed25519, generate_device_keys, CryptoError};
use mimicrypt::mail_transport::{
    idle_or_poll_hint, metadata_for_uid, sender_mailbox, uid_search_range, MailAccount, PollConfig,
};
use mimicrypt::ratchet::{RatchetError, SessionState};
use mimicrypt::reliability::{
    dedupe_key, delivery_receipt, next_attempt, should_retry, transition_outbox, RetryPolicy,
};
use mimicrypt::spec_types::{
    ensure_v1, ContactIdentity, DeliveryState, FolderName, OutboxItem, SpecError, TrustState,
    CIPHER_SUITE_V1,
};
use mimicrypt::storage::{cursor_or_start, outbox_item_pending, select_pending_outbox};
use sha2::Digest;

fn item(state: DeliveryState, attempts: u32, next: i64, id: u8) -> OutboxItem {
    OutboxItem {
        message_id: [id; 16],
        session_id: [0u8; 16],
        recipient_email: "bob@example.com".into(),
        delivery_state: state,
        attempt_count: attempts,
        next_attempt_at: next,
        payload_b64: "payload".into(),
        transport_subject: "hello".into(),
    }
}

#[test]
fn version_check() {
    assert!(ensure_v1(1, CIPHER_SUITE_V1).is_ok());
    let e = ensure_v1(2, CIPHER_SUITE_V1).unwrap_err();
    assert!(matches!(e, SpecError::UnsupportedVersion(2)));
    assert_eq!(e.message(), "unsupported protocol version 2");
    let e = ensure_v1(1, "other").unwrap_err();
    assert_eq!(e.message(), "unsupported cipher suite other");
    // the version is checked first
    assert!(matches!(ensure_v1(7, "other"), Err(SpecError::UnsupportedVersion(7))));
}

#[test]
fn folder_names() {
    assert_eq!(FolderName::Inbox.to_string(), "INBOX");
    assert_eq!(FolderName::Archive.to_string(), "Archive");
    assert_eq!(FolderName::Spam.to_string(), "Spam");
}

#[test]
fn backoff_doubles_and_caps() {
    let policy = RetryPolicy::default();
    assert_eq!(next_attempt(1000, &policy, 0), 1015);
    assert_eq!(next_attempt(1000, &policy, 1), 1030);
    assert_eq!(next_attempt(1000, &policy, 6), 1000 + 960);
    assert_eq!(next_attempt(1000, &policy, 7), 1000 + 1800);
    assert_eq!(next_attempt(1000, &policy, 40), 1000 + 1800);
    let wide = RetryPolicy { max_attempts: 3, base_delay_seconds: 1, max_delay_seconds: 1_000_000 };
    assert_eq!(next_attempt(0, &wide, 10), 1024);
    assert_eq!(next_attempt(0, &wide, 11), 1024);
}

#[test]
fn transitions_update_attempts_and_schedule() {
    let policy = RetryPolicy::default();
    let failed = transition_outbox(item(DeliveryState::SmtpInFlight, 2, 5, 1), DeliveryState::FailedRetryable, &policy, 100);
    assert_eq!(failed.attempt_count, 3);
    assert_eq!(failed.next_attempt_at, 100 + 120);
    assert_eq!(failed.delivery_state, DeliveryState::FailedRetryable);
    let accepted = transition_outbox(item(DeliveryState::SmtpInFlight, 2, 5, 1), DeliveryState::SmtpAccepted, &policy, 100);
    assert_eq!(accepted.next_attempt_at, 100);
    assert_eq!(accepted.attempt_count, 2);
    let draft = transition_outbox(item(DeliveryState::Queued, 2, 5, 1), DeliveryState::Draft, &policy, 100);
    assert_eq!(draft.next_attempt_at, 5);
    assert_eq!(draft.delivery_state, DeliveryState::Draft);
}

#[test]
fn retries_stop_when_attempts_run_out() {
    let policy = RetryPolicy::default();
    assert!(should_retry(&item(DeliveryState::FailedRetryable, 7, 10, 1), &policy, 10));
    assert!(!should_retry(&item(DeliveryState::FailedRetryable, 8, 10, 1), &policy, 10));
    assert!(!should_retry(&item(DeliveryState::FailedRetryable, 1, 11, 1), &policy, 10));
    assert!(!should_retry(&item(DeliveryState::FailedTerminal, 1, 0, 1), &policy, 10));
}

#[test]
fn dedupe_key_joins_hyphenated_ids() {
    let s = [0x12u8; 16];
    let mut m = [0u8; 16];
    m[15] = 1;
    assert_eq!(
        dedupe_key(s, m),
        "12121212-1212-1212-1212-121212121212:00000000-0000-0000-0000-000000000001"
    );
    assert_eq!(dedupe_key(s, m).len(), 73);
    assert_ne!(dedupe_key(s, m), dedupe_key(m, s));
    let mut m2 = m;
    m2[0] = 0xab;
    assert_ne!(dedupe_key(s, m), dedupe_key(s, m2));
}

#[test]
fn invite_token_decodes_to_32_bytes() {
    let keys = generate_device_keys(1_000, 14, 1);
    let invite = create_contact_invite("alice@example.com", [1u8; 16], &keys, 1_000);
    let token = decode_bundle_payload_bytes(&invite.payload.opaque_token_b64).unwrap();
    assert_eq!(token.len(), 32);
}

#[test]
fn receipts_record_state_and_time() {
    let r = delivery_receipt([3u8; 16], DeliveryState::ReadByPeer, 77);
    assert_eq!(r.original_message_id, [3u8; 16]);
    assert_eq!(r.state, DeliveryState::ReadByPeer);
    assert_eq!(r.observed_at, 77);
}

#[test]
fn pending_outbox_keeps_order_and_filters() {
    let items = vec![
        item(DeliveryState::Queued, 0, 5, 1),
        item(DeliveryState::SmtpAccepted, 0, 0, 2),
        item(DeliveryState::FailedRetryable, 1, 10, 3),
        item(DeliveryState::FailedRetryable, 1, 11, 4),
        item(DeliveryState::Queued, 0, 10, 5),
    ];
    assert!(outbox_item_pending(&items[0], 10));
    let pending = select_pending_outbox(items, 10);
    let ids: Vec<u8> = pending.iter().map(|i| i.message_id[0]).collect();
    assert_eq!(ids, vec![1, 3, 5]);
    assert_eq!(cursor_or_start(None), 0);
    assert_eq!(cursor_or_start(Some(42)), 42);
}

#[test]
fn mail_texts_and_intervals() {
    let config = PollConfig::default();
    assert!(config.idle_supported);
    assert_eq!(idle_or_poll_hint(&config, true), 30);
    assert_eq!(idle_or_poll_hint(&config, false), 300);
    let account = MailAccount {
        email: "alice@example.com".into(),
        display_name: "Alice".into(),
        smtp_host: "smtp.example.com".into(),
        smtp_port: 465,
        imap_host: "imap.example.com".into(),
        imap_port: 993,
        username: "alice".into(),
        password: "SECRET-REDACTED".into(),
        inbox_folder: "INBOX".into(),
    };
    assert_eq!(sender_mailbox(&account), "Alice <alice@example.com>");
    assert_eq!(uid_search_range(41), "42:*");
    assert_eq!(uid_search_range(u32::MAX), "4294967295:*");
    let meta = metadata_for_uid(7);
    assert_eq!(meta.transport_message_id, "uid-7");
    assert_eq!(meta.transport_subject, "");
    assert_eq!(meta.mailbox_uid, 7);
    assert_eq!(meta.folder, FolderName::Inbox);
}

fn contact(fingerprint: String, trust: TrustState) -> ContactIdentity {
    ContactIdentity {
        email: "bob@example.com".into(),
        device_id: [1u8; 16],
        identity_fingerprint: fingerprint,
        trust_state: trust,
        verified_at: None,
    }
}

#[test]
fn tofu_pins_first_keeps_same_blocks_change() {
    let keys = generate_device_keys(1, 14, 0);
    let bundle = export_public_bundle(&keys);
    let fp = fingerprint_ed25519(&keys.identity.verifying_key);
    let first = tofu_pin(None, &bundle).unwrap();
    assert_eq!(first.pinned_fingerprint, fp);
    assert_eq!(first.trust_state, TrustState::Unverified);
    assert!(!first.changed);
    let pinned = contact(fp.clone(), TrustState::Verified);
    let same = tofu_pin(Some(&pinned), &bundle).unwrap();
    assert_eq!(same.trust_state, TrustState::Verified);
    assert!(!same.changed);
    let other = contact("0000".into(), TrustState::Verified);
    let changed = tofu_pin(Some(&other), &bundle).unwrap();
    assert_eq!(changed.trust_state, TrustState::BlockedIdentityChange);
    assert!(changed.changed);
    assert_eq!(changed.pinned_fingerprint, fp);
}

#[test]
fn safety_number_groups_digest_bytes() {
    let s = safety_number("aaaa", "bbbb");
    let d = sha2::Sha256::digest(b"aaaabbbb");
    let g = |k: usize| u32::from_be_bytes([0, d[5 * k], d[5 * k + 1], d[5 * k + 2]]);
    assert_eq!(s, format!("{:05}-{:05}-{:05}", g(0), g(1), g(2)));
    assert_eq!(safety_number("bbbb", "aaaa"), s);
}

#[test]
fn safety_number_same_for_both_parties() {
    let alice = "ab12 cd34 ef56";
    let bob = "ab12 cd35 0000";
    assert_eq!(safety_number(alice, bob), safety_number(bob, alice));
    assert_eq!(safety_number(alice, alice), safety_number(alice, alice));
    assert_ne!(safety_number(alice, bob), safety_number(alice, "ab12"));
}

#[test]
fn invite_validity_and_mismatch() {
    let keys = generate_device_keys(1_000, 14, 1);
    let invite = invite_from_parts("alice@example.com", [1u8; 16], &keys, 1_000, [9u8; 16], &[7u8; 32]);
    assert_eq!(invite.payload.expires_at, 1_000 + INVITE_LIFETIME_SECONDS);
    assert_eq!(invite.payload.opaque_token_b64, "BwcHBwcHBwcHBwcHBwcHBwcHBwcHBwcHBwcHBwcHBwc");
    assert_eq!(invite.bundle_hint_fingerprint, fingerprint_ed25519(&keys.identity.verifying_key));
    assert_eq!(validate_contact_invite(&invite, 1_000 + INVITE_LIFETIME_SECONDS), Ok(()));
    assert_eq!(validate_contact_invite(&invite, 1_001 + INVITE_LIFETIME_SECONDS), Err(BootstrapError::InviteExpired));
    let responder = generate_device_keys(1_000, 14, 1);
    let mut response = create_invite_response(&invite, "bob@example.com", [2u8; 16], &responder);
    assert_eq!(response.invite_id, [9u8; 16]);
    let other = create_contact_invite("alice@example.com", [1u8; 16], &keys, 1_000);
    assert!(matches!(verify_invite_response(&other, &response, 1_000), Err(BootstrapError::InviteIdMismatch)));
    let expired_at = responder.signed_prekey.expires_unix + 1;
    assert!(matches!(
        verify_invite_response(&invite, &response, expired_at),
        Err(BootstrapError::Crypto(CryptoError::SignedPrekeyExpired))
    ));
    response.bundle.signed_prekey.public_key[0] ^= 1;
    assert!(matches!(
        verify_invite_response(&invite, &response, 1_000),
        Err(BootstrapError::Crypto(CryptoError::SignedPrekeySignatureInvalid))
    ));
}

#[test]
fn bundle_payload_base64_roundtrip() {
    let text = encode_bundle_payload_bytes(b"{\"k\":1}");
    assert_eq!(text, "eyJrIjoxfQ");
    assert_eq!(decode_bundle_payload_bytes(&text).unwrap(), b"{\"k\":1}");
    assert_eq!(decode_bundle_payload_bytes("***"), Err(BootstrapError::InvalidBundleBase64));
}

#[test]
fn service_decisions() {
    let inviter = generate_device_keys(1_000, 14, 1);
    let responder = generate_device_keys(1_000, 14, 1);
    let invite = invite_from_parts("alice@example.com", [1u8; 16], &inviter, 1_000, [9u8; 16], &[0u8; 32]);
    assert!(matches!(
        accept_contact_invite(&invite, "bob@example.com", [2u8; 16], &responder, 1_000 + INVITE_LIFETIME_SECONDS + 1),
        Err(BootstrapError::InviteExpired)
    ));
    let response = accept_contact_invite(&invite, "bob@example.com", [2u8; 16], &responder, 1_000).unwrap();
    let fresh = register_contact_response(&invite, &response, None, 1_000).unwrap();
    assert_eq!(fresh.trust_state, TrustState::Unverified);
    assert_eq!(fresh.email, "bob@example.com");
    let stale = contact("0000".into(), TrustState::Verified);
    let blocked = register_contact_response(&invite, &response, Some(&stale), 1_000).unwrap();
    assert_eq!(blocked.trust_state, TrustState::BlockedIdentityChange);
    assert!(matches!(
        queue_outbound_message(&blocked, [3u8; 16], [4u8; 16], "p".into(), 5),
        Err(AppServiceError::IdentityChanged)
    ));
    let verified = mark_contact_verified(Some(blocked), 55).unwrap();
    assert_eq!(verified.trust_state, TrustState::Verified);
    assert_eq!(verified.verified_at, Some(55));
    assert!(matches!(mark_contact_verified(None, 55), Err(AppServiceError::ContactNotFound)));
    let queued = queue_outbound_message(&verified, [3u8; 16], [4u8; 16], "p".into(), 5).unwrap();
    assert_eq!(queued.delivery_state, DeliveryState::Queued);
    assert_eq!(queued.attempt_count, 0);
    assert_eq!(queued.next_attempt_at, 5);
    assert_eq!(queued.transport_subject, "notes");
    assert_eq!(queued.recipient_email, "bob@example.com");
}

#[test]
fn invalid_peer_ratchet_key_is_refused() {
    assert!(matches!(
        SessionState::init_alice([0u8; 16], [1u8; 32], "not a key"),
        Err(RatchetError::InvalidPeerPublicKey)
    ));
}

#[test]
fn many_in_order_messages_keep_decrypting() {
    let (mut bob, bob_pub) = SessionState::init_bob([0u8; 16], [2u8; 32]);
    let mut alice = SessionState::init_alice([0u8; 16], [2u8; 32], &bob_pub).unwrap();
    for _ in 0..1100 {
        let p = alice.encrypt(b"m", b"");
        assert!(bob.decrypt([1u8; 16], &p, b"").is_ok());
    }
    assert_eq!(bob.replay_cache.len(), 1100);
    assert_eq!(bob.next_message_number, 1100);
    assert!(bob.can_send);
}

#[test]
fn skipped_key_bound_refuses_a_far_jump() {
    let (mut bob, bob_pub) = SessionState::init_bob([0u8; 16], [2u8; 32]);
    let mut alice = SessionState::init_alice([0u8; 16], [2u8; 32], &bob_pub).unwrap();
    assert!(!bob.can_send);
    for _ in 0..1001 {
        alice.encrypt(b"m", b"");
    }
    let far = alice.encrypt(b"m", b"");
    assert_eq!(far.header.message_number, 1001);
    assert_eq!(bob.decrypt([1u8; 16], &far, b""), Err(RatchetError::SkippedKeyBoundExceeded));
    assert!(bob.replay_cache.is_empty());
    assert_eq!(bob.next_message_number, 0);
}

#[test]
fn skips_beyond_the_ratchet_limit_are_refused_and_within_accepted() {
    let (mut bob, bob_pub) = SessionState::init_bob([0u8; 16], [3u8; 32]);
    let mut alice = SessionState::init_alice([0u8; 16], [3u8; 32], &bob_pub).unwrap();
    for _ in 0..50 {
        alice.encrypt(b"m", b"");
    }
    let near = alice.encrypt(b"near", b"");
    assert_eq!(near.header.message_number, 50);
    assert_eq!(bob.decrypt([1u8; 16], &near, b"").unwrap(), b"near".to_vec());
    assert_eq!(bob.next_message_number, 51);
    for _ in 0..101 {
        alice.encrypt(b"m", b"");
    }
    let far = alice.encrypt(b"far", b"");
    assert_eq!(far.header.message_number, 152);
    assert_eq!(bob.decrypt([1u8; 16], &far, b""), Err(RatchetError::SkippedKeyBoundExceeded));
    assert_eq!(bob.next_message_number, 51);
}

#[test]
fn bundle_payload_with_non_alphabet_text_fails() {
    assert_eq!(decode_bundle_payload_bytes("!!"), Err(BootstrapError::InvalidBundleBase64));
    assert_eq!(decode_bundle_payload_bytes("eyJrIjoxfQ=="), Err(BootstrapError::InvalidBundleBase64));
}
