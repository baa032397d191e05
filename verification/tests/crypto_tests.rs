use mimicrypt::crypto::{
    consume_one_time_prekey, decrypt_chacha20, derive_bootstrap_root_key_initiator,
    derive_bootstrap_root_key_responder, encrypt_chacha20, export_public_bundle,
    fingerprint_ed25519, generate_device_keys, maybe_validate_signed_prekey_age,
    random_nonce_96, random_x25519_private, sha256, sign_bytes, verify_signature,
    verify_signed_prekey, CryptoError,
};
use sha2::Digest;

fn hex(bytes: &[u8]) -> String {
    bytes.iter().map(|b| format!("{:02x}", b)).collect()
}

#[test]
fn sha256_matches_known_vector() {
    let d = sha256(b"abc");
    assert_eq!(hex(&d), "ba7816bf8f01cfea414140de5dae2223b00361a396177a9cb410ff61f20015ad");
}

#[test]
fn fingerprint_is_four_hex_groups_of_the_key_digest() {
    let keys = generate_device_keys(1_700_000_000, 14, 0);
    let fp = fingerprint_ed25519(&keys.identity.verifying_key);
    let digest = sha2::Sha256::digest(keys.identity.verifying_key);
    let h = hex(&digest[..16]);
    let expected = format!("{}-{}-{}-{}", &h[0..8], &h[8..16], &h[16..24], &h[24..32]);
    assert_eq!(fp, expected);
    assert_eq!(fp.len(), 35);
}

#[test]
fn generated_keys_have_fresh_prekey_ids_and_expiry() {
    let keys = generate_device_keys(1_000, 2, 3);
    assert_eq!(keys.signed_prekey.key_id, 1);
    assert_eq!(keys.signed_prekey.created_unix, 1_000);
    assert_eq!(keys.signed_prekey.expires_unix, 1_000 + 2 * 86_400);
    let ids: Vec<u32> = keys.one_time_prekeys_public.iter().map(|k| k.key_id).collect();
    assert_eq!(ids, vec![0, 1, 2]);
    assert_eq!(keys.one_time_prekeys_private.len(), 3);
    assert_ne!(keys.identity.verifying_key, keys.identity.signing_key);
    assert_ne!(keys.x25519_identity_public, keys.x25519_identity_private);
}

#[test]
fn export_carries_public_halves() {
    let keys = generate_device_keys(5, 1, 2);
    let bundle = export_public_bundle(&keys);
    assert_eq!(bundle.cipher_suite_id, "X25519+Ed25519+HKDF-SHA256+DR+ChaCha20Poly1305");
    assert_eq!(bundle.identity_ed25519_public, keys.identity.verifying_key);
    assert_eq!(bundle.identity_x25519_public, keys.x25519_identity_public);
    assert_eq!(bundle.signed_prekey.signature, keys.signed_prekey.signature);
    assert_eq!(bundle.one_time_prekeys.len(), 2);
}

#[test]
fn tampered_prekey_signature_is_rejected() {
    let keys = generate_device_keys(1_700_000_000, 14, 1);
    let mut bundle = export_public_bundle(&keys);
    bundle.signed_prekey.signature[0] ^= 1;
    assert_eq!(verify_signed_prekey(&bundle), Err(CryptoError::SignedPrekeySignatureInvalid));
}

#[test]
fn short_prekey_signature_is_rejected() {
    let keys = generate_device_keys(1_700_000_000, 14, 1);
    let mut bundle = export_public_bundle(&keys);
    bundle.signed_prekey.signature.pop();
    assert_eq!(verify_signed_prekey(&bundle), Err(CryptoError::InvalidSignedPrekeySignatureLength));
}

#[test]
fn invalid_identity_key_is_rejected() {
    let keys = generate_device_keys(1_700_000_000, 14, 1);
    let mut bundle = export_public_bundle(&keys);
    // y = 2 does not lie on the curve
    let mut bad = [0u8; 32];
    bad[0] = 2;
    bundle.identity_ed25519_public = bad;
    assert_eq!(verify_signed_prekey(&bundle), Err(CryptoError::InvalidIdentityKey));
}

#[test]
fn signature_over_bytes_verifies_and_detects_changes() {
    let keys = generate_device_keys(1, 1, 0);
    let envelope = sign_bytes(&keys.identity, b"payload");
    assert_eq!(envelope.signer_public_key, keys.identity.verifying_key);
    assert_eq!(envelope.signature.len(), 64);
    assert_eq!(verify_signature(b"payload", &envelope), Ok(()));
    assert_eq!(verify_signature(b"payloaD", &envelope), Err(CryptoError::EnvelopeSignatureInvalid));
    let mut short = sign_bytes(&keys.identity, b"payload");
    short.signature.truncate(10);
    assert_eq!(verify_signature(b"payload", &short), Err(CryptoError::InvalidEnvelopeSignatureLength));
}

#[test]
fn root_keys_agree_without_one_time_prekey() {
    let alice = generate_device_keys(1, 1, 0);
    let bob = generate_device_keys(1, 1, 0);
    let eph = random_x25519_private();
    let eph_pub = x25519_dalek::PublicKey::from(&x25519_dalek::StaticSecret::from(eph)).to_bytes();
    let a = derive_bootstrap_root_key_initiator(
        alice.x25519_identity_private,
        eph,
        bob.x25519_identity_public,
        bob.signed_prekey.public_key,
        None,
    )
    .unwrap();
    let b = derive_bootstrap_root_key_responder(
        bob.x25519_identity_private,
        bob.signed_prekey_private,
        None,
        alice.x25519_identity_public,
        eph_pub,
    )
    .unwrap();
    assert_eq!(a, b);
    assert_ne!(a, eph);
    assert_ne!(a, [0u8; 32]);
}

#[test]
fn root_key_depends_on_the_one_time_prekey() {
    let alice = generate_device_keys(1, 1, 0);
    let bob = generate_device_keys(1, 1, 1);
    let eph = random_x25519_private();
    let with = derive_bootstrap_root_key_initiator(
        alice.x25519_identity_private,
        eph,
        bob.x25519_identity_public,
        bob.signed_prekey.public_key,
        Some(bob.one_time_prekeys_public[0].public_key),
    )
    .unwrap();
    let without = derive_bootstrap_root_key_initiator(
        alice.x25519_identity_private,
        eph,
        bob.x25519_identity_public,
        bob.signed_prekey.public_key,
        None,
    )
    .unwrap();
    assert_ne!(with, without);
}

#[test]
fn consume_removes_the_prekey_from_both_lists() {
    let mut keys = generate_device_keys(1, 1, 3);
    let expected = keys.one_time_prekeys_private[1];
    let secret = consume_one_time_prekey(&mut keys, 1).unwrap();
    assert_eq!(secret, expected);
    let ids: Vec<u32> = keys.one_time_prekeys_public.iter().map(|k| k.key_id).collect();
    assert_eq!(ids, vec![0, 2]);
    assert_eq!(keys.one_time_prekeys_private.len(), 2);
    assert_eq!(consume_one_time_prekey(&mut keys, 1), Err(CryptoError::OneTimePrekeyNotFound(1)));
}

#[test]
fn chacha20_roundtrip_and_wrong_key() {
    let key = [9u8; 32];
    let nonce = random_nonce_96();
    let ciphertext = encrypt_chacha20(&key, &nonce, b"secret message", b"aad").unwrap();
    assert_eq!(ciphertext.len(), b"secret message".len() + 16);
    assert_ne!(&ciphertext[..14], b"secret message");
    assert_eq!(decrypt_chacha20(&key, &nonce, &ciphertext, b"aad").unwrap(), b"secret message");
    assert_eq!(decrypt_chacha20(&[8u8; 32], &nonce, &ciphertext, b"aad"), Err(CryptoError::DecryptionFailed));
    assert_eq!(decrypt_chacha20(&key, &nonce, &ciphertext, b"other"), Err(CryptoError::DecryptionFailed));
}

#[test]
fn expired_signed_prekey_is_refused() {
    let keys = generate_device_keys(100, 1, 0);
    let bundle = export_public_bundle(&keys);
    let expires = keys.signed_prekey.expires_unix;
    assert_eq!(maybe_validate_signed_prekey_age(&bundle, expires), Ok(()));
    assert_eq!(maybe_validate_signed_prekey_age(&bundle, expires + 1), Err(CryptoError::SignedPrekeyExpired));
}

#[test]
fn consume_absent_id_with_short_secret_list_is_not_found() {
    let mut keys = generate_device_keys(1, 1, 3);
    keys.one_time_prekeys_private.truncate(1);
    assert_eq!(consume_one_time_prekey(&mut keys, 7), Err(CryptoError::OneTimePrekeyNotFound(7)));
    assert_eq!(keys.one_time_prekeys_public.len(), 3);
    let first = keys.one_time_prekeys_private[0];
    assert_eq!(consume_one_time_prekey(&mut keys, 0), Ok(first));
}
