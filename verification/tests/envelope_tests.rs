use base64::Engine;
use mimicrypt::crypto::{fingerprint_ed25519, generate_device_keys, sign_bytes, SignedEnvelope};
use mimicrypt::envelope::{
    canonical_attachment_order, frame_envelope, open_message, padded_plaintext, seal_message,
    seal_and_open_on_fresh_sessions, unpad_plaintext, EnvelopeError,
};
use mimicrypt::ratchet::{
    exchange_on_fresh_sessions, RatchetCiphertext, RatchetError, RatchetHeaderWire, SessionState,
};
use mimicrypt::spec_types::{
    AttachmentManifest, MessageType, ProtocolHeader, RatchetHeaderData, SpecError, WireTimestamp, CIPHER_SUITE_V1,
};
use mimicrypt::wire::{decode_wire_envelope, encode_signed_payload, encode_wire_envelope, WireEnvelope};

fn timestamp() -> WireTimestamp {
    WireTimestamp {
        year: 2024,
        ordinal: 60,
        hour: 12,
        minute: 30,
        second: 5,
        nanosecond: 123,
        offset_hours: 0,
        offset_minutes: 0,
        offset_seconds: 0,
    }
}

fn sample_envelope() -> WireEnvelope {
    WireEnvelope {
        header: ProtocolHeader {
            protocol_version: 1,
            message_type: MessageType::Ciphertext,
            cipher_suite_id: CIPHER_SUITE_V1.to_string(),
            session_id: [1u8; 16],
            sender_device_id: [2u8; 16],
            sender_fingerprint: "abcd-ef".to_string(),
            timestamp: timestamp(),
        },
        ratchet_header: RatchetHeaderData {
            ratchet_public_key: vec![5, 6, 7],
            message_number: 3,
            previous_chain_length: 4,
        },
        ratchet_header_bytes: vec![8, 9],
        nonce: [10u8; 12],
        ciphertext: vec![11, 12, 13, 14],
        signature: SignedEnvelope { signer_public_key: [15u8; 32], signature: vec![16u8; 64] },
    }
}

#[test]
fn padding_buckets() {
    assert_eq!(padded_plaintext(&[]).len(), 512);
    assert_eq!(padded_plaintext(&[1u8; 512]).len(), 512);
    assert_eq!(padded_plaintext(&[1u8; 513]).len(), 1024);
    assert_eq!(padded_plaintext(&[1u8; 2000]).len(), 2048);
    assert_eq!(padded_plaintext(&[1u8; 4096]).len(), 4096);
    assert_eq!(padded_plaintext(&[1u8; 8192]).len(), 8192);
    assert_eq!(padded_plaintext(&[1u8; 8193]).len(), 16384);
    assert_eq!(padded_plaintext(&[1u8; 16384]).len(), 32768);
    let p = padded_plaintext(b"hi");
    assert_eq!(&p[..2], b"hi");
    assert!(p[2..].iter().all(|b| *b == 0));
}

#[test]
fn unpadding_stops_at_first_zero() {
    assert_eq!(unpad_plaintext(&padded_plaintext(b"{\"a\":1}")), b"{\"a\":1}");
    assert_eq!(unpad_plaintext(b"ab\0cd"), b"ab");
    assert_eq!(unpad_plaintext(b"abc"), b"abc");
    assert_eq!(unpad_plaintext(b""), b"");
}

#[test]
fn wire_roundtrip_with_trailing_bytes() {
    let w = sample_envelope();
    let mut bytes = encode_wire_envelope(&w);
    bytes.extend_from_slice(b"trailing");
    let back = decode_wire_envelope(&bytes).unwrap();
    assert_eq!(back.header.protocol_version, 1);
    assert_eq!(back.header.message_type, MessageType::Ciphertext);
    assert_eq!(back.header.cipher_suite_id, CIPHER_SUITE_V1);
    assert_eq!(back.header.session_id, [1u8; 16]);
    assert_eq!(back.header.sender_device_id, [2u8; 16]);
    assert_eq!(back.header.sender_fingerprint, "abcd-ef");
    assert_eq!(back.header.timestamp, timestamp());
    assert_eq!(back.ratchet_header.ratchet_public_key, vec![5, 6, 7]);
    assert_eq!(back.ratchet_header.message_number, 3);
    assert_eq!(back.ratchet_header.previous_chain_length, 4);
    assert_eq!(back.ratchet_header_bytes, vec![8, 9]);
    assert_eq!(back.nonce, [10u8; 12]);
    assert_eq!(back.ciphertext, vec![11, 12, 13, 14]);
    assert_eq!(back.signature.signer_public_key, [15u8; 32]);
    assert_eq!(back.signature.signature, vec![16u8; 64]);
}

#[test]
fn wire_layout_matches_fixed_width_little_endian() {
    let w = sample_envelope();
    let bytes = encode_wire_envelope(&w);
    // protocol version, then message type index 2, then the suite's length prefix
    assert_eq!(&bytes[0..2], &[1, 0]);
    assert_eq!(&bytes[2..6], &[2, 0, 0, 0]);
    assert_eq!(&bytes[6..14], &(CIPHER_SUITE_V1.len() as u64).to_le_bytes());
    let signed = encode_signed_payload(&w.header, &w.ratchet_header, &w.ciphertext);
    // the signed payload is header, ratchet header and the ciphertext
    let header_and_ratchet = signed.len() - 8 - 4;
    assert_eq!(&bytes[..header_and_ratchet], &signed[..header_and_ratchet]);
    assert_eq!(&signed[header_and_ratchet..header_and_ratchet + 8], &4u64.to_le_bytes());
    assert_eq!(&signed[header_and_ratchet + 8..], &[11, 12, 13, 14]);
}

#[test]
fn wire_rejects_truncation_bad_type_and_bad_time() {
    let w = sample_envelope();
    let bytes = encode_wire_envelope(&w);
    for cut in [0, 1, 5, 20, bytes.len() - 1] {
        assert!(decode_wire_envelope(&bytes[..cut]).is_none());
    }
    let mut bad_type = bytes.clone();
    bad_type[2] = 7;
    assert!(decode_wire_envelope(&bad_type).is_none());
    let mut bad_time = sample_envelope();
    bad_time.header.timestamp.hour = 24;
    assert!(decode_wire_envelope(&encode_wire_envelope(&bad_time)).is_none());
    let mut bad_day = sample_envelope();
    bad_day.header.timestamp.ordinal = 367;
    assert!(decode_wire_envelope(&encode_wire_envelope(&bad_day)).is_none());
    let mut bad_offset = sample_envelope();
    bad_offset.header.timestamp.offset_hours = 30;
    assert!(decode_wire_envelope(&encode_wire_envelope(&bad_offset)).is_none());
}

#[test]
fn wire_rejects_invalid_utf8_and_wrong_id_length() {
    let w = sample_envelope();
    let mut bytes = encode_wire_envelope(&w);
    // first byte of the cipher suite text
    bytes[14] = 0xff;
    assert!(decode_wire_envelope(&bytes).is_none());
    let mut short_id = encode_wire_envelope(&w);
    let pos = 14 + CIPHER_SUITE_V1.len();
    short_id[pos] = 15;
    assert!(decode_wire_envelope(&short_id).is_none());
}

fn sessions(session_id: [u8; 16]) -> (SessionState, SessionState) {
    let (bob, bob_pub) = SessionState::init_bob(session_id, [3u8; 32]);
    let alice = SessionState::init_alice(session_id, [3u8; 32], &bob_pub).unwrap();
    (alice, bob)
}

#[test]
fn sealed_message_opens_once() {
    let keys = generate_device_keys(1, 14, 0);
    let session_id = [4u8; 16];
    let (mut alice, mut bob) = sessions(session_id);
    let fp = fingerprint_ed25519(&keys.identity.verifying_key);
    let sealed = seal_message(&keys, [5u8; 16], fp, &mut alice, session_id, b"{\"body\":\"hello\"}");
    let bytes = base64::engine::general_purpose::STANDARD_NO_PAD.decode(&sealed).unwrap();
    let w = decode_wire_envelope(&bytes).unwrap();
    assert_eq!(w.header.message_type, MessageType::Ciphertext);
    assert_eq!(w.header.session_id, session_id);
    assert_eq!(w.header.sender_device_id, [5u8; 16]);
    assert_eq!(w.signature.signer_public_key, keys.identity.verifying_key);
    assert_eq!(w.ciphertext.len(), 512 + 16);
    let opened = open_message(&sealed, [5u8; 16], &mut bob).unwrap();
    assert_eq!(opened, b"{\"body\":\"hello\"}");
    assert!(matches!(
        open_message(&sealed, [5u8; 16], &mut bob),
        Err(EnvelopeError::Ratchet(RatchetError::ReplayDetected))
    ));
}

#[test]
fn open_rejects_bad_transport_texts() {
    let (_alice, mut bob) = sessions([6u8; 16]);
    assert!(matches!(open_message("!!!", [0u8; 16], &mut bob), Err(EnvelopeError::InvalidBase64)));
    assert!(matches!(open_message("AAAA", [0u8; 16], &mut bob), Err(EnvelopeError::MalformedEnvelope)));
}

fn payload_of(alice: &mut SessionState) -> RatchetCiphertext {
    alice.encrypt(b"x", b"")
}

#[test]
fn open_rejects_other_versions_suites_and_signatures() {
    let keys = generate_device_keys(1, 14, 0);
    let session_id = [7u8; 16];
    let (mut alice, mut bob) = sessions(session_id);
    let payload = payload_of(&mut alice);

    let mut w = WireEnvelope {
        header: ProtocolHeader {
            protocol_version: 2,
            message_type: MessageType::Ciphertext,
            cipher_suite_id: CIPHER_SUITE_V1.to_string(),
            session_id,
            sender_device_id: [1u8; 16],
            sender_fingerprint: "fp".to_string(),
            timestamp: timestamp(),
        },
        ratchet_header: RatchetHeaderData {
            ratchet_public_key: payload.header.public_key.clone(),
            message_number: payload.header.message_number,
            previous_chain_length: payload.header.previous_chain_length,
        },
        ratchet_header_bytes: payload.header.serialized_header.clone(),
        nonce: payload.nonce,
        ciphertext: payload.ciphertext.clone(),
        signature: SignedEnvelope { signer_public_key: [0u8; 32], signature: vec![] },
    };
    let text = |w: &WireEnvelope| base64::engine::general_purpose::STANDARD_NO_PAD.encode(encode_wire_envelope(w));
    assert!(matches!(
        open_message(&text(&w), [1u8; 16], &mut bob),
        Err(EnvelopeError::Spec(SpecError::UnsupportedVersion(2)))
    ));
    w.header.protocol_version = 1;
    w.header.cipher_suite_id = "other".to_string();
    match open_message(&text(&w), [1u8; 16], &mut bob) {
        Err(EnvelopeError::Spec(SpecError::UnsupportedCipherSuite(c))) => assert_eq!(c, "other"),
        other => panic!("unexpected {:?}", other.map(|_| ())),
    }
    w.header.cipher_suite_id = CIPHER_SUITE_V1.to_string();
    let signed = encode_signed_payload(&w.header, &w.ratchet_header, &w.ciphertext);
    let mut sig = sign_bytes(&keys.identity, &signed);
    sig.signature[3] ^= 0x40;
    w.signature = sig;
    assert!(matches!(open_message(&text(&w), [1u8; 16], &mut bob), Err(EnvelopeError::Crypto(_))));
    w.signature = sign_bytes(&keys.identity, &signed);
    let opened = open_message(&text(&w), [1u8; 16], &mut bob).unwrap();
    assert_eq!(opened, b"x");
}

#[test]
fn framed_envelope_carries_its_parts() {
    let keys = generate_device_keys(1, 14, 0);
    let payload = RatchetCiphertext {
        header: RatchetHeaderWire {
            serialized_header: vec![1, 2, 3],
            public_key: vec![4, 5],
            message_number: 9,
            previous_chain_length: 8,
        },
        ciphertext: vec![7, 7, 7],
        nonce: [6u8; 12],
    };
    let text = frame_envelope(&keys.identity, [1u8; 16], "fp".to_string(), [2u8; 16], timestamp(), payload);
    let bytes = base64::engine::general_purpose::STANDARD_NO_PAD.decode(&text).unwrap();
    let w = decode_wire_envelope(&bytes).unwrap();
    assert_eq!(w.header.protocol_version, 1);
    assert_eq!(w.header.sender_fingerprint, "fp");
    assert_eq!(w.ratchet_header.message_number, 9);
    assert_eq!(w.ratchet_header.previous_chain_length, 8);
    assert_eq!(w.ratchet_header_bytes, vec![1, 2, 3]);
    assert_eq!(w.nonce, [6u8; 12]);
    assert_eq!(w.ciphertext, vec![7, 7, 7]);
    let signed = encode_signed_payload(&w.header, &w.ratchet_header, &w.ciphertext);
    assert_eq!(mimicrypt::crypto::verify_signature(&signed, &w.signature), Ok(()));
}

#[test]
fn padded_length_depends_only_on_bucket() {
    assert_eq!(padded_plaintext(&[1u8; 3000]).len(), padded_plaintext(&[1u8; 4000]).len());
    assert_ne!(padded_plaintext(&[1u8; 4096]).len(), padded_plaintext(&[1u8; 4097]).len());
    assert_eq!(padded_plaintext(&[1u8; 20000]).len(), padded_plaintext(&[1u8; 30000]).len());
    assert_eq!(padded_plaintext(&[1u8; 20000]).len(), 32768);
    assert_eq!(padded_plaintext(&[1u8; 40000]).len() % 512, 0);
}

fn attachment(first: u8, last: u8) -> AttachmentManifest {
    let mut id = [0u8; 16];
    id[0] = first;
    id[15] = last;
    AttachmentManifest {
        attachment_id: id,
        mime_type: String::from("text/plain"),
        file_extension: None,
        plaintext_len: 1,
        padded_len: 512,
        chunk_size: 512,
        chunk_count: 1,
        sha256: vec![0u8; 32],
    }
}

#[test]
fn attachments_are_ordered_by_id_stably() {
    let items = vec![attachment(9, 0), attachment(1, 5), attachment(9, 0), attachment(1, 2), attachment(200, 0)];
    assert_eq!(canonical_attachment_order(&items), vec![3, 1, 0, 2, 4]);
    assert_eq!(canonical_attachment_order(&[]), Vec::<usize>::new());
}

#[test]
fn fresh_sessions_exchange_in_order() {
    let (a, b, n0, n1) =
        exchange_on_fresh_sessions([4u8; 16], [8u8; 32], [1u8; 16], b"hello", b"again", b"aad").unwrap();
    assert_eq!(a, b"hello".to_vec());
    assert_eq!(b, b"again".to_vec());
    assert_eq!((n0, n1), (0, 1));
}

#[test]
fn sealed_message_opens_on_fresh_peer() {
    let keys = generate_device_keys(1_000, 14, 1);
    let fp = fingerprint_ed25519(&keys.identity.verifying_key);
    let json = b"{\"body\":\"hello\"}";
    let (first, second) = seal_and_open_on_fresh_sessions(&keys, [5u8; 16], fp, [6u8; 16], [42u8; 32], json);
    assert_eq!(first.unwrap(), json.to_vec());
    assert!(matches!(second, Err(EnvelopeError::Ratchet(RatchetError::ReplayDetected))));
}

#[test]
fn permuted_attachments_get_the_same_order() {
    let a = vec![attachment(3, 0), attachment(1, 0), attachment(2, 0)];
    let b = vec![attachment(2, 0), attachment(3, 0), attachment(1, 0)];
    let ids = |v: &Vec<AttachmentManifest>| -> Vec<[u8; 16]> {
        canonical_attachment_order(v).into_iter().map(|i| v[i].attachment_id).collect()
    };
    assert_eq!(ids(&a), ids(&b));
}
