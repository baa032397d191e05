//! Peer-to-peer bootstrap: contact invitations, invite responses carrying a
//! signed prekey bundle, trust-on-first-use pinning and safety numbers.
use vstd::prelude::*;
use vstd::utf8::encode_utf8;
use crate::crypto::{
    export_public_bundle, fingerprint_ed25519, fingerprint_text, is_exported_bundle,
    maybe_validate_signed_prekey_age, signed_prekey_verifies, verify_signed_prekey, CryptoError,
    DeviceKeys, PrekeyBundlePublic,
};
use crate::primitives::{
    is_uuid_v4, base64_alphabet_char, base64_decode, base64_decode_no_pad, base64_encode, base64_encode_no_pad, ed25519_key_decodes,
    random_bytes, sha256_digest, sha256_of, uuid_new_v4,
};
use crate::spec_types::{instant_in_range, ContactIdentity, InvitePayload, TrustState};
use crate::text::{
    bytes_come_first, bytes_precede, decimal_padded, lemma_bytes_precede_total, push_char,
    push_decimal_padded, same_id, utf8_bytes,
};

verus! {

broadcast use vstd::seq_lib::group_seq_properties;

/// How long an invitation stays valid: three days, in seconds.
pub const INVITE_LIFETIME_SECONDS: i64 = 259200;

#[derive(Debug)]
pub struct ContactInvite {
    pub payload: InvitePayload,
    pub bundle_hint_fingerprint: String,
}

#[derive(Debug)]
pub struct ContactInviteResponse {
    pub invite_id: [u8; 16],
    pub responder_email: String,
    pub responder_device_id: [u8; 16],
    pub bundle: PrekeyBundlePublic,
}

#[derive(Debug)]
pub struct TrustDecision {
    pub pinned_fingerprint: String,
    pub trust_state: TrustState,
    pub changed: bool,
}

#[derive(Debug, Clone, Copy, PartialEq, Eq, Structural)]
pub enum BootstrapError {
    /// The invitation expired before the given instant.
    InviteExpired,
    /// The response answers another invitation.
    InviteIdMismatch,
    /// The bundle's signed prekey failed its checks.
    Crypto(CryptoError),
    /// The bundle payload is not base64.
    InvalidBundleBase64,
}

/// An invitation built from its parts: issued at `now`, valid for three
/// days, carrying the token in base64 and the fingerprint of the inviter's
/// identity key.
pub fn invite_from_parts(
    inviter_email: &str,
    inviter_device_id: [u8; 16],
    inviter_keys: &DeviceKeys,
    now: i64,
    invite_id: [u8; 16],
    token: &[u8; 32],
) -> (r: ContactInvite)
    requires
        instant_in_range(now as int),
        instant_in_range(now + INVITE_LIFETIME_SECONDS),
    ensures
        r.payload.invite_id == invite_id,
        r.payload.inviter_email@ == inviter_email@,
        r.payload.inviter_device_id == inviter_device_id,
        r.payload.issued_at == now,
        r.payload.expires_at == now + INVITE_LIFETIME_SECONDS,
        r.payload.opaque_token_b64@ == base64_encode(token@),
        base64_decode(r.payload.opaque_token_b64@) == Some(token@),
        r.bundle_hint_fingerprint@ == fingerprint_text(inviter_keys.identity.verifying_key@),
{
    ContactInvite {
        payload: InvitePayload {
            invite_id,
            inviter_email: String::from_str(inviter_email),
            inviter_device_id,
            issued_at: now,
            expires_at: now + INVITE_LIFETIME_SECONDS,
            opaque_token_b64: base64_encode_no_pad(token.as_slice()),
        },
        bundle_hint_fingerprint: fingerprint_ed25519(&inviter_keys.identity.verifying_key),
    }
}

/// A fresh invitation: a random invite id (a version-4 UUID, so never an id
/// without those bits, such as the device id given) and a random 32-byte
/// token, issued at `now` and valid for three days.
pub fn create_contact_invite(inviter_email: &str, inviter_device_id: [u8; 16], inviter_keys: &DeviceKeys, now: i64) -> (r: ContactInvite)
    requires
        instant_in_range(now as int),
        instant_in_range(now + INVITE_LIFETIME_SECONDS),
    ensures
        r.payload.inviter_email@ == inviter_email@,
        r.payload.inviter_device_id == inviter_device_id,
        r.payload.issued_at == now,
        r.payload.expires_at == now + INVITE_LIFETIME_SECONDS,
        exists|token: Seq<u8>| token.len() == 32 && r.payload.opaque_token_b64@ == base64_encode(token),
        base64_decode(r.payload.opaque_token_b64@) matches Some(token) && token.len() == 32,
        is_uuid_v4(r.payload.invite_id@),
        r.bundle_hint_fingerprint@ == fingerprint_text(inviter_keys.identity.verifying_key@),
{
    let token = random_bytes::<32>();
    let invite_id = uuid_new_v4();
    invite_from_parts(inviter_email, inviter_device_id, inviter_keys, now, invite_id, &token)
}

/// Refuses an invitation that expired before `now`.
pub fn validate_contact_invite(invite: &ContactInvite, now: i64) -> (r: Result<(), BootstrapError>)
    ensures
        r is Err <==> invite.payload.expires_at < now,
        r is Err ==> r == Err::<(), BootstrapError>(BootstrapError::InviteExpired),
{
    if invite.payload.expires_at < now {
        return Err(BootstrapError::InviteExpired);
    }
    Ok(())
}

/// The response to an invitation: the responder's address, device and public bundle.
pub fn create_invite_response(
    invite: &ContactInvite,
    responder_email: &str,
    responder_device_id: [u8; 16],
    responder_keys: &DeviceKeys,
) -> (r: ContactInviteResponse)
    ensures
        r.invite_id == invite.payload.invite_id,
        r.responder_email@ == responder_email@,
        r.responder_device_id == responder_device_id,
        is_exported_bundle(*responder_keys, r.bundle),
        responder_keys.wf() ==> signed_prekey_verifies(r.bundle),
{
    ContactInviteResponse {
        invite_id: invite.payload.invite_id,
        responder_email: String::from_str(responder_email),
        responder_device_id,
        bundle: export_public_bundle(responder_keys),
    }
}

/// Checks a response against its invitation: the invite ids must agree, the
/// bundle's signed prekey must verify and must not have expired before
/// `now`. The contact it yields is unverified.
pub fn verify_invite_response(invite: &ContactInvite, response: &ContactInviteResponse, now: i64) -> (r: Result<ContactIdentity, BootstrapError>)
    ensures
        response.invite_id@ != invite.payload.invite_id@ ==> r == Err::<ContactIdentity, BootstrapError>(
            BootstrapError::InviteIdMismatch,
        ),
        response.invite_id@ == invite.payload.invite_id@ && !signed_prekey_verifies(response.bundle)
            ==> (r matches Err(BootstrapError::Crypto(e)) && e != CryptoError::SignedPrekeyExpired),
        response.invite_id@ == invite.payload.invite_id@ && signed_prekey_verifies(response.bundle)
            && response.bundle.signed_prekey.expires_unix < now ==> r == Err::<
            ContactIdentity,
            BootstrapError,
        >(BootstrapError::Crypto(CryptoError::SignedPrekeyExpired)),
        r is Ok <==> response.invite_id@ == invite.payload.invite_id@ && signed_prekey_verifies(
            response.bundle,
        ) && response.bundle.signed_prekey.expires_unix >= now,
        r matches Ok(c) ==> {
            &&& c.email@ == response.responder_email@
            &&& c.device_id == response.responder_device_id
            &&& c.identity_fingerprint@ == fingerprint_text(response.bundle.identity_ed25519_public@)
            &&& c.trust_state == TrustState::Unverified
            &&& c.verified_at is None
        },
{
    if !same_id(&response.invite_id, &invite.payload.invite_id) {
        return Err(BootstrapError::InviteIdMismatch);
    }
    match verify_signed_prekey(&response.bundle) {
        Ok(()) => {},
        Err(e) => {
            return Err(BootstrapError::Crypto(e));
        },
    }
    match maybe_validate_signed_prekey_age(&response.bundle, now) {
        Ok(()) => {},
        Err(e) => {
            return Err(BootstrapError::Crypto(e));
        },
    }
    Ok(
        ContactIdentity {
            email: String::from_str(response.responder_email.as_str()),
            device_id: response.responder_device_id,
            identity_fingerprint: fingerprint_ed25519(&response.bundle.identity_ed25519_public),
            trust_state: TrustState::Unverified,
            verified_at: None,
        },
    )
}

/// The trust-on-first-use decision for a presented identity fingerprint:
/// a first contact is pinned unverified; the pinned fingerprint keeps its
/// trust state; any other fingerprint blocks the contact as an identity change.
pub open spec fn tofu_decision(existing: Option<ContactIdentity>, fingerprint: Seq<char>) -> (TrustState, bool) {
    match existing {
        None => (TrustState::Unverified, false),
        Some(e) => if e.identity_fingerprint@ == fingerprint {
            (e.trust_state, false)
        } else {
            (TrustState::BlockedIdentityChange, true)
        },
    }
}

/// Pins the bundle's identity key on first use and compares it with the
/// pinned one afterwards.
pub fn tofu_pin(existing: Option<&ContactIdentity>, bundle: &PrekeyBundlePublic) -> (r: Result<TrustDecision, BootstrapError>)
    ensures
        r is Ok,
        r matches Ok(d) ==> {
            let fingerprint = fingerprint_text(bundle.identity_ed25519_public@);
            let existing_value = match existing {
                Some(e) => Some(*e),
                None => None,
            };
            &&& d.pinned_fingerprint@ == fingerprint
            &&& (d.trust_state, d.changed) == tofu_decision(existing_value, fingerprint)
        },
        r matches Ok(d) ==> match existing {
            None => d.trust_state == TrustState::Unverified && !d.changed,
            Some(e) => if e.identity_fingerprint@ == fingerprint_text(bundle.identity_ed25519_public@) {
                d.trust_state == e.trust_state && !d.changed
            } else {
                d.trust_state == TrustState::BlockedIdentityChange && d.changed
            },
        },
{
    let fingerprint = fingerprint_ed25519(&bundle.identity_ed25519_public);
    match existing {
        None => Ok(
            TrustDecision {
                pinned_fingerprint: fingerprint,
                trust_state: TrustState::Unverified,
                changed: false,
            },
        ),
        Some(e) => {
            if e.identity_fingerprint == fingerprint {
                Ok(
                    TrustDecision {
                        pinned_fingerprint: fingerprint,
                        trust_state: e.trust_state,
                        changed: false,
                    },
                )
            } else {
                Ok(
                    TrustDecision {
                        pinned_fingerprint: fingerprint,
                        trust_state: TrustState::BlockedIdentityChange,
                        changed: true,
                    },
                )
            }
        },
    }
}

/// Trust on first use: a contact seen for the first time is pinned
/// unverified; presenting the pinned key again keeps the contact's trust
/// state; presenting any other key, whatever the contact's trust state,
/// blocks the contact as an identity change.
pub proof fn lemma_tofu_blocks_identity_change(existing: Option<ContactIdentity>, fingerprint: Seq<char>)
    ensures
        existing is None ==> tofu_decision(existing, fingerprint) == (TrustState::Unverified, false),
        forall|e: ContactIdentity|
            existing == Some(e) && e.identity_fingerprint@ != fingerprint ==> #[trigger] tofu_decision(
                Some(e),
                fingerprint,
            ) == (TrustState::BlockedIdentityChange, true),
        forall|e: ContactIdentity|
            existing == Some(e) && e.identity_fingerprint@ == fingerprint ==> #[trigger] tofu_decision(
                Some(e),
                fingerprint,
            ) == (e.trust_state, false),
{
}

/// Trust on first use depends on the identity key alone: bundles with the
/// same identity key get the same decision whatever their signed prekeys, and
/// a contact pinned by a decision keeps its trust state when the same key is
/// presented again.
pub proof fn lemma_tofu_depends_on_identity_only(
    existing: Option<ContactIdentity>,
    first: PrekeyBundlePublic,
    second: PrekeyBundlePublic,
)
    requires
        first.identity_ed25519_public == second.identity_ed25519_public,
    ensures
        tofu_decision(existing, fingerprint_text(first.identity_ed25519_public@)) == tofu_decision(
            existing,
            fingerprint_text(second.identity_ed25519_public@),
        ),
        match existing {
            Some(e) => e.identity_fingerprint@ == fingerprint_text(first.identity_ed25519_public@)
                ==> tofu_decision(existing, fingerprint_text(first.identity_ed25519_public@)).0
                == e.trust_state,
            None => tofu_decision(existing, fingerprint_text(first.identity_ed25519_public@))
                == (TrustState::Unverified, false),
        },
{
}

/// One five-digit group of a safety number: the first three of five digest
/// bytes read as a big-endian number.
pub open spec fn safety_group(digest: Seq<u8>, k: int) -> nat {
    (digest[5 * k] as nat) * 65536 + (digest[5 * k + 1] as nat) * 256 + (digest[5 * k + 2] as nat)
}

/// The two fingerprints' UTF-8 bytes, the lexicographically smaller first.
pub open spec fn fingerprints_in_order(a: Seq<char>, b: Seq<char>) -> Seq<u8> {
    if bytes_precede(encode_utf8(a), encode_utf8(b)) {
        encode_utf8(a) + encode_utf8(b)
    } else {
        encode_utf8(b) + encode_utf8(a)
    }
}

/// The safety number shown for out-of-band comparison: three groups of at
/// least five decimal digits, joined by '-', from the SHA-256 digest of the
/// two fingerprints in lexicographic order of their bytes, so both parties
/// compute the same number.
pub open spec fn safety_number_text(local_fingerprint: Seq<char>, remote_fingerprint: Seq<char>) -> Seq<char> {
    let d = sha256_digest(fingerprints_in_order(local_fingerprint, remote_fingerprint));
    decimal_padded(safety_group(d, 0), 5) + seq!['-'] + decimal_padded(safety_group(d, 1), 5)
        + seq!['-'] + decimal_padded(safety_group(d, 2), 5)
}

/// Both parties see the same safety number: it does not depend on which
/// fingerprint is the local one.
pub proof fn lemma_safety_number_symmetric(a: Seq<char>, b: Seq<char>)
    ensures
        safety_number_text(a, b) == safety_number_text(b, a),
{
    lemma_bytes_precede_total(encode_utf8(a), encode_utf8(b));
    assert(fingerprints_in_order(a, b) == fingerprints_in_order(b, a));
}

/// The safety number of two fingerprints.
pub fn safety_number(local_fingerprint: &str, remote_fingerprint: &str) -> (r: String)
    ensures
        r@ == safety_number_text(local_fingerprint@, remote_fingerprint@),
{
    let local = utf8_bytes(local_fingerprint);
    let remote = utf8_bytes(remote_fingerprint);
    let (first, second) = if bytes_come_first(local.as_slice(), remote.as_slice()) {
        (local, remote)
    } else {
        (remote, local)
    };
    let mut bytes = first;
    let mut i: usize = 0;
    let ghost start = bytes@;
    while i < second.len()
        invariant
            i <= second@.len(),
            bytes@ == start + second@.subrange(0, i as int),
        decreases second@.len() - i,
    {
        bytes.push(second[i]);
        i = i + 1;
        assert(bytes@ =~= start + second@.subrange(0, i as int));
    }
    assert(second@.subrange(0, second@.len() as int) =~= second@);
    assert(bytes@ == fingerprints_in_order(local_fingerprint@, remote_fingerprint@));
    let digest = sha256_of(bytes.as_slice());
    let ghost d = digest@;
    let mut s = String::new();
    let g0 = (digest[0] as u64) * 65536 + (digest[1] as u64) * 256 + (digest[2] as u64);
    push_decimal_padded(&mut s, g0, 5);
    push_char(&mut s, '-');
    let g1 = (digest[5] as u64) * 65536 + (digest[6] as u64) * 256 + (digest[7] as u64);
    push_decimal_padded(&mut s, g1, 5);
    push_char(&mut s, '-');
    let g2 = (digest[10] as u64) * 65536 + (digest[11] as u64) * 256 + (digest[12] as u64);
    push_decimal_padded(&mut s, g2, 5);
    assert(g0 == safety_group(d, 0));
    assert(g1 == safety_group(d, 1));
    assert(g2 == safety_group(d, 2));
    assert(s@ =~= safety_number_text(local_fingerprint@, remote_fingerprint@));
    s
}

/// The transport text of a bundle payload: its (JSON) bytes in base64.
pub fn encode_bundle_payload_bytes(json: &[u8]) -> (r: String)
    ensures
        r@ == base64_encode(json@),
        base64_decode(r@) == Some(json@),
{
    base64_encode_no_pad(json)
}

/// The bytes of a bundle payload transport text; fails when it is not base64.
pub fn decode_bundle_payload_bytes(encoded: &str) -> (r: Result<Vec<u8>, BootstrapError>)
    ensures
        r is Ok <==> base64_decode(encoded@) is Some,
        r is Err ==> r == Err::<Vec<u8>, BootstrapError>(BootstrapError::InvalidBundleBase64),
        (exists|i: int| 0 <= i < encoded@.len() && !base64_alphabet_char(#[trigger] encoded@[i]))
            ==> r is Err,
        r matches Ok(b) ==> base64_decode(encoded@) == Some(b@),
{
    match base64_decode_no_pad(encoded) {
        Ok(b) => Ok(b),
        Err(_) => Err(BootstrapError::InvalidBundleBase64),
    }
}

} // verus!
