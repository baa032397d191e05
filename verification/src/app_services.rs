//! The decisions of the application service: accepting and registering
//! contacts, marking them verified, and queueing outbound messages.
//! Reading and writing the local store is left to the caller.
use vstd::prelude::*;
use crate::bootstrap::{
    create_invite_response, tofu_decision, tofu_pin, validate_contact_invite,
    verify_invite_response, BootstrapError, ContactInvite, ContactInviteResponse,
};
use crate::crypto::{fingerprint_text, is_exported_bundle, signed_prekey_verifies, DeviceKeys};
use crate::spec_types::{ContactIdentity, DeliveryState, OutboxItem, TrustState};
use crate::text::push_char;

verus! {

#[derive(Debug, Clone, Copy, PartialEq, Eq, Structural)]
pub enum AppServiceError {
    /// The contact's identity key changed; it must be verified again first.
    IdentityChanged,
    /// No contact is stored under the address.
    ContactNotFound,
}

/// Accepts an invitation that has not expired at `now` by answering it with
/// the responder's public bundle.
pub fn accept_contact_invite(
    invite: &ContactInvite,
    responder_email: &str,
    responder_device_id: [u8; 16],
    responder_keys: &DeviceKeys,
    now: i64,
) -> (r: Result<ContactInviteResponse, BootstrapError>)
    ensures
        r is Err <==> invite.payload.expires_at < now,
        r is Err ==> r matches Err(BootstrapError::InviteExpired),
        r matches Ok(resp) ==> {
            &&& resp.invite_id == invite.payload.invite_id
            &&& resp.responder_email@ == responder_email@
            &&& resp.responder_device_id == responder_device_id
            &&& is_exported_bundle(*responder_keys, resp.bundle)
        },
{
    match validate_contact_invite(invite, now) {
        Ok(()) => {},
        Err(e) => {
            return Err(e);
        },
    }
    Ok(create_invite_response(invite, responder_email, responder_device_id, responder_keys))
}

/// Registers the response to an invitation: checks it as
/// `verify_invite_response` does, then applies trust on first use against the
/// contact stored under the same address, if any.
pub fn register_contact_response(
    invite: &ContactInvite,
    response: &ContactInviteResponse,
    existing: Option<&ContactIdentity>,
    now: i64,
) -> (r: Result<ContactIdentity, BootstrapError>)
    ensures
        r is Ok <==> response.invite_id@ == invite.payload.invite_id@ && signed_prekey_verifies(
            response.bundle,
        ) && response.bundle.signed_prekey.expires_unix >= now,
        response.invite_id@ != invite.payload.invite_id@ ==> r matches Err(
            BootstrapError::InviteIdMismatch,
        ),
        r matches Ok(c) ==> {
            let fingerprint = fingerprint_text(response.bundle.identity_ed25519_public@);
            let existing_value = match existing {
                Some(e) => Some(*e),
                None => None,
            };
            &&& c.email@ == response.responder_email@
            &&& c.device_id == response.responder_device_id
            &&& c.identity_fingerprint@ == fingerprint
            &&& c.trust_state == tofu_decision(existing_value, fingerprint).0
            &&& c.verified_at is None
        },
{
    let verified = match verify_invite_response(invite, response, now) {
        Ok(c) => c,
        Err(e) => {
            return Err(e);
        },
    };
    let decision = match tofu_pin(existing, &response.bundle) {
        Ok(d) => d,
        Err(e) => {
            return Err(e);
        },
    };
    let mut contact = verified;
    contact.trust_state = decision.trust_state;
    Ok(contact)
}

/// Marks a stored contact verified at `now`.
pub fn mark_contact_verified(stored: Option<ContactIdentity>, now: i64) -> (r: Result<ContactIdentity, AppServiceError>)
    ensures
        stored is None ==> r matches Err(AppServiceError::ContactNotFound),
        stored matches Some(c) ==> (r matches Ok(v) && v.email == c.email && v.device_id
            == c.device_id && v.identity_fingerprint == c.identity_fingerprint && v.trust_state
            == TrustState::Verified && v.verified_at == Some(now)),
{
    match stored {
        None => Err(AppServiceError::ContactNotFound),
        Some(contact) => {
            let mut contact = contact;
            contact.trust_state = TrustState::Verified;
            contact.verified_at = Some(now);
            Ok(contact)
        },
    }
}

/// Queues a message for a contact: refused while the contact is blocked by
/// an identity change; otherwise a queued item with no attempts, due at
/// `now`, under the subject "notes".
pub fn queue_outbound_message(
    contact: &ContactIdentity,
    message_id: [u8; 16],
    session_id: [u8; 16],
    payload_b64: String,
    now: i64,
) -> (r: Result<OutboxItem, AppServiceError>)
    ensures
        r is Err <==> contact.trust_state == TrustState::BlockedIdentityChange,
        r is Err ==> r matches Err(AppServiceError::IdentityChanged),
        r matches Ok(item) ==> {
            &&& item.message_id == message_id
            &&& item.session_id == session_id
            &&& item.recipient_email@ == contact.email@
            &&& item.delivery_state == DeliveryState::Queued
            &&& item.attempt_count == 0
            &&& item.next_attempt_at == now
            &&& item.payload_b64 == payload_b64
            &&& item.transport_subject@ == seq!['n', 'o', 't', 'e', 's']
        },
{
    if contact.trust_state == TrustState::BlockedIdentityChange {
        return Err(AppServiceError::IdentityChanged);
    }
    let mut subject = String::new();
    push_char(&mut subject, 'n');
    push_char(&mut subject, 'o');
    push_char(&mut subject, 't');
    push_char(&mut subject, 'e');
    push_char(&mut subject, 's');
    Ok(
        OutboxItem {
            message_id,
            session_id,
            recipient_email: String::from_str(contact.email.as_str()),
            delivery_state: DeliveryState::Queued,
            attempt_count: 0,
            next_attempt_at: now,
            payload_b64,
            transport_subject: subject,
        },
    )
}

} // verus!
