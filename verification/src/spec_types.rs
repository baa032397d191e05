//! Shared wire types, protocol constants and the version check.
use vstd::prelude::*;

verus! {

/// The only protocol version this library speaks.
pub const PROTOCOL_VERSION_V1: u16 = 1;

/// The cipher suite identifier of protocol version 1.
pub const CIPHER_SUITE_V1: &'static str = "X25519+Ed25519+HKDF-SHA256+DR+ChaCha20Poly1305";

/// Lifetime of a freshly generated signed prekey, in days.
pub const DEFAULT_SIGNED_PREKEY_LIFETIME_DAYS: i64 = 14;

/// Number of one-time prekeys a device keeps in stock.
pub const DEFAULT_ONE_TIME_PREKEY_STOCK: usize = 100;

/// The most message keys a session skips to accept one message; a message that
/// would make it skip more is refused.
pub const MAX_SKIPPED_MESSAGE_KEYS: usize = 1000;

/// Capacity of a session's replay cache; the oldest entry is dropped beyond it.
pub const MAX_REPLAY_CACHE_PER_SESSION: usize = 4096;

/// Earliest instant representable by the calendar (-9999-01-01T00:00:00Z), in Unix seconds.
pub const MIN_UNIX_SECONDS: i64 = -377705116800;

/// Latest instant representable by the calendar (9999-12-31T23:59:59Z), in Unix seconds.
pub const MAX_UNIX_SECONDS: i64 = 253402300799;

/// Number of seconds in a day.
pub const SECONDS_PER_DAY: i64 = 86400;

/// True when `t` is an instant the calendar can represent.
pub open spec fn instant_in_range(t: int) -> bool {
    MIN_UNIX_SECONDS <= t <= MAX_UNIX_SECONDS
}

/// The cipher suite identifier of protocol version 1, as characters.
pub open spec fn cipher_suite_v1() -> Seq<char> {
    CIPHER_SUITE_V1@
}

/// The characters of the version-1 cipher suite identifier.
pub proof fn lemma_cipher_suite_v1_text()
    ensures
        cipher_suite_v1() == "X25519+Ed25519+HKDF-SHA256+DR+ChaCha20Poly1305"@,
        cipher_suite_v1().len() == 46,
        cipher_suite_v1()[0] == 'X',
{
    reveal_strlit("X25519+Ed25519+HKDF-SHA256+DR+ChaCha20Poly1305");
}

#[derive(Debug, Clone, Copy, PartialEq, Eq, Structural)]
pub enum MessageType {
    ContactInvite,
    PrekeyBundle,
    Ciphertext,
    DeliveryReceipt,
    ReadReceipt,
    KeyRotation,
    IdentityChange,
}

#[derive(Debug, Clone, Copy, PartialEq, Eq, Structural)]
pub enum TrustState {
    Unverified,
    Verified,
    BlockedIdentityChange,
}

#[derive(Debug, Clone, Copy, PartialEq, Eq, Structural)]
pub enum DeliveryState {
    Draft,
    Encrypted,
    Queued,
    SmtpInFlight,
    SmtpAccepted,
    FetchedByPeer,
    DecryptedByPeer,
    ReadByPeer,
    FailedRetryable,
    FailedTerminal,
}

#[derive(Debug, Clone, Copy, PartialEq, Eq, Structural)]
pub enum FolderName {
    Inbox,
    Archive,
    Spam,
}

/// The IMAP name of a folder.
pub open spec fn folder_name_text(folder: FolderName) -> Seq<char> {
    match folder {
        FolderName::Inbox => "INBOX"@,
        FolderName::Archive => "Archive"@,
        FolderName::Spam => "Spam"@,
    }
}

impl FolderName {
    /// The IMAP name of the folder ("INBOX", "Archive" or "Spam").
    pub fn to_string(&self) -> (r: String)
        ensures
            r@ == folder_name_text(*self),
    {
        match self {
            FolderName::Inbox => String::from_str("INBOX"),
            FolderName::Archive => String::from_str("Archive"),
            FolderName::Spam => String::from_str("Spam"),
        }
    }
}

/// An instant as the calendar serialises it on the wire: year, day of the year,
/// time of day, nanoseconds and the UTC offset.
#[derive(Debug, Clone, Copy, PartialEq, Eq, Structural)]
pub struct WireTimestamp {
    pub year: i32,
    pub ordinal: u16,
    pub hour: u8,
    pub minute: u8,
    pub second: u8,
    pub nanosecond: u32,
    pub offset_hours: i8,
    pub offset_minutes: i8,
    pub offset_seconds: i8,
}

#[derive(Debug)]
pub struct ProtocolHeader {
    pub protocol_version: u16,
    pub message_type: MessageType,
    pub cipher_suite_id: String,
    pub session_id: [u8; 16],
    pub sender_device_id: [u8; 16],
    pub sender_fingerprint: String,
    pub timestamp: WireTimestamp,
}

/// The value of a protocol header: its texts and identifiers as sequences.
pub struct HeaderValue {
    pub protocol_version: u16,
    pub message_type: MessageType,
    pub cipher_suite_id: Seq<char>,
    pub session_id: Seq<u8>,
    pub sender_device_id: Seq<u8>,
    pub sender_fingerprint: Seq<char>,
    pub timestamp: WireTimestamp,
}

impl View for ProtocolHeader {
    type V = HeaderValue;

    open spec fn view(&self) -> HeaderValue {
        HeaderValue {
            protocol_version: self.protocol_version,
            message_type: self.message_type,
            cipher_suite_id: self.cipher_suite_id@,
            session_id: self.session_id@,
            sender_device_id: self.sender_device_id@,
            sender_fingerprint: self.sender_fingerprint@,
            timestamp: self.timestamp,
        }
    }
}

#[derive(Debug)]
pub struct RatchetHeaderData {
    pub ratchet_public_key: Vec<u8>,
    pub message_number: u32,
    pub previous_chain_length: u32,
}

/// The value of a ratchet header.
pub struct RatchetHeaderValue {
    pub ratchet_public_key: Seq<u8>,
    pub message_number: u32,
    pub previous_chain_length: u32,
}

impl View for RatchetHeaderData {
    type V = RatchetHeaderValue;

    open spec fn view(&self) -> RatchetHeaderValue {
        RatchetHeaderValue {
            ratchet_public_key: self.ratchet_public_key@,
            message_number: self.message_number,
            previous_chain_length: self.previous_chain_length,
        }
    }
}

#[derive(Debug)]
pub struct AttachmentManifest {
    pub attachment_id: [u8; 16],
    pub mime_type: String,
    pub file_extension: Option<String>,
    pub plaintext_len: u64,
    pub padded_len: u64,
    pub chunk_size: u32,
    pub chunk_count: u32,
    pub sha256: Vec<u8>,
}

/// The tuple by which a received message is recognised again.
#[derive(Debug)]
pub struct ReplayKey {
    pub session_id: [u8; 16],
    pub sender_device_id: [u8; 16],
    pub ratchet_public_key: Vec<u8>,
    pub message_number: u32,
    pub ciphertext_sha256: Vec<u8>,
}

/// The value of a replay key: its fields as sequences and numbers.
pub struct ReplayKeyValue {
    pub session_id: Seq<u8>,
    pub sender_device_id: Seq<u8>,
    pub ratchet_public_key: Seq<u8>,
    pub message_number: u32,
    pub ciphertext_sha256: Seq<u8>,
}

impl View for ReplayKey {
    type V = ReplayKeyValue;

    open spec fn view(&self) -> ReplayKeyValue {
        ReplayKeyValue {
            session_id: self.session_id@,
            sender_device_id: self.sender_device_id@,
            ratchet_public_key: self.ratchet_public_key@,
            message_number: self.message_number,
            ciphertext_sha256: self.ciphertext_sha256@,
        }
    }
}

#[derive(Debug)]
pub struct ContactIdentity {
    pub email: String,
    pub device_id: [u8; 16],
    pub identity_fingerprint: String,
    pub trust_state: TrustState,
    /// When the user verified the contact out of band, in Unix seconds.
    pub verified_at: Option<i64>,
}

#[derive(Debug, Clone, Copy, PartialEq, Eq, Structural)]
pub struct MailboxCursor {
    pub folder: FolderName,
    pub last_uid: u32,
}

#[derive(Debug)]
pub struct OutboxItem {
    pub message_id: [u8; 16],
    pub session_id: [u8; 16],
    pub recipient_email: String,
    pub delivery_state: DeliveryState,
    pub attempt_count: u32,
    /// Earliest instant of the next send attempt, in Unix seconds.
    pub next_attempt_at: i64,
    pub payload_b64: String,
    pub transport_subject: String,
}

#[derive(Debug)]
pub struct AppMessage {
    pub message_id: [u8; 16],
    pub session_id: [u8; 16],
    pub sender_email: String,
    pub sender_device_id: [u8; 16],
    pub body: String,
    /// Creation instant, in Unix seconds.
    pub created_at: i64,
    pub attachments: Vec<AttachmentManifest>,
    pub delivery_state: DeliveryState,
}

#[derive(Debug, Clone, Copy)]
pub struct DeliveryReceiptPayload {
    pub original_message_id: [u8; 16],
    pub state: DeliveryState,
    /// Instant of the observation, in Unix seconds.
    pub observed_at: i64,
}

#[derive(Debug)]
pub struct InvitePayload {
    pub invite_id: [u8; 16],
    pub inviter_email: String,
    pub inviter_device_id: [u8; 16],
    /// Issue instant, in Unix seconds.
    pub issued_at: i64,
    /// Expiry instant, in Unix seconds.
    pub expires_at: i64,
    pub opaque_token_b64: String,
}

#[derive(Debug)]
pub struct EnvelopeMetadata {
    pub transport_message_id: String,
    pub transport_subject: String,
    pub mailbox_uid: u32,
    pub folder: FolderName,
}

#[derive(Debug)]
pub enum SpecError {
    UnsupportedVersion(u16),
    UnsupportedCipherSuite(String),
}

impl SpecError {
    /// The human-readable description of the error.
    pub fn message(&self) -> (r: String)
        ensures
            r@ == spec_error_text(*self),
    {
        match self {
            SpecError::UnsupportedVersion(v) => {
                let mut s = String::from_str("unsupported protocol version ");
                crate::text::push_decimal(&mut s, *v as u64);
                s
            },
            SpecError::UnsupportedCipherSuite(c) => {
                let s = String::from_str("unsupported cipher suite ");
                s.concat(c.as_str())
            },
        }
    }
}

/// The human-readable description of a protocol error.
pub open spec fn spec_error_text(e: SpecError) -> Seq<char> {
    match e {
        SpecError::UnsupportedVersion(v) => "unsupported protocol version "@ + crate::text::decimal(
            v as nat,
        ),
        SpecError::UnsupportedCipherSuite(c) => "unsupported cipher suite "@ + c@,
    }
}

/// Accepts exactly protocol version 1 with the version-1 cipher suite; the
/// version is checked first.
pub fn ensure_v1(protocol_version: u16, cipher_suite_id: &str) -> (r: Result<(), SpecError>)
    ensures
        protocol_version != PROTOCOL_VERSION_V1 ==> (r matches Err(SpecError::UnsupportedVersion(v))
            && v == protocol_version),
        protocol_version == PROTOCOL_VERSION_V1 && cipher_suite_id@ != cipher_suite_v1()
            ==> (r matches Err(SpecError::UnsupportedCipherSuite(c)) && c@ == cipher_suite_id@),
        r is Ok <==> (protocol_version == PROTOCOL_VERSION_V1 && cipher_suite_id@
            == cipher_suite_v1()),
{
    if protocol_version != PROTOCOL_VERSION_V1 {
        return Err(SpecError::UnsupportedVersion(protocol_version));
    }
    let given = String::from_str(cipher_suite_id);
    let expected = String::from_str(CIPHER_SUITE_V1);
    if !(given == expected) {
        return Err(SpecError::UnsupportedCipherSuite(given));
    }
    Ok(())
}

} // verus!
