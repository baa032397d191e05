//! The calls into the cryptographic, encoding, identifier and time crates.
//!
//! Every item here is trusted: its contract is taken from the crate's source
//! and documentation, not proved. Results that only the crate computes are
//! given a name (an uninterpreted spec function of the call's arguments);
//! results that depend on randomness or the clock get no name.
use vstd::prelude::*;
use crate::spec_types::WireTimestamp;
use crate::text::uuid_hyphenated;
use core::str::FromStr;
use ed25519_dalek::{Signer, Verifier};
use rand::RngCore;
use sha2::Digest;
use chacha20poly1305::aead::{Aead, NewAead};
use base64::Engine;

verus! {

#[verifier::external_type_specification]
#[verifier::external_body]
pub struct ExAeadError(chacha20poly1305::aead::Error);

#[verifier::external_type_specification]
#[verifier::external_body]
pub struct ExHkdfInvalidLength(hkdf::InvalidLength);

#[verifier::external_type_specification]
#[verifier::external_body]
pub struct ExBase64DecodeError(base64::DecodeError);

#[verifier::external_type_specification]
#[verifier::external_body]
pub struct ExRatchet(double_ratchet_2::ratchet::Ratchet);

/// The SHA-256 digest of `data` (32 bytes).
pub uninterp spec fn sha256_digest(data: Seq<u8>) -> Seq<u8>;

/// The Ed25519 verifying key of a 32-byte signing key.
pub uninterp spec fn ed25519_public_of(secret: Seq<u8>) -> Seq<u8>;

/// The Ed25519 signature of `message` under a 32-byte signing key.
pub uninterp spec fn ed25519_signature(secret: Seq<u8>, message: Seq<u8>) -> Seq<u8>;

/// Whether 32 bytes are the compressed form of a point that Ed25519 accepts as a verifying key.
pub uninterp spec fn ed25519_key_decodes(public: Seq<u8>) -> bool;

/// Whether a 64-byte signature of `message` verifies under a verifying key.
pub uninterp spec fn ed25519_signature_valid(public: Seq<u8>, message: Seq<u8>, signature: Seq<u8>) -> bool;

/// The X25519 public key of a 32-byte secret.
pub uninterp spec fn x25519_public_of(secret: Seq<u8>) -> Seq<u8>;

/// The X25519 shared secret of a secret and a public key.
pub uninterp spec fn x25519_shared(secret: Seq<u8>, public: Seq<u8>) -> Seq<u8>;

/// HKDF-SHA256 (extract with `salt`, expand with `info`) to `len` bytes.
pub uninterp spec fn hkdf_sha256(salt: Seq<u8>, ikm: Seq<u8>, info: Seq<u8>, len: nat) -> Seq<u8>;

/// The ChaCha20-Poly1305 ciphertext (with its tag appended).
pub uninterp spec fn chacha20_seal(key: Seq<u8>, nonce: Seq<u8>, plaintext: Seq<u8>, aad: Seq<u8>) -> Seq<u8>;

/// The ChaCha20-Poly1305 plaintext of a ciphertext, when it authenticates.
pub uninterp spec fn chacha20_open(key: Seq<u8>, nonce: Seq<u8>, ciphertext: Seq<u8>, aad: Seq<u8>) -> Option<Seq<u8>>;

/// Standard base64 without padding.
pub uninterp spec fn base64_encode(bytes: Seq<u8>) -> Seq<char>;

/// The bytes of a standard base64 text without padding, when it is one.
pub uninterp spec fn base64_decode(text: Seq<char>) -> Option<Seq<u8>>;


/// Whether a text is a PEM-encoded P-256 public key.
pub uninterp spec fn p256_key_text_valid(text: Seq<char>) -> bool;

/// Whether the `time` crate accepts a year: from -9999 to 9999, or from
/// -999999 to 999999 when its `large-dates` feature is enabled, which the
/// build's feature resolution decides.
pub uninterp spec fn calendar_year_in_range(year: i32) -> bool;

/// Whether a year is a leap year of the proleptic Gregorian calendar.
pub open spec fn is_leap_year(year: i32) -> bool {
    year % 4 == 0 && (year % 100 != 0 || year % 400 == 0)
}

/// Whether a year and a day of that year form a calendar date.
pub open spec fn calendar_date_valid(year: i32, ordinal: u16) -> bool {
    &&& calendar_year_in_range(year)
    &&& (1 <= ordinal <= 365 || (ordinal == 366 && is_leap_year(year)))
}

/// Whether hour, minute, second and nanosecond form a time of day.
pub open spec fn clock_time_valid(hour: u8, minute: u8, second: u8, nanosecond: u32) -> bool {
    hour < 24 && minute < 60 && second < 60 && nanosecond < 1_000_000_000
}

/// Whether hours, minutes and seconds form a UTC offset: each within its
/// range (the signs need not agree; the crate flips smaller components).
pub open spec fn utc_offset_valid(hours: i8, minutes: i8, seconds: i8) -> bool {
    -25 <= hours <= 25 && -59 <= minutes <= 59 && -59 <= seconds <= 59
}

/// Whether a `double_ratchet_2` ratchet holds a sending chain key
/// (its private field `cks` is set), which `ratchet_encrypt` unwraps.
pub uninterp spec fn ratchet_can_send(ratchet: double_ratchet_2::ratchet::Ratchet) -> bool;

/// The message header a ratchet puts on the next message it encrypts, as
/// plain values: its serialisation by `Header::concat` with empty associated
/// data, the sender's ratchet public key as the bytes of its PEM text, the
/// message number and the previous chain length.
pub struct RatchetHeaderView {
    pub serialized: Seq<u8>,
    pub public_key: Seq<u8>,
    pub n: nat,
    pub pn: nat,
}

/// The header of the next message from a ratchet in this state (`ratchet_encrypt`
/// builds it from the ratchet's key pair and counters alone).
pub uninterp spec fn ratchet_next_header(ratchet: double_ratchet_2::ratchet::Ratchet) -> RatchetHeaderView;

/// The ciphertext `ratchet_encrypt` produces from a ratchet in this state for
/// a plaintext and associated data under a nonce: AES-256-GCM-SIV under the
/// sending chain's next message key, with the serialised header followed by
/// the associated data as its associated data.
pub uninterp spec fn ratchet_sealed(
    ratchet: double_ratchet_2::ratchet::Ratchet,
    plaintext: Seq<u8>,
    aad: Seq<u8>,
    nonce: Seq<u8>,
) -> Seq<u8>;

/// The state of a ratchet after `ratchet_encrypt` (its sending chain and
/// message counter advanced; nothing random enters it).
pub uninterp spec fn ratchet_after_send(ratchet: double_ratchet_2::ratchet::Ratchet) -> double_ratchet_2::ratchet::Ratchet;

/// Whether a ratchet in state `receiver` decrypts the next message of a
/// ratchet in state `sender` and has accepted no later message from it: the
/// receiver holds, or derives on a new chain, the sender's next message key.
pub uninterp spec fn ratchet_in_step(
    sender: double_ratchet_2::ratchet::Ratchet,
    receiver: double_ratchet_2::ratchet::Ratchet,
) -> bool;

/// Whether a ratchet is as `Ratchet::init_bob` leaves it for this root key,
/// with a key pair whose public key has this PEM text.
pub uninterp spec fn ratchet_awaiting(
    ratchet: double_ratchet_2::ratchet::Ratchet,
    root_key: Seq<u8>,
    public_key_text: Seq<char>,
) -> bool;

/// What `double_ratchet_2::ratchet::Ratchet::ratchet_decrypt` returns from a
/// ratchet in the given state, for the header rebuilt from its serialised
/// bytes, a ciphertext, a nonce and associated data: the plaintext, or `None`
/// on the inputs where the crate panics instead of returning. Decryption
/// draws no randomness, so the result depends on these values alone.
pub uninterp spec fn ratchet_opened(
    ratchet: double_ratchet_2::ratchet::Ratchet,
    serialized_header: Seq<u8>,
    ciphertext: Seq<u8>,
    nonce: Seq<u8>,
    aad: Seq<u8>,
) -> Option<Seq<u8>>;

/// Whether the calendar accepts all parts of a wire timestamp.
pub open spec fn wire_timestamp_valid(t: WireTimestamp) -> bool {
    &&& calendar_date_valid(t.year, t.ordinal)
    &&& clock_time_valid(t.hour, t.minute, t.second, t.nanosecond)
    &&& utc_offset_valid(t.offset_hours, t.offset_minutes, t.offset_seconds)
}

/// `sha2::Sha256::digest`: the SHA-256 digest of `data`.
#[verifier::external_body]
pub(crate) fn sha256_of(data: &[u8]) -> (r: [u8; 32])
    ensures
        r@ == sha256_digest(data@),
{
    sha2::Sha256::digest(data).into()
}

/// `ed25519_dalek::SigningKey::generate` with the operating system's RNG: a
/// fresh signing key, returned as its 32 secret bytes. Nothing is stated of it.
#[verifier::external_body]
pub(crate) fn ed25519_generate() -> (r: [u8; 32]) {
    ed25519_dalek::SigningKey::generate(&mut rand::rngs::OsRng).to_bytes()
}

/// `ed25519_dalek::SigningKey::verifying_key`: the verifying key of a signing
/// key, which is always a key that `VerifyingKey::from_bytes` accepts.
#[verifier::external_body]
pub(crate) fn ed25519_verifying_key(secret: &[u8; 32]) -> (r: [u8; 32])
    ensures
        r@ == ed25519_public_of(secret@),
        ed25519_key_decodes(r@),
{
    ed25519_dalek::SigningKey::from_bytes(secret).verifying_key().to_bytes()
}

/// `ed25519_dalek::SigningKey::sign`: the (deterministic) Ed25519 signature,
/// which verifies under the signing key's verifying key.
#[verifier::external_body]
pub(crate) fn ed25519_sign(secret: &[u8; 32], message: &[u8]) -> (r: Vec<u8>)
    ensures
        r@ == ed25519_signature(secret@, message@),
        r@.len() == 64,
        ed25519_signature_valid(ed25519_public_of(secret@), message@, r@),
{
    ed25519_dalek::SigningKey::from_bytes(secret).sign(message).to_bytes().to_vec()
}

/// `ed25519_dalek::VerifyingKey::from_bytes`: whether the bytes decode to a verifying key.
#[verifier::external_body]
pub(crate) fn ed25519_key_is_valid(public: &[u8; 32]) -> (r: bool)
    ensures
        r == ed25519_key_decodes(public@),
{
    ed25519_dalek::VerifyingKey::from_bytes(public).is_ok()
}

/// `ed25519_dalek::Verifier::verify` on a `VerifyingKey`: whether the
/// signature verifies. The key and the 64 signature bytes are converted
/// first, which cannot fail here.
#[verifier::external_body]
pub(crate) fn ed25519_verify(public: &[u8; 32], message: &[u8], signature: &[u8]) -> (r: bool)
    requires
        ed25519_key_decodes(public@),
        signature@.len() == 64,
    ensures
        r == ed25519_signature_valid(public@, message@, signature@),
{
    match (ed25519_dalek::VerifyingKey::from_bytes(public), <[u8; 64]>::try_from(signature)) {
        (Ok(key), Ok(bytes)) => key.verify(message, &ed25519_dalek::Signature::from_bytes(&bytes)).is_ok(),
        _ => false,
    }
}

/// `x25519_dalek::StaticSecret::random_from_rng` with the operating system's
/// RNG, returned as its 32 bytes. Nothing is stated of it.
#[verifier::external_body]
pub(crate) fn x25519_random_secret() -> (r: [u8; 32]) {
    x25519_dalek::StaticSecret::random_from_rng(rand::rngs::OsRng).to_bytes()
}

/// `x25519_dalek::PublicKey::from(&StaticSecret)`: the public key of a secret.
#[verifier::external_body]
pub(crate) fn x25519_public_key(secret: &[u8; 32]) -> (r: [u8; 32])
    ensures
        r@ == x25519_public_of(secret@),
{
    x25519_dalek::PublicKey::from(&x25519_dalek::StaticSecret::from(*secret)).to_bytes()
}

/// `x25519_dalek::StaticSecret::diffie_hellman`: the shared secret. Both
/// parties compute the same value: the secret of one with the public key of
/// the other equals the secret of the other with the public key of the one.
#[verifier::external_body]
pub(crate) fn x25519_diffie_hellman(secret: &[u8; 32], public: &[u8; 32]) -> (r: [u8; 32])
    ensures
        r@ == x25519_shared(secret@, public@),
        forall|other: Seq<u8>|
            other.len() == 32 && #[trigger] x25519_public_of(other) == public@ ==> r@ == x25519_shared(
                other,
                x25519_public_of(secret@),
            ),
{
    x25519_dalek::StaticSecret::from(*secret).diffie_hellman(&x25519_dalek::PublicKey::from(*public)).to_bytes()
}

/// `hkdf::Hkdf::<Sha256>::new` followed by `expand` into 32 bytes; expansion
/// fails only beyond 255 hash lengths, so it succeeds here.
#[verifier::external_body]
pub(crate) fn hkdf_sha256_32(salt: &[u8], ikm: &[u8], info: &[u8]) -> (r: Result<[u8; 32], hkdf::InvalidLength>)
    ensures
        r is Ok,
        r is Ok ==> r->Ok_0@ == hkdf_sha256(salt@, ikm@, info@, 32),
{
    let hk = hkdf::Hkdf::<sha2::Sha256>::new(Some(salt), ikm);
    let mut okm = [0u8; 32];
    match hk.expand(info, &mut okm) {
        Ok(()) => Ok(okm),
        Err(e) => Err(e),
    }
}

/// `chacha20poly1305::ChaCha20Poly1305::encrypt`: fails only when the
/// plaintext has 2^32 - 1 or more 64-byte blocks; the ciphertext carries a
/// 16-byte tag and decrypts back to the plaintext.
#[verifier::external_body]
pub(crate) fn chacha20_encrypt(key: &[u8; 32], nonce: &[u8; 12], plaintext: &[u8], aad: &[u8]) -> (r: Result<Vec<u8>, chacha20poly1305::aead::Error>)
    ensures
        r is Ok <==> plaintext@.len() / 64 < 0xffff_ffff,
        r matches Ok(c) ==> {
            &&& c@ == chacha20_seal(key@, nonce@, plaintext@, aad@)
            &&& c@.len() == plaintext@.len() + 16
            &&& chacha20_open(key@, nonce@, c@, aad@) == Some(plaintext@)
        },
{
    let cipher = chacha20poly1305::ChaCha20Poly1305::new(chacha20poly1305::Key::from_slice(key));
    cipher.encrypt(chacha20poly1305::Nonce::from_slice(nonce), chacha20poly1305::aead::Payload { msg: plaintext, aad })
}

/// `chacha20poly1305::ChaCha20Poly1305::decrypt`: the plaintext exactly when
/// the ciphertext authenticates under the key, nonce and associated data.
#[verifier::external_body]
pub(crate) fn chacha20_decrypt(key: &[u8; 32], nonce: &[u8; 12], ciphertext: &[u8], aad: &[u8]) -> (r: Result<Vec<u8>, chacha20poly1305::aead::Error>)
    ensures
        r is Ok <==> chacha20_open(key@, nonce@, ciphertext@, aad@) is Some,
        r matches Ok(p) ==> chacha20_open(key@, nonce@, ciphertext@, aad@) == Some(p@),
{
    let cipher = chacha20poly1305::ChaCha20Poly1305::new(chacha20poly1305::Key::from_slice(key));
    cipher.decrypt(chacha20poly1305::Nonce::from_slice(nonce), chacha20poly1305::aead::Payload { msg: ciphertext, aad })
}

/// `rand::RngCore::fill_bytes` on the operating system's RNG. Nothing is stated of the bytes.
#[verifier::external_body]
pub(crate) fn random_bytes<const N: usize>() -> (r: [u8; N]) {
    let mut bytes = [0u8; N];
    rand::rngs::OsRng.fill_bytes(&mut bytes);
    bytes
}

/// `uuid::Uuid::new_v4`: a random identifier, returned as its 16 bytes. The
/// random value is masked to carry the version-4 and RFC 4122 variant bits:
/// the high nibble of byte 6 is 4 and the top two bits of byte 8 are `10`.
/// Nothing else is stated of it.
#[verifier::external_body]
pub(crate) fn uuid_new_v4() -> (r: [u8; 16])
    ensures
        is_uuid_v4(r@),
{
    uuid::Uuid::new_v4().into_bytes()
}

/// Whether 16 bytes carry the version-4 and RFC 4122 variant bits of a
/// random UUID.
pub open spec fn is_uuid_v4(id: Seq<u8>) -> bool {
    id.len() == 16 && id[6] / 16 == 4 && id[8] / 64 == 2
}

/// `Display` of `uuid::Uuid`: the hyphenated lowercase text of an
/// identifier, its sixteen bytes in hexadecimal in groups of 8, 4, 4, 4 and
/// 12 digits joined by '-'.
#[verifier::external_body]
pub(crate) fn uuid_to_text(id: &[u8; 16]) -> (r: String)
    ensures
        r@ == uuid_hyphenated(id@),
{
    uuid::Uuid::from_bytes(*id).to_string()
}

/// `base64::Engine::encode` with `STANDARD_NO_PAD`; decoding the text gives the bytes back.
#[verifier::external_body]
pub(crate) fn base64_encode_no_pad(bytes: &[u8]) -> (r: String)
    ensures
        r@ == base64_encode(bytes@),
        base64_decode(r@) == Some(bytes@),
{
    base64::engine::general_purpose::STANDARD_NO_PAD.encode(bytes)
}

/// Whether a character is one of the 64 symbols of the standard base64 alphabet.
pub open spec fn base64_alphabet_char(c: char) -> bool {
    ('A' <= c <= 'Z') || ('a' <= c <= 'z') || ('0' <= c <= '9') || c == '+' || c == '/'
}

/// `base64::Engine::decode` with `STANDARD_NO_PAD`. Text holding a character
/// outside the standard alphabet fails: any other byte is an invalid symbol,
/// and this configuration refuses '=' padding as well.
#[verifier::external_body]
pub(crate) fn base64_decode_no_pad(text: &str) -> (r: Result<Vec<u8>, base64::DecodeError>)
    ensures
        r is Ok <==> base64_decode(text@) is Some,
        r matches Ok(b) ==> base64_decode(text@) == Some(b@),
        (exists|i: int| 0 <= i < text@.len() && !base64_alphabet_char(#[trigger] text@[i])) ==> r is Err,
{
    base64::engine::general_purpose::STANDARD_NO_PAD.decode(text)
}

/// `time::Date::from_ordinal_date`: whether the year and day of the year form
/// a date; every year from -9999 to 9999 is accepted, whatever the features.
#[verifier::external_body]
pub(crate) fn calendar_date_ok(year: i32, ordinal: u16) -> (r: bool)
    ensures
        r == (calendar_year_in_range(year) && (1 <= ordinal <= 365 || (ordinal == 366
            && is_leap_year(year)))),
        -9999 <= year <= 9999 && 1 <= ordinal <= 365 ==> r,
{
    time::Date::from_ordinal_date(year, ordinal).is_ok()
}

/// `time::Time::from_hms_nano`: whether the parts form a time of day.
#[verifier::external_body]
pub(crate) fn clock_time_ok(hour: u8, minute: u8, second: u8, nanosecond: u32) -> (r: bool)
    ensures
        r == clock_time_valid(hour, minute, second, nanosecond),
{
    time::Time::from_hms_nano(hour, minute, second, nanosecond).is_ok()
}

/// `time::UtcOffset::from_hms`: whether the parts form a UTC offset.
#[verifier::external_body]
pub(crate) fn utc_offset_ok(hours: i8, minutes: i8, seconds: i8) -> (r: bool)
    ensures
        r == utc_offset_valid(hours, minutes, seconds),
{
    time::UtcOffset::from_hms(hours, minutes, seconds).is_ok()
}

/// `time::OffsetDateTime::now_utc`, as its serialised parts. The value
/// depends on the clock; what holds is that the calendar accepts it.
#[verifier::external_body]
pub(crate) fn now_wire_timestamp() -> (r: WireTimestamp)
    ensures
        wire_timestamp_valid(r),
{
    let now = time::OffsetDateTime::now_utc();
    WireTimestamp {
        year: now.year(),
        ordinal: now.ordinal(),
        hour: now.hour(),
        minute: now.minute(),
        second: now.second(),
        nanosecond: now.nanosecond(),
        offset_hours: now.offset().whole_hours(),
        offset_minutes: now.offset().minutes_past_hour(),
        offset_seconds: now.offset().seconds_past_minute(),
    }
}

/// `zeroize::Zeroize` for `Vec<u8>`: overwrites the contents with zeros and clears the vector.
#[verifier::external_body]
pub(crate) fn wipe(bytes: &mut Vec<u8>)
    ensures
        final(bytes)@.len() == 0,
{
    zeroize::Zeroize::zeroize(bytes)
}

/// `double_ratchet_2::ratchet::Ratchet::init_bob`: a ratchet for the party
/// that waits for the first message, and the PEM text of its P-256 ratchet
/// public key, which parses back. The key pair is random. The ratchet has no
/// sending chain yet (`cks` is `None` until its first decryption).
#[verifier::external_body]
pub(crate) fn ratchet_init_bob(root_key: [u8; 32]) -> (r: (double_ratchet_2::ratchet::Ratchet, String))
    ensures
        p256_key_text_valid(r.1@),
        !ratchet_can_send(r.0),
        ratchet_awaiting(r.0, root_key@, r.1@),
{
    let (ratchet, public_key) = double_ratchet_2::ratchet::Ratchet::init_bob(root_key);
    (ratchet, public_key.to_string())
}

/// `double_ratchet_2::ratchet::Ratchet::init_alice` with the peer's ratchet
/// public key given as PEM text, parsed by `PublicKey::from_str`; no ratchet
/// when the text does not parse. The ratchet it makes has a sending chain
/// whose first header has message number 0 and previous chain length 0
/// (`ns` and `pn` start at 0), and a ratchet that `init_bob` made with the same root key and this public
/// key decrypts its first message: Alice's sending chain key is the root KDF
/// of the root key and the DH of her new key pair with Bob's key, which is
/// the receiving chain key Bob derives on his first DH ratchet step.
#[verifier::external_body]
pub(crate) fn ratchet_init_alice(root_key: [u8; 32], peer_public_key: &str) -> (r: Option<double_ratchet_2::ratchet::Ratchet>)
    ensures
        r is Some <==> p256_key_text_valid(peer_public_key@),
        r matches Some(ratchet) ==> ratchet_can_send(ratchet),
        r matches Some(ratchet) ==> ratchet_next_header(ratchet).n == 0
            && ratchet_next_header(ratchet).pn == 0,
        r matches Some(ratchet) ==> forall|bob: double_ratchet_2::ratchet::Ratchet|
            ratchet_awaiting(bob, root_key@, peer_public_key@) ==> #[trigger] ratchet_in_step(ratchet, bob),
{
    match double_ratchet_2::PublicKey::from_str(peer_public_key) {
        Ok(key) => Some(double_ratchet_2::ratchet::Ratchet::init_alice(root_key, key)),
        Err(_) => None,
    }
}

/// The message produced by one ratchet encryption step, as plain values.
pub struct RatchetOutput {
    /// The message header serialised by `Header::concat` with empty associated data.
    pub serialized_header: Vec<u8>,
    /// The sender's ratchet public key, as the bytes of its PEM text.
    pub public_key: Vec<u8>,
    /// The message number within the sending chain.
    pub n: usize,
    /// The length of the previous sending chain.
    pub pn: usize,
    pub ciphertext: Vec<u8>,
    pub nonce: [u8; 12],
}

/// `double_ratchet_2::ratchet::Ratchet::ratchet_encrypt`. The crate unwraps
/// the sending chain key and `expect`s AES-256-GCM-SIV to succeed, which it
/// does for plaintexts and associated data of at most 2^36 bytes (the header
/// it prepends to the associated data adds under 4096 bytes); those are the
/// inputs admitted here. The header and the next state come from the old
/// state alone; the next header keeps the key pair and previous chain length
/// and counts one more message (`ns += 1`); the nonce is random, and the ciphertext is the AES-GCM-SIV
/// sealing of the plaintext under the old state's message key and that
/// nonce, the plaintext's length plus its 16-byte tag. A receiver in step
/// with the sender decrypts the message back to the plaintext.
#[verifier::external_body]
pub(crate) fn ratchet_encrypt(ratchet: &mut double_ratchet_2::ratchet::Ratchet, plaintext: &[u8], aad: &[u8]) -> (r: RatchetOutput)
    requires
        ratchet_can_send(*old(ratchet)),
        plaintext@.len() <= 0x10_0000_0000,
        aad@.len() + 4096 <= 0x10_0000_0000,
    ensures
        r.serialized_header@ == ratchet_next_header(*old(ratchet)).serialized,
        r.public_key@ == ratchet_next_header(*old(ratchet)).public_key,
        r.n as nat == ratchet_next_header(*old(ratchet)).n,
        r.pn as nat == ratchet_next_header(*old(ratchet)).pn,
        r.ciphertext@ == ratchet_sealed(*old(ratchet), plaintext@, aad@, r.nonce@),
        r.ciphertext@.len() == plaintext@.len() + 16,
        *final(ratchet) == ratchet_after_send(*old(ratchet)),
        ratchet_next_header(*final(ratchet)).n == ratchet_next_header(*old(ratchet)).n + 1,
        ratchet_next_header(*final(ratchet)).pn == ratchet_next_header(*old(ratchet)).pn,
        ratchet_next_header(*final(ratchet)).public_key == ratchet_next_header(*old(ratchet)).public_key,
        ratchet_can_send(*final(ratchet)),
        forall|receiver: double_ratchet_2::ratchet::Ratchet|
            #[trigger] ratchet_in_step(*old(ratchet), receiver) ==> ratchet_opened(
                receiver,
                r.serialized_header@,
                r.ciphertext@,
                r.nonce@,
                aad@,
            ) == Some(plaintext@),
{
    let (header, ciphertext, nonce) = ratchet.ratchet_encrypt(plaintext, aad);
    RatchetOutput {
        serialized_header: header.concat(b""),
        public_key: header.ex_public_key_bytes(),
        n: header.n,
        pn: header.pn,
        ciphertext,
        nonce,
    }
}

/// `double_ratchet_2::ratchet::Ratchet::ratchet_decrypt` on the header
/// rebuilt by `Header::from` from its serialised bytes. The crate panics when
/// the header bytes do not deserialise, when more than 100 message keys would
/// be skipped, when no receiving chain is set, or when the message fails
/// authentication; the inputs admitted are those on which `ratchet_opened` is
/// `Some`, and the plaintext is its value, the ciphertext's length less the
/// 16-byte tag. Whichever path it takes, the ratchet has a sending chain
/// afterwards: a key arriving on a new chain makes it step its DH ratchet,
/// which sets one, and the other paths need a receiving chain, which exists
/// only once such a step has set both. A receiver that was in step with a
/// sender and has just decrypted that sender's next message is in step with
/// the sender's state after that message.
#[verifier::external_body]
pub(crate) fn ratchet_decrypt(
    ratchet: &mut double_ratchet_2::ratchet::Ratchet,
    serialized_header: &[u8],
    ciphertext: &[u8],
    nonce: &[u8; 12],
    aad: &[u8],
) -> (r: Vec<u8>)
    requires
        ratchet_opened(*old(ratchet), serialized_header@, ciphertext@, nonce@, aad@) is Some,
    ensures
        ratchet_opened(*old(ratchet), serialized_header@, ciphertext@, nonce@, aad@) == Some(r@),
        r@.len() + 16 == ciphertext@.len(),
        ratchet_can_send(*final(ratchet)),
        forall|sender: double_ratchet_2::ratchet::Ratchet, plaintext: Seq<u8>|
            #[trigger] ratchet_in_step(sender, *old(ratchet)) && serialized_header@ == ratchet_next_header(
                sender,
            ).serialized && ciphertext@ == #[trigger] ratchet_sealed(sender, plaintext, aad@, nonce@)
                ==> ratchet_in_step(ratchet_after_send(sender), *final(ratchet)),
{
    let header = double_ratchet_2::header::Header::from(serialized_header);
    ratchet.ratchet_decrypt(&header, ciphertext, nonce, aad)
}

} // verus!
