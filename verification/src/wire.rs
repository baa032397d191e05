//! The binary envelope format.
//!
//! Integers are little-endian and fixed-width; byte strings and texts carry a
//! 64-bit length prefix (texts as UTF-8); identifiers are 16-byte strings with
//! their length prefix; the message type is its 32-bit variant index; a
//! timestamp is year (32 bits), day of the year (16 bits), hour, minute and
//! second (one byte each), nanosecond (32 bits) and the three UTC offset parts
//! (one signed byte each); fixed-size arrays (nonce, signer key) are written
//! as their bytes. A record is its fields in order. Bytes after a complete
//! envelope are ignored when reading.
use vstd::prelude::*;
use vstd::bytes::{
    lemma_auto_spec_u16_to_from_le_bytes, lemma_auto_spec_u32_to_from_le_bytes,
    lemma_auto_spec_u64_to_from_le_bytes, spec_u16_from_le_bytes, spec_u16_to_le_bytes,
    spec_u32_from_le_bytes, spec_u32_to_le_bytes, spec_u64_from_le_bytes, spec_u64_to_le_bytes,
    u16_from_le_bytes, u16_to_le_bytes, u32_from_le_bytes, u32_to_le_bytes, u64_from_le_bytes,
    u64_to_le_bytes,
};
use vstd::slice::slice_subrange;
use vstd::utf8::{decode_utf8, encode_utf8, valid_utf8};
use crate::crypto::{SignedEnvelope, SignedEnvelopeValue};
use crate::primitives::{calendar_date_ok, clock_time_ok, utc_offset_ok, wire_timestamp_valid};
use crate::spec_types::{
    HeaderValue, MessageType, ProtocolHeader, RatchetHeaderData, RatchetHeaderValue, WireTimestamp,
};
use crate::text::{lemma_utf8_roundtrip, string_from_utf8, utf8_bytes};

verus! {

broadcast use vstd::seq_lib::group_seq_properties;

/// The binary envelope carried, base64-encoded, in a transport e-mail.
#[derive(Debug)]
pub struct WireEnvelope {
    pub header: ProtocolHeader,
    pub ratchet_header: RatchetHeaderData,
    pub ratchet_header_bytes: Vec<u8>,
    pub nonce: [u8; 12],
    pub ciphertext: Vec<u8>,
    pub signature: SignedEnvelope,
}

/// The value of an envelope.
pub struct WireEnvelopeValue {
    pub header: HeaderValue,
    pub ratchet_header: RatchetHeaderValue,
    pub ratchet_header_bytes: Seq<u8>,
    pub nonce: Seq<u8>,
    pub ciphertext: Seq<u8>,
    pub signature: SignedEnvelopeValue,
}

impl View for WireEnvelope {
    type V = WireEnvelopeValue;

    open spec fn view(&self) -> WireEnvelopeValue {
        WireEnvelopeValue {
            header: self.header@,
            ratchet_header: self.ratchet_header@,
            ratchet_header_bytes: self.ratchet_header_bytes@,
            nonce: self.nonce@,
            ciphertext: self.ciphertext@,
            signature: self.signature@,
        }
    }
}

// ---------------------------------------------------------------------------
// Encoding
// ---------------------------------------------------------------------------

/// A byte string with its 64-bit length prefix.
pub open spec fn enc_bytes(b: Seq<u8>) -> Seq<u8> {
    spec_u64_to_le_bytes(b.len() as u64) + b
}

/// A text as its length-prefixed UTF-8 bytes.
pub open spec fn enc_text(t: Seq<char>) -> Seq<u8> {
    enc_bytes(encode_utf8(t))
}

/// The variant index of a message type.
pub open spec fn message_type_index(m: MessageType) -> u32 {
    match m {
        MessageType::ContactInvite => 0,
        MessageType::PrekeyBundle => 1,
        MessageType::Ciphertext => 2,
        MessageType::DeliveryReceipt => 3,
        MessageType::ReadReceipt => 4,
        MessageType::KeyRotation => 5,
        MessageType::IdentityChange => 6,
    }
}

/// The message type with a variant index, if any.
pub open spec fn message_type_of(i: u32) -> Option<MessageType> {
    if i == 0 {
        Some(MessageType::ContactInvite)
    } else if i == 1 {
        Some(MessageType::PrekeyBundle)
    } else if i == 2 {
        Some(MessageType::Ciphertext)
    } else if i == 3 {
        Some(MessageType::DeliveryReceipt)
    } else if i == 4 {
        Some(MessageType::ReadReceipt)
    } else if i == 5 {
        Some(MessageType::KeyRotation)
    } else if i == 6 {
        Some(MessageType::IdentityChange)
    } else {
        None
    }
}

/// The 16 bytes of a timestamp.
pub open spec fn enc_timestamp(t: WireTimestamp) -> Seq<u8> {
    spec_u32_to_le_bytes(t.year as u32) + spec_u16_to_le_bytes(t.ordinal) + seq![
        t.hour,
        t.minute,
        t.second,
    ] + spec_u32_to_le_bytes(t.nanosecond) + seq![
        t.offset_hours as u8,
        t.offset_minutes as u8,
        t.offset_seconds as u8,
    ]
}

/// The bytes of a protocol header.
pub open spec fn enc_header(h: HeaderValue) -> Seq<u8> {
    spec_u16_to_le_bytes(h.protocol_version) + spec_u32_to_le_bytes(
        message_type_index(h.message_type),
    ) + enc_text(h.cipher_suite_id) + enc_bytes(h.session_id) + enc_bytes(h.sender_device_id)
        + enc_text(h.sender_fingerprint) + enc_timestamp(h.timestamp)
}

/// The bytes of a ratchet header.
pub open spec fn enc_ratchet_header(r: RatchetHeaderValue) -> Seq<u8> {
    enc_bytes(r.ratchet_public_key) + spec_u32_to_le_bytes(r.message_number)
        + spec_u32_to_le_bytes(r.previous_chain_length)
}

/// The bytes that the sender signs: protocol header, ratchet header and ciphertext.
pub open spec fn signed_payload(h: HeaderValue, r: RatchetHeaderValue, ciphertext: Seq<u8>) -> Seq<u8> {
    enc_header(h) + enc_ratchet_header(r) + enc_bytes(ciphertext)
}

/// The bytes of an envelope.
pub open spec fn enc_wire(w: WireEnvelopeValue) -> Seq<u8> {
    enc_header(w.header) + enc_ratchet_header(w.ratchet_header) + enc_bytes(w.ratchet_header_bytes)
        + w.nonce + enc_bytes(w.ciphertext) + w.signature.signer_public_key + enc_bytes(
        w.signature.signature,
    )
}

// ---------------------------------------------------------------------------
// Reading
// ---------------------------------------------------------------------------

/// A little-endian 16-bit integer, and the bytes after it.
pub open spec fn parse_u16(s: Seq<u8>) -> Option<(u16, Seq<u8>)> {
    if s.len() >= 2 {
        Some((spec_u16_from_le_bytes(s.take(2)), s.skip(2)))
    } else {
        None
    }
}

/// A little-endian 32-bit integer, and the bytes after it.
pub open spec fn parse_u32(s: Seq<u8>) -> Option<(u32, Seq<u8>)> {
    if s.len() >= 4 {
        Some((spec_u32_from_le_bytes(s.take(4)), s.skip(4)))
    } else {
        None
    }
}

/// A little-endian 64-bit integer, and the bytes after it.
pub open spec fn parse_u64(s: Seq<u8>) -> Option<(u64, Seq<u8>)> {
    if s.len() >= 8 {
        Some((spec_u64_from_le_bytes(s.take(8)), s.skip(8)))
    } else {
        None
    }
}

/// `n` raw bytes, and the bytes after them.
pub open spec fn parse_fixed(s: Seq<u8>, n: nat) -> Option<(Seq<u8>, Seq<u8>)> {
    if s.len() >= n {
        Some((s.take(n as int), s.skip(n as int)))
    } else {
        None
    }
}

/// A length-prefixed byte string, and the bytes after it.
pub open spec fn parse_bytes(s: Seq<u8>) -> Option<(Seq<u8>, Seq<u8>)> {
    match parse_u64(s) {
        Some((n, r)) => if n <= r.len() {
            Some((r.take(n as int), r.skip(n as int)))
        } else {
            None
        },
        None => None,
    }
}

/// A length-prefixed UTF-8 text, and the bytes after it.
pub open spec fn parse_text(s: Seq<u8>) -> Option<(Seq<char>, Seq<u8>)> {
    match parse_bytes(s) {
        Some((b, r)) => if valid_utf8(b) {
            Some((decode_utf8(b), r))
        } else {
            None
        },
        None => None,
    }
}

/// A length-prefixed 16-byte identifier, and the bytes after it.
pub open spec fn parse_id(s: Seq<u8>) -> Option<(Seq<u8>, Seq<u8>)> {
    match parse_bytes(s) {
        Some((b, r)) => if b.len() == 16 {
            Some((b, r))
        } else {
            None
        },
        None => None,
    }
}

/// A message type by its variant index, and the bytes after it.
pub open spec fn parse_message_type(s: Seq<u8>) -> Option<(MessageType, Seq<u8>)> {
    match parse_u32(s) {
        Some((i, r)) => match message_type_of(i) {
            Some(m) => Some((m, r)),
            None => None,
        },
        None => None,
    }
}

/// The timestamp parts held in 16 bytes.
pub open spec fn timestamp_of_bytes(b: Seq<u8>) -> WireTimestamp {
    WireTimestamp {
        year: spec_u32_from_le_bytes(b.subrange(0, 4)) as i32,
        ordinal: spec_u16_from_le_bytes(b.subrange(4, 6)),
        hour: b[6],
        minute: b[7],
        second: b[8],
        nanosecond: spec_u32_from_le_bytes(b.subrange(9, 13)),
        offset_hours: b[13] as i8,
        offset_minutes: b[14] as i8,
        offset_seconds: b[15] as i8,
    }
}

/// A timestamp that the calendar accepts, and the bytes after it.
pub open spec fn parse_timestamp(s: Seq<u8>) -> Option<(WireTimestamp, Seq<u8>)> {
    if s.len() >= 16 {
        let t = timestamp_of_bytes(s.take(16));
        if wire_timestamp_valid(t) {
            Some((t, s.skip(16)))
        } else {
            None
        }
    } else {
        None
    }
}

/// A protocol header, and the bytes after it.
pub open spec fn parse_header(s: Seq<u8>) -> Option<(HeaderValue, Seq<u8>)> {
    match parse_u16(s) {
        None => None,
        Some((protocol_version, s1)) => match parse_message_type(s1) {
            None => None,
            Some((message_type, s2)) => match parse_text(s2) {
                None => None,
                Some((cipher_suite_id, s3)) => match parse_id(s3) {
                    None => None,
                    Some((session_id, s4)) => match parse_id(s4) {
                        None => None,
                        Some((sender_device_id, s5)) => match parse_text(s5) {
                            None => None,
                            Some((sender_fingerprint, s6)) => match parse_timestamp(s6) {
                                None => None,
                                Some((timestamp, s7)) => Some(
                                    (
                                        HeaderValue {
                                            protocol_version,
                                            message_type,
                                            cipher_suite_id,
                                            session_id,
                                            sender_device_id,
                                            sender_fingerprint,
                                            timestamp,
                                        },
                                        s7,
                                    ),
                                ),
                            },
                        },
                    },
                },
            },
        },
    }
}

/// A ratchet header, and the bytes after it.
pub open spec fn parse_ratchet_header(s: Seq<u8>) -> Option<(RatchetHeaderValue, Seq<u8>)> {
    match parse_bytes(s) {
        None => None,
        Some((ratchet_public_key, s1)) => match parse_u32(s1) {
            None => None,
            Some((message_number, s2)) => match parse_u32(s2) {
                None => None,
                Some((previous_chain_length, s3)) => Some(
                    (RatchetHeaderValue { ratchet_public_key, message_number, previous_chain_length }, s3),
                ),
            },
        },
    }
}

/// The envelope at the start of `s`; whatever follows it is ignored.
pub open spec fn parse_wire(s: Seq<u8>) -> Option<WireEnvelopeValue> {
    match parse_header(s) {
        None => None,
        Some((header, s1)) => match parse_ratchet_header(s1) {
            None => None,
            Some((ratchet_header, s2)) => match parse_bytes(s2) {
                None => None,
                Some((ratchet_header_bytes, s3)) => match parse_fixed(s3, 12) {
                    None => None,
                    Some((nonce, s4)) => match parse_bytes(s4) {
                        None => None,
                        Some((ciphertext, s5)) => match parse_fixed(s5, 32) {
                            None => None,
                            Some((signer_public_key, s6)) => match parse_bytes(s6) {
                                None => None,
                                Some((signature, _s7)) => Some(
                                    WireEnvelopeValue {
                                        header,
                                        ratchet_header,
                                        ratchet_header_bytes,
                                        nonce,
                                        ciphertext,
                                        signature: SignedEnvelopeValue { signer_public_key, signature },
                                    },
                                ),
                            },
                        },
                    },
                },
            },
        },
    }
}

// ---------------------------------------------------------------------------
// Round trip
// ---------------------------------------------------------------------------

/// Every byte string and text of an envelope fits a 64-bit length prefix.
pub open spec fn wire_lengths_fit(w: WireEnvelopeValue) -> bool {
    &&& encode_utf8(w.header.cipher_suite_id).len() <= u64::MAX
    &&& encode_utf8(w.header.sender_fingerprint).len() <= u64::MAX
    &&& w.ratchet_header.ratchet_public_key.len() <= u64::MAX
    &&& w.ratchet_header_bytes.len() <= u64::MAX
    &&& w.ciphertext.len() <= u64::MAX
    &&& w.signature.signature.len() <= u64::MAX
}

/// Every byte string and text of a header fits a 64-bit length prefix.
pub open spec fn header_encodable(h: HeaderValue) -> bool {
    &&& encode_utf8(h.cipher_suite_id).len() <= u64::MAX
    &&& h.session_id.len() == 16
    &&& h.sender_device_id.len() == 16
    &&& encode_utf8(h.sender_fingerprint).len() <= u64::MAX
    &&& wire_timestamp_valid(h.timestamp)
}

/// An envelope value that the format can carry and read back.
pub open spec fn wire_encodable(w: WireEnvelopeValue) -> bool {
    &&& header_encodable(w.header)
    &&& w.ratchet_header.ratchet_public_key.len() <= u64::MAX
    &&& w.ratchet_header_bytes.len() <= u64::MAX
    &&& w.nonce.len() == 12
    &&& w.ciphertext.len() <= u64::MAX
    &&& w.signature.signer_public_key.len() == 32
    &&& w.signature.signature.len() <= u64::MAX
}

proof fn lemma_parse_u16(x: u16, rest: Seq<u8>)
    ensures
        parse_u16(spec_u16_to_le_bytes(x) + rest) == Some((x, rest)),
{
    lemma_auto_spec_u16_to_from_le_bytes();
    let s = spec_u16_to_le_bytes(x) + rest;
    assert(s.take(2) =~= spec_u16_to_le_bytes(x));
    assert(s.skip(2) =~= rest);
}

proof fn lemma_parse_u32(x: u32, rest: Seq<u8>)
    ensures
        parse_u32(spec_u32_to_le_bytes(x) + rest) == Some((x, rest)),
{
    lemma_auto_spec_u32_to_from_le_bytes();
    let s = spec_u32_to_le_bytes(x) + rest;
    assert(s.take(4) =~= spec_u32_to_le_bytes(x));
    assert(s.skip(4) =~= rest);
}

proof fn lemma_parse_u64(x: u64, rest: Seq<u8>)
    ensures
        parse_u64(spec_u64_to_le_bytes(x) + rest) == Some((x, rest)),
{
    lemma_auto_spec_u64_to_from_le_bytes();
    let s = spec_u64_to_le_bytes(x) + rest;
    assert(s.take(8) =~= spec_u64_to_le_bytes(x));
    assert(s.skip(8) =~= rest);
}

proof fn lemma_parse_fixed(b: Seq<u8>, rest: Seq<u8>)
    ensures
        parse_fixed(b + rest, b.len()) == Some((b, rest)),
{
    assert((b + rest).take(b.len() as int) =~= b);
    assert((b + rest).skip(b.len() as int) =~= rest);
}

proof fn lemma_parse_bytes(b: Seq<u8>, rest: Seq<u8>)
    requires
        b.len() <= u64::MAX,
    ensures
        parse_bytes(enc_bytes(b) + rest) == Some((b, rest)),
{
    let n = b.len() as u64;
    assert(enc_bytes(b) + rest =~= spec_u64_to_le_bytes(n) + (b + rest));
    lemma_parse_u64(n, b + rest);
    assert((b + rest).take(n as int) =~= b);
    assert((b + rest).skip(n as int) =~= rest);
}

proof fn lemma_parse_text(t: Seq<char>, rest: Seq<u8>)
    requires
        encode_utf8(t).len() <= u64::MAX,
    ensures
        parse_text(enc_text(t) + rest) == Some((t, rest)),
{
    lemma_parse_bytes(encode_utf8(t), rest);
    lemma_utf8_roundtrip(t);
}

proof fn lemma_parse_id(id: Seq<u8>, rest: Seq<u8>)
    requires
        id.len() == 16,
    ensures
        parse_id(enc_bytes(id) + rest) == Some((id, rest)),
{
    lemma_parse_bytes(id, rest);
}

proof fn lemma_parse_message_type(m: MessageType, rest: Seq<u8>)
    ensures
        parse_message_type(spec_u32_to_le_bytes(message_type_index(m)) + rest) == Some((m, rest)),
{
    lemma_parse_u32(message_type_index(m), rest);
}

proof fn lemma_parse_timestamp(t: WireTimestamp, rest: Seq<u8>)
    requires
        wire_timestamp_valid(t),
    ensures
        parse_timestamp(enc_timestamp(t) + rest) == Some((t, rest)),
{
    lemma_auto_spec_u32_to_from_le_bytes();
    lemma_auto_spec_u16_to_from_le_bytes();
    let e = enc_timestamp(t);
    let s = e + rest;
    assert(e.len() == 16);
    let b = s.take(16);
    assert(b =~= e);
    assert(b.subrange(0, 4) =~= spec_u32_to_le_bytes(t.year as u32));
    assert(b.subrange(4, 6) =~= spec_u16_to_le_bytes(t.ordinal));
    assert(b.subrange(9, 13) =~= spec_u32_to_le_bytes(t.nanosecond));
    let y = t.year;
    let oh = t.offset_hours;
    let om = t.offset_minutes;
    let os = t.offset_seconds;
    assert((y as u32) as i32 == y) by (bit_vector);
    assert((oh as u8) as i8 == oh) by (bit_vector);
    assert((om as u8) as i8 == om) by (bit_vector);
    assert((os as u8) as i8 == os) by (bit_vector);
    assert(timestamp_of_bytes(b) == t);
    assert(s.skip(16) =~= rest);
}

/// Reading the bytes of a header gives the header back.
pub proof fn lemma_parse_header(h: HeaderValue, rest: Seq<u8>)
    requires
        header_encodable(h),
    ensures
        parse_header(enc_header(h) + rest) == Some((h, rest)),
{
    let e7 = enc_timestamp(h.timestamp) + rest;
    let e6 = enc_text(h.sender_fingerprint) + e7;
    let e5 = enc_bytes(h.sender_device_id) + e6;
    let e4 = enc_bytes(h.session_id) + e5;
    let e3 = enc_text(h.cipher_suite_id) + e4;
    let e2 = spec_u32_to_le_bytes(message_type_index(h.message_type)) + e3;
    let e1 = spec_u16_to_le_bytes(h.protocol_version) + e2;
    assert(enc_header(h) + rest =~= e1);
    lemma_parse_u16(h.protocol_version, e2);
    lemma_parse_message_type(h.message_type, e3);
    lemma_parse_text(h.cipher_suite_id, e4);
    lemma_parse_id(h.session_id, e5);
    lemma_parse_id(h.sender_device_id, e6);
    lemma_parse_text(h.sender_fingerprint, e7);
    lemma_parse_timestamp(h.timestamp, rest);
}

/// Reading the bytes of a ratchet header gives it back.
pub proof fn lemma_parse_ratchet_header(r: RatchetHeaderValue, rest: Seq<u8>)
    requires
        r.ratchet_public_key.len() <= u64::MAX,
    ensures
        parse_ratchet_header(enc_ratchet_header(r) + rest) == Some((r, rest)),
{
    let e3 = spec_u32_to_le_bytes(r.previous_chain_length) + rest;
    let e2 = spec_u32_to_le_bytes(r.message_number) + e3;
    let e1 = enc_bytes(r.ratchet_public_key) + e2;
    assert(enc_ratchet_header(r) + rest =~= e1);
    lemma_parse_bytes(r.ratchet_public_key, e2);
    lemma_parse_u32(r.message_number, e3);
    lemma_parse_u32(r.previous_chain_length, rest);
}

/// Round trip of the envelope format: reading the bytes of an envelope,
/// followed by anything, gives the envelope back.
pub proof fn lemma_wire_roundtrip(w: WireEnvelopeValue, rest: Seq<u8>)
    requires
        wire_encodable(w),
    ensures
        parse_wire(enc_wire(w) + rest) == Some(w),
{
    let e7 = enc_bytes(w.signature.signature) + rest;
    let e6 = w.signature.signer_public_key + e7;
    let e5 = enc_bytes(w.ciphertext) + e6;
    let e4 = w.nonce + e5;
    let e3 = enc_bytes(w.ratchet_header_bytes) + e4;
    let e2 = enc_ratchet_header(w.ratchet_header) + e3;
    let e1 = enc_header(w.header) + e2;
    assert(enc_wire(w) + rest =~= e1);
    lemma_parse_header(w.header, e2);
    lemma_parse_ratchet_header(w.ratchet_header, e3);
    lemma_parse_bytes(w.ratchet_header_bytes, e4);
    lemma_parse_fixed(w.nonce, e5);
    lemma_parse_bytes(w.ciphertext, e6);
    lemma_parse_fixed(w.signature.signer_public_key, e7);
    lemma_parse_bytes(w.signature.signature, rest);
}

// ---------------------------------------------------------------------------
// Executable writer
// ---------------------------------------------------------------------------

fn put_raw(out: &mut Vec<u8>, b: &[u8])
    ensures
        final(out)@ == old(out)@ + b@,
{
    let ghost start = out@;
    let mut i: usize = 0;
    while i < b.len()
        invariant
            i <= b@.len(),
            out@ == start + b@.subrange(0, i as int),
        decreases b@.len() - i,
    {
        out.push(b[i]);
        i = i + 1;
        assert(out@ =~= start + b@.subrange(0, i as int));
    }
    assert(b@.subrange(0, b@.len() as int) =~= b@);
}

fn put_u16(out: &mut Vec<u8>, x: u16)
    ensures
        final(out)@ == old(out)@ + spec_u16_to_le_bytes(x),
{
    let b = u16_to_le_bytes(x);
    put_raw(out, b.as_slice());
}

fn put_u32(out: &mut Vec<u8>, x: u32)
    ensures
        final(out)@ == old(out)@ + spec_u32_to_le_bytes(x),
{
    let b = u32_to_le_bytes(x);
    put_raw(out, b.as_slice());
}

fn put_bytes(out: &mut Vec<u8>, b: &[u8])
    ensures
        final(out)@ == old(out)@ + enc_bytes(b@),
        b@.len() <= u64::MAX,
{
    let n = u64_to_le_bytes(b.len() as u64);
    put_raw(out, n.as_slice());
    put_raw(out, b);
    assert(out@ =~= old(out)@ + enc_bytes(b@));
}

fn put_text(out: &mut Vec<u8>, t: &String)
    ensures
        final(out)@ == old(out)@ + enc_text(t@),
        encode_utf8(t@).len() <= u64::MAX,
{
    let b = utf8_bytes(t.as_str());
    put_bytes(out, b.as_slice());
}

fn put_timestamp(out: &mut Vec<u8>, t: &WireTimestamp)
    ensures
        final(out)@ == old(out)@ + enc_timestamp(*t),
{
    put_u32(out, t.year as u32);
    put_u16(out, t.ordinal);
    out.push(t.hour);
    out.push(t.minute);
    out.push(t.second);
    put_u32(out, t.nanosecond);
    out.push(t.offset_hours as u8);
    out.push(t.offset_minutes as u8);
    out.push(t.offset_seconds as u8);
    assert(out@ =~= old(out)@ + enc_timestamp(*t));
}

fn message_type_code(m: MessageType) -> (r: u32)
    ensures
        r == message_type_index(m),
{
    match m {
        MessageType::ContactInvite => 0,
        MessageType::PrekeyBundle => 1,
        MessageType::Ciphertext => 2,
        MessageType::DeliveryReceipt => 3,
        MessageType::ReadReceipt => 4,
        MessageType::KeyRotation => 5,
        MessageType::IdentityChange => 6,
    }
}

fn put_header(out: &mut Vec<u8>, h: &ProtocolHeader)
    ensures
        final(out)@ == old(out)@ + enc_header(h@),
        encode_utf8(h@.cipher_suite_id).len() <= u64::MAX,
        encode_utf8(h@.sender_fingerprint).len() <= u64::MAX,
{
    put_u16(out, h.protocol_version);
    put_u32(out, message_type_code(h.message_type));
    put_text(out, &h.cipher_suite_id);
    put_bytes(out, h.session_id.as_slice());
    put_bytes(out, h.sender_device_id.as_slice());
    put_text(out, &h.sender_fingerprint);
    put_timestamp(out, &h.timestamp);
    assert(out@ =~= old(out)@ + enc_header(h@));
}

fn put_ratchet_header(out: &mut Vec<u8>, r: &RatchetHeaderData)
    ensures
        final(out)@ == old(out)@ + enc_ratchet_header(r@),
        r@.ratchet_public_key.len() <= u64::MAX,
{
    put_bytes(out, r.ratchet_public_key.as_slice());
    put_u32(out, r.message_number);
    put_u32(out, r.previous_chain_length);
    assert(out@ =~= old(out)@ + enc_ratchet_header(r@));
}

/// The bytes the sender signs: protocol header, ratchet header and ciphertext.
pub fn encode_signed_payload(header: &ProtocolHeader, ratchet_header: &RatchetHeaderData, ciphertext: &[u8]) -> (r: Vec<u8>)
    ensures
        r@ == signed_payload(header@, ratchet_header@, ciphertext@),
{
    let mut out: Vec<u8> = Vec::new();
    put_header(&mut out, header);
    put_ratchet_header(&mut out, ratchet_header);
    put_bytes(&mut out, ciphertext);
    assert(out@ =~= signed_payload(header@, ratchet_header@, ciphertext@));
    out
}

/// The bytes of an envelope.
pub fn encode_wire_envelope(w: &WireEnvelope) -> (r: Vec<u8>)
    ensures
        r@ == enc_wire(w@),
        wire_lengths_fit(w@),
{
    let mut out: Vec<u8> = Vec::new();
    put_header(&mut out, &w.header);
    put_ratchet_header(&mut out, &w.ratchet_header);
    put_bytes(&mut out, w.ratchet_header_bytes.as_slice());
    put_raw(&mut out, w.nonce.as_slice());
    put_bytes(&mut out, w.ciphertext.as_slice());
    put_raw(&mut out, w.signature.signer_public_key.as_slice());
    put_bytes(&mut out, w.signature.signature.as_slice());
    assert(out@ =~= enc_wire(w@));
    out
}

// ---------------------------------------------------------------------------
// Executable reader
// ---------------------------------------------------------------------------

proof fn lemma_skip_skip(buf: Seq<u8>, pos: int, k: int)
    requires
        0 <= pos,
        0 <= k,
        pos + k <= buf.len(),
    ensures
        buf.skip(pos).skip(k) == buf.skip(pos + k),
        buf.skip(pos).take(k) == buf.subrange(pos, pos + k),
{
    assert(buf.skip(pos).skip(k) =~= buf.skip(pos + k));
    assert(buf.skip(pos).take(k) =~= buf.subrange(pos, pos + k));
}

fn read_u16(buf: &[u8], pos: usize) -> (r: Option<(u16, usize)>)
    requires
        pos <= buf@.len(),
    ensures
        match r {
            Some((v, p)) => pos <= p <= buf@.len() && parse_u16(buf@.skip(pos as int)) == Some(
                (v, buf@.skip(p as int)),
            ),
            None => parse_u16(buf@.skip(pos as int)) is None,
        },
{
    if buf.len() - pos < 2 {
        return None;
    }
    let x = u16_from_le_bytes(slice_subrange(buf, pos, pos + 2));
    proof {
        lemma_skip_skip(buf@, pos as int, 2);
    }
    Some((x, pos + 2))
}

fn read_u32(buf: &[u8], pos: usize) -> (r: Option<(u32, usize)>)
    requires
        pos <= buf@.len(),
    ensures
        match r {
            Some((v, p)) => pos <= p <= buf@.len() && parse_u32(buf@.skip(pos as int)) == Some(
                (v, buf@.skip(p as int)),
            ),
            None => parse_u32(buf@.skip(pos as int)) is None,
        },
{
    if buf.len() - pos < 4 {
        return None;
    }
    let x = u32_from_le_bytes(slice_subrange(buf, pos, pos + 4));
    proof {
        lemma_skip_skip(buf@, pos as int, 4);
    }
    Some((x, pos + 4))
}

fn read_u64(buf: &[u8], pos: usize) -> (r: Option<(u64, usize)>)
    requires
        pos <= buf@.len(),
    ensures
        match r {
            Some((v, p)) => pos <= p <= buf@.len() && parse_u64(buf@.skip(pos as int)) == Some(
                (v, buf@.skip(p as int)),
            ),
            None => parse_u64(buf@.skip(pos as int)) is None,
        },
{
    if buf.len() - pos < 8 {
        return None;
    }
    let x = u64_from_le_bytes(slice_subrange(buf, pos, pos + 8));
    proof {
        lemma_skip_skip(buf@, pos as int, 8);
    }
    Some((x, pos + 8))
}

fn read_fixed(buf: &[u8], pos: usize, n: usize) -> (r: Option<(Vec<u8>, usize)>)
    requires
        pos <= buf@.len(),
    ensures
        match r {
            Some((v, p)) => pos <= p <= buf@.len() && parse_fixed(buf@.skip(pos as int), n as nat)
                == Some((v@, buf@.skip(p as int))),
            None => parse_fixed(buf@.skip(pos as int), n as nat) is None,
        },
{
    if buf.len() - pos < n {
        return None;
    }
    let mut v: Vec<u8> = Vec::new();
    put_raw(&mut v, slice_subrange(buf, pos, pos + n));
    proof {
        lemma_skip_skip(buf@, pos as int, n as int);
        assert(v@ =~= buf@.subrange(pos as int, pos + n));
    }
    Some((v, pos + n))
}

fn read_bytes(buf: &[u8], pos: usize) -> (r: Option<(Vec<u8>, usize)>)
    requires
        pos <= buf@.len(),
    ensures
        match r {
            Some((v, p)) => pos <= p <= buf@.len() && parse_bytes(buf@.skip(pos as int)) == Some(
                (v@, buf@.skip(p as int)),
            ),
            None => parse_bytes(buf@.skip(pos as int)) is None,
        },
{
    let (n, p) = match read_u64(buf, pos) {
        Some(x) => x,
        None => {
            return None;
        },
    };
    let remaining = buf.len() - p;
    if n > remaining as u64 {
        return None;
    }
    let len = n as usize;
    let r = read_fixed(buf, p, len);
    proof {
        lemma_skip_skip(buf@, pos as int, (p - pos) as int);
    }
    r
}

fn read_text(buf: &[u8], pos: usize) -> (r: Option<(String, usize)>)
    requires
        pos <= buf@.len(),
    ensures
        match r {
            Some((v, p)) => pos <= p <= buf@.len() && parse_text(buf@.skip(pos as int)) == Some(
                (v@, buf@.skip(p as int)),
            ),
            None => parse_text(buf@.skip(pos as int)) is None,
        },
{
    let (b, p) = match read_bytes(buf, pos) {
        Some(x) => x,
        None => {
            return None;
        },
    };
    match string_from_utf8(b) {
        Some(s) => Some((s, p)),
        None => None,
    }
}

/// The 16 bytes of a slice as an identifier.
pub fn id_from_slice(b: &[u8]) -> (r: [u8; 16])
    requires
        b@.len() == 16,
    ensures
        r@ == b@,
{
    let r = [b[0], b[1], b[2], b[3], b[4], b[5], b[6], b[7], b[8], b[9], b[10], b[11], b[12], b[13], b[14], b[15]];
    assert(r@ =~= b@);
    r
}

fn nonce_from_slice(b: &[u8]) -> (r: [u8; 12])
    requires
        b@.len() == 12,
    ensures
        r@ == b@,
{
    let r = [b[0], b[1], b[2], b[3], b[4], b[5], b[6], b[7], b[8], b[9], b[10], b[11]];
    assert(r@ =~= b@);
    r
}

/// The 32 bytes of a slice as a key.
pub fn key_from_slice(b: &[u8]) -> (r: [u8; 32])
    requires
        b@.len() == 32,
    ensures
        r@ == b@,
{
    let r = [
        b[0], b[1], b[2], b[3], b[4], b[5], b[6], b[7], b[8], b[9], b[10], b[11], b[12], b[13], b[14], b[15],
        b[16], b[17], b[18], b[19], b[20], b[21], b[22], b[23], b[24], b[25], b[26], b[27], b[28], b[29],
        b[30], b[31],
    ];
    assert(r@ =~= b@);
    r
}

fn read_id(buf: &[u8], pos: usize) -> (r: Option<([u8; 16], usize)>)
    requires
        pos <= buf@.len(),
    ensures
        match r {
            Some((v, p)) => pos <= p <= buf@.len() && parse_id(buf@.skip(pos as int)) == Some(
                (v@, buf@.skip(p as int)),
            ),
            None => parse_id(buf@.skip(pos as int)) is None,
        },
{
    let (b, p) = match read_bytes(buf, pos) {
        Some(x) => x,
        None => {
            return None;
        },
    };
    if b.len() != 16 {
        return None;
    }
    Some((id_from_slice(b.as_slice()), p))
}

fn message_type_from_code(i: u32) -> (r: Option<MessageType>)
    ensures
        r == message_type_of(i),
{
    if i == 0 {
        Some(MessageType::ContactInvite)
    } else if i == 1 {
        Some(MessageType::PrekeyBundle)
    } else if i == 2 {
        Some(MessageType::Ciphertext)
    } else if i == 3 {
        Some(MessageType::DeliveryReceipt)
    } else if i == 4 {
        Some(MessageType::ReadReceipt)
    } else if i == 5 {
        Some(MessageType::KeyRotation)
    } else if i == 6 {
        Some(MessageType::IdentityChange)
    } else {
        None
    }
}

fn read_message_type(buf: &[u8], pos: usize) -> (r: Option<(MessageType, usize)>)
    requires
        pos <= buf@.len(),
    ensures
        match r {
            Some((v, p)) => pos <= p <= buf@.len() && parse_message_type(buf@.skip(pos as int))
                == Some((v, buf@.skip(p as int))),
            None => parse_message_type(buf@.skip(pos as int)) is None,
        },
{
    let (i, p) = match read_u32(buf, pos) {
        Some(x) => x,
        None => {
            return None;
        },
    };
    match message_type_from_code(i) {
        Some(m) => Some((m, p)),
        None => None,
    }
}

fn read_timestamp(buf: &[u8], pos: usize) -> (r: Option<(WireTimestamp, usize)>)
    requires
        pos <= buf@.len(),
    ensures
        match r {
            Some((v, p)) => pos <= p <= buf@.len() && parse_timestamp(buf@.skip(pos as int)) == Some(
                (v, buf@.skip(p as int)),
            ),
            None => parse_timestamp(buf@.skip(pos as int)) is None,
        },
{
    if buf.len() - pos < 16 {
        return None;
    }
    let b = slice_subrange(buf, pos, pos + 16);
    let t = WireTimestamp {
        year: u32_from_le_bytes(slice_subrange(b, 0, 4)) as i32,
        ordinal: u16_from_le_bytes(slice_subrange(b, 4, 6)),
        hour: b[6],
        minute: b[7],
        second: b[8],
        nanosecond: u32_from_le_bytes(slice_subrange(b, 9, 13)),
        offset_hours: b[13] as i8,
        offset_minutes: b[14] as i8,
        offset_seconds: b[15] as i8,
    };
    proof {
        lemma_skip_skip(buf@, pos as int, 16);
        assert(b@ == buf@.skip(pos as int).take(16));
        assert(t == timestamp_of_bytes(b@));
    }
    if !calendar_date_ok(t.year, t.ordinal) {
        return None;
    }
    if !clock_time_ok(t.hour, t.minute, t.second, t.nanosecond) {
        return None;
    }
    if !utc_offset_ok(t.offset_hours, t.offset_minutes, t.offset_seconds) {
        return None;
    }
    Some((t, pos + 16))
}

fn read_header(buf: &[u8], pos: usize) -> (r: Option<(ProtocolHeader, usize)>)
    requires
        pos <= buf@.len(),
    ensures
        match r {
            Some((v, p)) => pos <= p <= buf@.len() && parse_header(buf@.skip(pos as int)) == Some(
                (v@, buf@.skip(p as int)),
            ),
            None => parse_header(buf@.skip(pos as int)) is None,
        },
{
    let (protocol_version, p1) = match read_u16(buf, pos) {
        Some(x) => x,
        None => {
            return None;
        },
    };
    let (message_type, p2) = match read_message_type(buf, p1) {
        Some(x) => x,
        None => {
            return None;
        },
    };
    let (cipher_suite_id, p3) = match read_text(buf, p2) {
        Some(x) => x,
        None => {
            return None;
        },
    };
    let (session_id, p4) = match read_id(buf, p3) {
        Some(x) => x,
        None => {
            return None;
        },
    };
    let (sender_device_id, p5) = match read_id(buf, p4) {
        Some(x) => x,
        None => {
            return None;
        },
    };
    let (sender_fingerprint, p6) = match read_text(buf, p5) {
        Some(x) => x,
        None => {
            return None;
        },
    };
    let (timestamp, p7) = match read_timestamp(buf, p6) {
        Some(x) => x,
        None => {
            return None;
        },
    };
    Some(
        (
            ProtocolHeader {
                protocol_version,
                message_type,
                cipher_suite_id,
                session_id,
                sender_device_id,
                sender_fingerprint,
                timestamp,
            },
            p7,
        ),
    )
}

fn read_ratchet_header(buf: &[u8], pos: usize) -> (r: Option<(RatchetHeaderData, usize)>)
    requires
        pos <= buf@.len(),
    ensures
        match r {
            Some((v, p)) => pos <= p <= buf@.len() && parse_ratchet_header(buf@.skip(pos as int))
                == Some((v@, buf@.skip(p as int))),
            None => parse_ratchet_header(buf@.skip(pos as int)) is None,
        },
{
    let (ratchet_public_key, p1) = match read_bytes(buf, pos) {
        Some(x) => x,
        None => {
            return None;
        },
    };
    let (message_number, p2) = match read_u32(buf, p1) {
        Some(x) => x,
        None => {
            return None;
        },
    };
    let (previous_chain_length, p3) = match read_u32(buf, p2) {
        Some(x) => x,
        None => {
            return None;
        },
    };
    Some((RatchetHeaderData { ratchet_public_key, message_number, previous_chain_length }, p3))
}

/// Reads the envelope at the start of `bytes`; bytes after it are ignored.
pub fn decode_wire_envelope(bytes: &[u8]) -> (r: Option<WireEnvelope>)
    ensures
        match r {
            Some(w) => parse_wire(bytes@) == Some(w@),
            None => parse_wire(bytes@) is None,
        },
{
    assert(bytes@.skip(0) =~= bytes@);
    let (header, p1) = match read_header(bytes, 0) {
        Some(x) => x,
        None => {
            return None;
        },
    };
    let (ratchet_header, p2) = match read_ratchet_header(bytes, p1) {
        Some(x) => x,
        None => {
            return None;
        },
    };
    let (ratchet_header_bytes, p3) = match read_bytes(bytes, p2) {
        Some(x) => x,
        None => {
            return None;
        },
    };
    let (nonce, p4) = match read_fixed(bytes, p3, 12) {
        Some(x) => x,
        None => {
            return None;
        },
    };
    let (ciphertext, p5) = match read_bytes(bytes, p4) {
        Some(x) => x,
        None => {
            return None;
        },
    };
    let (signer, p6) = match read_fixed(bytes, p5, 32) {
        Some(x) => x,
        None => {
            return None;
        },
    };
    let (signature, _p7) = match read_bytes(bytes, p6) {
        Some(x) => x,
        None => {
            return None;
        },
    };
    proof {
        assert(nonce@.len() == 12);
        assert(signer@.len() == 32);
    }
    let w = WireEnvelope {
        header,
        ratchet_header,
        ratchet_header_bytes,
        nonce: nonce_from_slice(nonce.as_slice()),
        ciphertext,
        signature: SignedEnvelope {
            signer_public_key: key_from_slice(signer.as_slice()),
            signature,
        },
    };
    Some(w)
}

} // verus!
