//! Sealing and opening messages: padding to a size bucket, ratchet
//! encryption, the signed binary envelope and its base64 transport form.
//!
//! The message itself travels as its canonical JSON bytes, which the caller
//! produces and reads; this module pads, encrypts, frames, signs and checks
//! those bytes.
use vstd::prelude::*;
use crate::crypto::{
    copy_bytes, envelope_verifies, sign_bytes, verify_signature, CryptoError, DeviceKeys,
    IdentityKeypair, SignedEnvelopeValue,
};
use crate::primitives::{
    base64_decode, base64_decode_no_pad, base64_encode, base64_encode_no_pad, ed25519_signature,
    now_wire_timestamp, ratchet_after_send, ratchet_next_header, ratchet_opened, ratchet_sealed,
    wire_timestamp_valid,
};
use crate::ratchet::{
    in_step, remembered, replay_key_value, skip_allowed, skipped_keys, RatchetCiphertext,
    RatchetError, RatchetHeaderWire, SessionState,
};
use crate::spec_types::{
    AttachmentManifest, cipher_suite_v1, ensure_v1, HeaderValue, MessageType, ProtocolHeader, RatchetHeaderData,
    RatchetHeaderValue, ReplayKeyValue, SpecError, WireTimestamp, CIPHER_SUITE_V1,
    PROTOCOL_VERSION_V1,
};
use crate::wire::{
    decode_wire_envelope, enc_wire, encode_signed_payload, encode_wire_envelope, parse_wire,
    signed_payload, wire_encodable, WireEnvelope, WireEnvelopeValue, lemma_wire_roundtrip,
};

use crate::text::{
    bytes_come_first, bytes_precede, lemma_bytes_precede_total, lemma_bytes_precede_transitive,
    same_id,
};

verus! {

broadcast use vstd::seq_lib::group_seq_properties;

#[derive(Debug)]
pub enum EnvelopeError {
    /// The transport text is not base64.
    InvalidBase64,
    /// The bytes do not hold an envelope.
    MalformedEnvelope,
    /// The envelope is of another protocol version or cipher suite.
    Spec(SpecError),
    /// The envelope signature does not check out.
    Crypto(CryptoError),
    /// The ratchet session refused the message.
    Ratchet(RatchetError),
}

/// The padded length of a plaintext of `n` bytes: the first of 512, 1024,
/// 2048, 4096 and 8192 that holds it, else the next multiple of 16384 above
/// `n` rounded down.
pub open spec fn padded_len(n: nat) -> nat {
    if n <= 512 {
        512
    } else if n <= 1024 {
        1024
    } else if n <= 2048 {
        2048
    } else if n <= 4096 {
        4096
    } else if n <= 8192 {
        8192
    } else {
        ((n / 16384) + 1) * 16384
    }
}

/// A plaintext followed by zero bytes up to its padded length.
pub open spec fn padded(p: Seq<u8>) -> Seq<u8> {
    p + Seq::new((padded_len(p.len()) - p.len()) as nat, |i: int| 0u8)
}

/// The bytes before the first zero byte (all of them when there is none).
pub open spec fn unpadded(s: Seq<u8>) -> Seq<u8>
    decreases s.len(),
{
    if s.len() == 0 {
        s
    } else if s[0] == 0 {
        Seq::empty()
    } else {
        seq![s[0]] + unpadded(s.drop_first())
    }
}

/// Pads a plaintext with zero bytes to its size bucket.
pub fn padded_plaintext(plaintext: &[u8]) -> (r: Vec<u8>)
    requires
        (plaintext@.len() / 16384 + 1) * 16384 <= usize::MAX,
    ensures
        r@ == padded(plaintext@),
{
    let n = plaintext.len();
    let target: usize = if n <= 512 {
        512
    } else if n <= 1024 {
        1024
    } else if n <= 2048 {
        2048
    } else if n <= 4096 {
        4096
    } else if n <= 8192 {
        8192
    } else {
        ((n / 16384) + 1) * 16384
    };
    assert(target >= n) by (nonlinear_arith)
        requires
            n > 8192 ==> target == ((n / 16384) + 1) * 16384,
            n <= 8192 ==> target >= n,
    ;
    let mut out = copy_bytes(plaintext);
    while out.len() < target
        invariant
            n <= out@.len() <= target,
            target == padded_len(n as nat),
            out@ == plaintext@ + Seq::new((out@.len() - n) as nat, |i: int| 0u8),
        decreases target - out@.len(),
    {
        out.push(0u8);
        assert(out@ =~= plaintext@ + Seq::new((out@.len() - n) as nat, |i: int| 0u8));
    }
    out
}

proof fn lemma_unpadded_prefix(s: Seq<u8>, i: int)
    requires
        0 <= i <= s.len(),
        forall|j: int| 0 <= j < i ==> s[j] != 0,
        i == s.len() || s[i] == 0,
    ensures
        unpadded(s) == s.take(i),
    decreases s.len(),
{
    if s.len() == 0 {
        assert(s.take(i) =~= s);
    } else if i == 0 {
        assert(s.take(i) =~= Seq::<u8>::empty());
    } else {
        let t = s.drop_first();
        assert forall|j: int| 0 <= j < i - 1 implies t[j] != 0 by {
            assert(t[j] == s[j + 1]);
        }
        if i < s.len() {
            assert(t[i - 1] == s[i]);
        }
        lemma_unpadded_prefix(t, i - 1);
        assert(seq![s[0]] + t.take(i - 1) =~= s.take(i));
    }
}

/// Removes the padding: keeps the bytes before the first zero byte.
pub fn unpad_plaintext(plaintext: &[u8]) -> (r: Vec<u8>)
    ensures
        r@ == unpadded(plaintext@),
{
    let mut i: usize = 0;
    while i < plaintext.len() && plaintext[i] != 0
        invariant
            i <= plaintext@.len(),
            forall|j: int| 0 <= j < i ==> plaintext@[j] != 0,
        decreases plaintext@.len() - i,
    {
        i = i + 1;
    }
    proof {
        lemma_unpadded_prefix(plaintext@, i as int);
        assert(plaintext@.take(i as int) == plaintext@.subrange(0, i as int));
    }
    copy_bytes(vstd::slice::slice_subrange(plaintext, 0, i))
}

/// Padding round trip: removing the padding of a plaintext without zero
/// bytes gives it back, and the padded length is its size bucket, at least
/// the plaintext's length.
pub proof fn lemma_unpad_padded(p: Seq<u8>)
    requires
        forall|j: int| 0 <= j < p.len() ==> p[j] != 0,
    ensures
        unpadded(padded(p)) == p,
        padded(p).len() == padded_len(p.len()),
        padded_len(p.len()) >= p.len(),
        padded(p).take(p.len() as int) == p,
{
    let n = p.len();
    assert(padded_len(n) >= n) by (nonlinear_arith)
        requires
            n > 8192 ==> padded_len(n) == ((n / 16384) + 1) * 16384,
            n <= 8192 ==> padded_len(n) >= n,
    ;
    let s = padded(p);
    assert forall|j: int| 0 <= j < n implies s[j] != 0 by {
        assert(s[j] == p[j]);
    }
    if n < s.len() {
        assert(s[n as int] == 0u8);
    }
    lemma_unpadded_prefix(s, n as int);
    assert(s.take(n as int) =~= p);
}

/// The size bucket of a plaintext length: one of the five fixed buckets up to
/// 8192 bytes, then one per 16384-byte step.
pub open spec fn size_bucket(n: nat) -> int {
    if n <= 512 {
        0
    } else if n <= 1024 {
        1
    } else if n <= 2048 {
        2
    } else if n <= 4096 {
        3
    } else if n <= 8192 {
        4
    } else {
        5 + (n / 16384) as int
    }
}

/// The padded length reveals the size bucket and nothing more: two plaintext
/// lengths pad to the same length exactly when they fall in the same bucket.
/// Padding never shortens, grows with the plaintext, and always yields a
/// multiple of 512 bytes.
pub proof fn lemma_padding_reveals_only_bucket(n1: nat, n2: nat)
    ensures
        padded_len(n1) == padded_len(n2) <==> size_bucket(n1) == size_bucket(n2),
        n1 <= n2 ==> padded_len(n1) <= padded_len(n2),
        padded_len(n1) >= n1,
        padded_len(n1) % 512 == 0,
{
    assert(n1 > 8192 ==> padded_len(n1) >= n1 && padded_len(n1) % 512 == 0 && padded_len(n1)
        >= 16384) by (nonlinear_arith)
        requires
            n1 > 8192 ==> padded_len(n1) == ((n1 / 16384) + 1) * 16384,
    ;
    assert(n2 > 8192 ==> padded_len(n2) >= 16384) by (nonlinear_arith)
        requires
            n2 > 8192 ==> padded_len(n2) == ((n2 / 16384) + 1) * 16384,
    ;
    assert(n1 > 8192 && n2 > 8192 ==> (padded_len(n1) == padded_len(n2) <==> n1 / 16384 == n2
        / 16384)) by (nonlinear_arith)
        requires
            n1 > 8192 ==> padded_len(n1) == ((n1 / 16384) + 1) * 16384,
            n2 > 8192 ==> padded_len(n2) == ((n2 / 16384) + 1) * 16384,
    ;
    assert(n1 <= n2 && n1 > 8192 ==> padded_len(n1) <= padded_len(n2)) by (nonlinear_arith)
        requires
            n1 > 8192 ==> padded_len(n1) == ((n1 / 16384) + 1) * 16384,
            n2 > 8192 ==> padded_len(n2) == ((n2 / 16384) + 1) * 16384,
    ;
}

/// A plaintext 16384 bytes short of 2^36 pads to at most 2^36 bytes.
proof fn lemma_padded_len_bound(n: nat)
    requires
        n + 16384 <= 0x10_0000_0000,
    ensures
        padded_len(n) <= 0x10_0000_0000,
{
    assert(n > 8192 ==> ((n / 16384) + 1) * 16384 <= 0x10_0000_0000) by (nonlinear_arith)
        requires
            n + 16384 <= 0x10_0000_0000,
    ;
}

/// Whether attachment `x` comes before attachment `y` in the canonical order
/// of a message's attachments: by id, in lexicographic order of its bytes,
/// and among equal ids in their original order.
pub open spec fn attachment_before(ids: Seq<[u8; 16]>, x: int, y: int) -> bool {
    ||| bytes_precede(ids[x]@, ids[y]@) && ids[x]@ != ids[y]@
    ||| ids[x]@ == ids[y]@ && x < y
}

/// Whether `order` lists the positions of the attachments with ids `ids` in
/// canonical order: each position once, sorted by `attachment_before`.
pub open spec fn is_canonical_order(ids: Seq<[u8; 16]>, order: Seq<usize>) -> bool {
    &&& order.len() == ids.len()
    &&& forall|i: int| 0 <= i < order.len() ==> order[i] < ids.len()
    &&& forall|m: usize| m < ids.len() ==> #[trigger] order.contains(m)
    &&& forall|i: int, j: int|
        0 <= i < j < order.len() ==> attachment_before(ids, #[trigger] order[i] as int, #[trigger] order[j] as int)
}

/// `attachment_before` is a strict order on positions.
proof fn lemma_attachment_before_order(ids: Seq<[u8; 16]>, x: int, y: int, z: int)
    ensures
        !attachment_before(ids, x, x),
        x != y ==> attachment_before(ids, x, y) || attachment_before(ids, y, x),
        attachment_before(ids, x, y) && attachment_before(ids, y, z) ==> attachment_before(ids, x, z),
{
    lemma_bytes_precede_total(ids[x]@, ids[y]@);
    lemma_bytes_precede_total(ids[x]@, ids[z]@);
    lemma_bytes_precede_total(ids[y]@, ids[z]@);
    if attachment_before(ids, x, y) && attachment_before(ids, y, z) {
        if bytes_precede(ids[x]@, ids[y]@) && bytes_precede(ids[y]@, ids[z]@) {
            lemma_bytes_precede_transitive(ids[x]@, ids[y]@, ids[z]@);
        }
    }
}

/// Whether byte string `a` comes strictly before `b` in lexicographic order.
pub open spec fn bytes_before(a: Seq<u8>, b: Seq<u8>) -> bool {
    bytes_precede(a, b) && a != b
}

/// Whether a sequence of byte strings is strictly increasing.
pub open spec fn strictly_increasing(s: Seq<Seq<u8>>) -> bool {
    forall|i: int, j: int| 0 <= i < j < s.len() ==> bytes_before(#[trigger] s[i], #[trigger] s[j])
}

/// Two strictly increasing sequences holding the same byte strings are equal.
proof fn lemma_sorted_unique(a: Seq<Seq<u8>>, b: Seq<Seq<u8>>)
    requires
        strictly_increasing(a),
        strictly_increasing(b),
        forall|x: Seq<u8>| a.contains(x) <==> b.contains(x),
    ensures
        a == b,
    decreases a.len(),
{
    if a.len() == 0 {
        if b.len() > 0 {
            assert(b.contains(b[0]));
        }
        assert(a =~= b);
    } else {
        assert(a.contains(a[0]));
        assert(b.len() > 0);
        assert(b.contains(b[0]));
        let j = choose|j: int| 0 <= j < b.len() && b[j] == a[0];
        let i = choose|i: int| 0 <= i < a.len() && a[i] == b[0];
        if a[0] != b[0] {
            assert(i > 0 && j > 0);
            assert(bytes_before(b[0], b[j]));
            assert(bytes_before(a[0], a[i]));
            lemma_bytes_precede_total(a[0], b[0]);
            assert(false);
        }
        let ta = a.drop_first();
        let tb = b.drop_first();
        assert(strictly_increasing(ta)) by {
            assert forall|x: int, y: int| 0 <= x < y < ta.len() implies bytes_before(#[trigger] ta[x], #[trigger] ta[y]) by {
                assert(ta[x] == a[x + 1] && ta[y] == a[y + 1]);
            }
        }
        assert(strictly_increasing(tb)) by {
            assert forall|x: int, y: int| 0 <= x < y < tb.len() implies bytes_before(#[trigger] tb[x], #[trigger] tb[y]) by {
                assert(tb[x] == b[x + 1] && tb[y] == b[y + 1]);
            }
        }
        assert forall|x: Seq<u8>| ta.contains(x) <==> tb.contains(x) by {
            if ta.contains(x) {
                let k = choose|k: int| 0 <= k < ta.len() && ta[k] == x;
                assert(a[k + 1] == x);
                assert(bytes_before(a[0], a[k + 1]));
                assert(a.contains(x));
                let m = choose|m: int| 0 <= m < b.len() && b[m] == x;
                assert(m != 0);
                assert(tb[m - 1] == x);
            }
            if tb.contains(x) {
                let k = choose|k: int| 0 <= k < tb.len() && tb[k] == x;
                assert(b[k + 1] == x);
                assert(bytes_before(b[0], b[k + 1]));
                assert(b.contains(x));
                let m = choose|m: int| 0 <= m < a.len() && a[m] == x;
                assert(m != 0);
                assert(ta[m - 1] == x);
            }
        }
        lemma_sorted_unique(ta, tb);
        assert(a =~= seq![a[0]] + ta);
        assert(b =~= seq![b[0]] + tb);
    }
}

/// The byte views of attachment ids.
pub open spec fn id_views(ids: Seq<[u8; 16]>) -> Seq<Seq<u8>> {
    ids.map_values(|id: [u8; 16]| id@)
}

/// The attachment ids in the order given by `order`.
pub open spec fn ordered_ids(ids: Seq<[u8; 16]>, order: Seq<usize>) -> Seq<Seq<u8>> {
    order.map_values(|i: usize| ids[i as int]@)
}

/// Whether no two attachments share an id.
pub open spec fn distinct_ids(ids: Seq<[u8; 16]>) -> bool {
    forall|i: int, j: int| 0 <= i < j < ids.len() ==> (#[trigger] ids[i])@ != (#[trigger] ids[j])@
}

/// The canonical order does not depend on how the attachments were arranged:
/// two lists holding the same distinct ids list them in the same order.
pub proof fn lemma_canonical_order_ignores_arrangement(
    ids1: Seq<[u8; 16]>,
    order1: Seq<usize>,
    ids2: Seq<[u8; 16]>,
    order2: Seq<usize>,
)
    requires
        is_canonical_order(ids1, order1),
        is_canonical_order(ids2, order2),
        distinct_ids(ids1),
        distinct_ids(ids2),
        ids1.len() <= usize::MAX,
        ids2.len() <= usize::MAX,
        forall|x: Seq<u8>| id_views(ids1).contains(x) <==> id_views(ids2).contains(x),
    ensures
        ordered_ids(ids1, order1) == ordered_ids(ids2, order2),
{
    lemma_canonical_ids_sorted(ids1, order1);
    lemma_canonical_ids_sorted(ids2, order2);
    let a = ordered_ids(ids1, order1);
    let b = ordered_ids(ids2, order2);
    assert forall|x: Seq<u8>| a.contains(x) <==> b.contains(x) by {
        assert(a.contains(x) <==> id_views(ids1).contains(x));
        assert(b.contains(x) <==> id_views(ids2).contains(x));
    }
    lemma_sorted_unique(ordered_ids(ids1, order1), ordered_ids(ids2, order2));
}

/// In canonical order, distinct ids are strictly increasing, and the ordered
/// ids are exactly the ids.
proof fn lemma_canonical_ids_sorted(ids: Seq<[u8; 16]>, order: Seq<usize>)
    requires
        is_canonical_order(ids, order),
        distinct_ids(ids),
        ids.len() <= usize::MAX,
    ensures
        strictly_increasing(ordered_ids(ids, order)),
        forall|x: Seq<u8>| ordered_ids(ids, order).contains(x) <==> id_views(ids).contains(x),
{
    let s = ordered_ids(ids, order);
    assert forall|i: int, j: int| 0 <= i < j < s.len() implies bytes_before(#[trigger] s[i], #[trigger] s[j]) by {
        assert(attachment_before(ids, order[i] as int, order[j] as int));
        let x = order[i] as int;
        let y = order[j] as int;
        if ids[x]@ == ids[y]@ {
            if x < y {
                assert(ids[x]@ != ids[y]@);
            } else if y < x {
                assert(ids[y]@ != ids[x]@);
            }
        }
    }
    assert forall|x: Seq<u8>| s.contains(x) <==> id_views(ids).contains(x) by {
        if s.contains(x) {
            let k = choose|k: int| 0 <= k < s.len() && s[k] == x;
            assert(id_views(ids)[order[k] as int] == x);
        }
        if id_views(ids).contains(x) {
            let m = choose|m: int| 0 <= m < id_views(ids).len() && id_views(ids)[m] == x;
            assert(order.contains(m as usize));
            let k = choose|k: int| 0 <= k < order.len() && order[k] == m as usize;
            assert(id_views(ids)[m] == ids[m]@);
            assert(s[k] == ids[order[k] as int]@);
            assert(s[k] == x);
        }
    }
}

/// The ids of a message's attachments.
pub open spec fn attachment_ids(attachments: Seq<AttachmentManifest>) -> Seq<[u8; 16]> {
    attachments.map_values(|a: AttachmentManifest| a.attachment_id)
}

/// The order in which a message's canonical JSON lists its attachments: the
/// positions of the attachments sorted by id, equal ids keeping their order.
pub fn canonical_attachment_order(attachments: &[AttachmentManifest]) -> (r: Vec<usize>)
    ensures
        is_canonical_order(attachment_ids(attachments@), r@),
{
    let ghost ids = attachment_ids(attachments@);
    let n = attachments.len();
    let mut order: Vec<usize> = Vec::new();
    let mut k: usize = 0;
    while k < n
        invariant
            k <= n,
            n == attachments@.len(),
            ids == attachment_ids(attachments@),
            order@.len() == k,
            forall|i: int| 0 <= i < k ==> order@[i] < k,
            forall|m: usize| m < k ==> #[trigger] order@.contains(m),
            forall|i: int, j: int|
                0 <= i < j < k ==> attachment_before(ids, #[trigger] order@[i] as int, #[trigger] order@[j] as int),
        decreases n - k,
    {
        let mut p: usize = 0;
        while p < k && !(bytes_come_first(&attachments[k].attachment_id, &attachments[order[p]].attachment_id)
            && !same_id(&attachments[k].attachment_id, &attachments[order[p]].attachment_id))
            invariant
                p <= k,
                k < n,
                n == attachments@.len(),
                ids == attachment_ids(attachments@),
                order@.len() == k,
                forall|i: int| 0 <= i < k ==> order@[i] < k,
                forall|i: int| 0 <= i < p ==> attachment_before(ids, #[trigger] order@[i] as int, k as int),
            decreases k - p,
        {
            proof {
                let o = order@[p as int] as int;
                lemma_attachment_before_order(ids, o, k as int, o);
                assert(ids[k as int] == attachments@[k as int].attachment_id);
                assert(ids[o] == attachments@[o].attachment_id);
            }
            p = p + 1;
        }
        let ghost old_order = order@;
        proof {
            if p < k {
                let o = old_order[p as int] as int;
                assert(ids[k as int] == attachments@[k as int].attachment_id);
                assert(ids[o] == attachments@[o].attachment_id);
                assert(attachment_before(ids, k as int, o));
            }
        }
        order.insert(p, k);
        proof {
            assert forall|m: usize| m < k + 1 implies #[trigger] order@.contains(m) by {
                if m == k {
                    assert(order@[p as int] == k);
                } else {
                    assert(old_order.contains(m));
                    let t = choose|t: int| 0 <= t < old_order.len() && old_order[t] == m;
                    if t < p {
                        assert(order@[t] == m);
                    } else {
                        assert(order@[t + 1] == m);
                    }
                }
            }
            assert forall|i: int, j: int|
                0 <= i < j < k + 1 implies attachment_before(ids, #[trigger] order@[i] as int, #[trigger] order@[j] as int) by {
                if j < p {
                    assert(order@[i] == old_order[i] && order@[j] == old_order[j]);
                } else if j == p {
                    assert(order@[i] == old_order[i]);
                } else if i == p {
                    assert(order@[j] == old_order[j - 1]);
                    if j - 1 > p {
                        assert(attachment_before(ids, old_order[p as int] as int, old_order[j - 1] as int));
                        lemma_attachment_before_order(ids, k as int, old_order[p as int] as int, old_order[j - 1] as int);
                    }
                } else if i < p {
                    assert(order@[i] == old_order[i] && order@[j] == old_order[j - 1]);
                } else {
                    assert(order@[i] == old_order[i - 1] && order@[j] == old_order[j - 1]);
                }
            }
        }
        k = k + 1;
    }
    order
}

/// The protocol header of a sealed message.
pub open spec fn sealed_header(
    sender_device_id: Seq<u8>,
    sender_fingerprint: Seq<char>,
    session_id: Seq<u8>,
    timestamp: WireTimestamp,
) -> HeaderValue {
    HeaderValue {
        protocol_version: PROTOCOL_VERSION_V1,
        message_type: MessageType::Ciphertext,
        cipher_suite_id: cipher_suite_v1(),
        session_id,
        sender_device_id,
        sender_fingerprint,
        timestamp,
    }
}

/// The envelope of a ratchet message: version-1 header, the ratchet header
/// fields, and the sender's signature over header, ratchet header and ciphertext.
pub open spec fn sealed_envelope(
    identity: IdentityKeypair,
    sender_device_id: Seq<u8>,
    sender_fingerprint: Seq<char>,
    session_id: Seq<u8>,
    timestamp: WireTimestamp,
    payload: RatchetCiphertext,
) -> WireEnvelopeValue {
    let header = sealed_header(sender_device_id, sender_fingerprint, session_id, timestamp);
    let ratchet_header = RatchetHeaderValue {
        ratchet_public_key: payload.header.public_key@,
        message_number: payload.header.message_number,
        previous_chain_length: payload.header.previous_chain_length,
    };
    WireEnvelopeValue {
        header,
        ratchet_header,
        ratchet_header_bytes: payload.header.serialized_header@,
        nonce: payload.nonce@,
        ciphertext: payload.ciphertext@,
        signature: SignedEnvelopeValue {
            signer_public_key: identity.verifying_key@,
            signature: ed25519_signature(
                identity.signing_key@,
                signed_payload(header, ratchet_header, payload.ciphertext@),
            ),
        },
    }
}

/// The envelope carried by a transport text, if the text is base64 of one.
pub open spec fn decoded_envelope(encoded: Seq<char>) -> Option<WireEnvelopeValue> {
    match base64_decode(encoded) {
        Some(b) => parse_wire(b),
        None => None,
    }
}

/// Whether an envelope is of protocol version 1 with the version-1 cipher
/// suite and carries a valid signature by its signer key.
pub open spec fn envelope_accepted(w: WireEnvelopeValue) -> bool {
    &&& w.header.protocol_version == PROTOCOL_VERSION_V1
    &&& w.header.cipher_suite_id == cipher_suite_v1()
    &&& envelope_verifies(
        signed_payload(w.header, w.ratchet_header, w.ciphertext),
        w.signature,
    )
}

/// Frames one ratchet message: builds the version-1 header, signs header,
/// ratchet header and ciphertext with the sender's identity, and returns the
/// envelope's bytes in base64. When the timestamp is valid, the text opens
/// back to this envelope; when the sender's identity is well formed, its
/// signature verifies.
pub fn frame_envelope(
    identity: &IdentityKeypair,
    sender_device_id: [u8; 16],
    sender_fingerprint: String,
    session_id: [u8; 16],
    timestamp: WireTimestamp,
    payload: RatchetCiphertext,
) -> (r: String)
    ensures
        ({
            let w = sealed_envelope(
                *identity,
                sender_device_id@,
                sender_fingerprint@,
                session_id@,
                timestamp,
                payload,
            );
            &&& r@ == base64_encode(enc_wire(w))
            &&& wire_timestamp_valid(timestamp) ==> decoded_envelope(r@) == Some(w)
            &&& identity.wf() ==> envelope_accepted(w)
        }),
{
    let ghost payload_value = payload;
    let header = ProtocolHeader {
        protocol_version: PROTOCOL_VERSION_V1,
        message_type: MessageType::Ciphertext,
        cipher_suite_id: String::from_str(CIPHER_SUITE_V1),
        session_id,
        sender_device_id,
        sender_fingerprint,
        timestamp,
    };
    let ratchet_header = RatchetHeaderData {
        ratchet_public_key: copy_bytes(payload.header.public_key.as_slice()),
        message_number: payload.header.message_number,
        previous_chain_length: payload.header.previous_chain_length,
    };
    let signed_bytes = encode_signed_payload(&header, &ratchet_header, payload.ciphertext.as_slice());
    let signature = sign_bytes(identity, signed_bytes.as_slice());
    let wire = WireEnvelope {
        header,
        ratchet_header,
        ratchet_header_bytes: payload.header.serialized_header,
        nonce: payload.nonce,
        ciphertext: payload.ciphertext,
        signature,
    };
    let bytes = encode_wire_envelope(&wire);
    proof {
        let w = sealed_envelope(
            *identity,
            sender_device_id@,
            wire.header.sender_fingerprint@,
            session_id@,
            timestamp,
            payload_value,
        );
        assert(wire@ == w);
        if wire_timestamp_valid(timestamp) {
            assert(wire_encodable(w));
            lemma_wire_roundtrip(w, Seq::empty());
            assert(enc_wire(w) + Seq::<u8>::empty() =~= enc_wire(w));
        }
    }
    base64_encode_no_pad(bytes.as_slice())
}

/// Seals the canonical JSON bytes of a message for the session: pads them,
/// encrypts the padded bytes with the ratchet (which needs a sending chain),
/// and frames, signs and base64-encodes the envelope, stamped with the
/// current time. The result opens back to a version-1 envelope of this
/// session and sender, signed by the sender's identity key, carrying the
/// ratchet's next header and its sealing of the padded bytes, whose
/// ciphertext length depends only on the size bucket of the message; the
/// signature verifies when the identity key pair is well formed. Every
/// session in step with the sender decrypts the envelope to the padded bytes,
/// and so, for JSON without zero bytes, opens it to the JSON that went in.
pub fn seal_message(
    sender_keys: &DeviceKeys,
    sender_device_id: [u8; 16],
    sender_fingerprint: String,
    ratchet: &mut SessionState,
    session_id: [u8; 16],
    message_json: &[u8],
) -> (r: String)
    requires
        old(ratchet).wf(),
        old(ratchet).can_send,
        (message_json@.len() / 16384 + 1) * 16384 <= usize::MAX,
        message_json@.len() + 16384 <= 0x10_0000_0000,
    ensures
        final(ratchet).wf(),
        final(ratchet).can_send,
        final(ratchet).session_id == old(ratchet).session_id,
        final(ratchet).replay_cache@ == old(ratchet).replay_cache@,
        final(ratchet).receiving_chain@ == old(ratchet).receiving_chain@,
        final(ratchet).next_message_number == old(ratchet).next_message_number,
        final(ratchet).ratchet == ratchet_after_send(old(ratchet).ratchet),
        decoded_envelope(r@) matches Some(w) && w.header == sealed_header(
            sender_device_id@,
            sender_fingerprint@,
            session_id@,
            w.header.timestamp,
        ) && w.signature.signer_public_key == sender_keys.identity.verifying_key@
            && w.signature.signature == ed25519_signature(
            sender_keys.identity.signing_key@,
            signed_payload(w.header, w.ratchet_header, w.ciphertext),
        ) && carries_ratchet_header(old(ratchet).ratchet, w) && w.ciphertext == ratchet_sealed(
            old(ratchet).ratchet,
            padded(message_json@),
            Seq::empty(),
            w.nonce,
        ) && w.ciphertext.len() == padded_len(message_json@.len()) + 16 && (forall|peer: SessionState|
            #[trigger] in_step(*old(ratchet), peer) ==> envelope_opened(peer, w) == Some(
                padded(message_json@),
            )) && ((forall|i: int| 0 <= i < message_json@.len() ==> message_json@[i] != 0) ==> (
        forall|peer: SessionState|
            #[trigger] in_step(*old(ratchet), peer) ==> (envelope_opened(peer, w) matches Some(p)
                && unpadded(p) == message_json@))),
        sender_keys.identity.wf() ==> (decoded_envelope(r@) matches Some(w) && envelope_accepted(w)),
{
    let padded_bytes = padded_plaintext(message_json);
    proof {
        lemma_padded_len_bound(message_json@.len());
    }
    let empty: Vec<u8> = Vec::new();
    let ghost before = *ratchet;
    let payload = ratchet.encrypt(padded_bytes.as_slice(), empty.as_slice());
    let ghost payload_value = payload;
    let ghost fingerprint = sender_fingerprint@;
    let timestamp = now_wire_timestamp();
    let r = frame_envelope(&sender_keys.identity, sender_device_id, sender_fingerprint, session_id, timestamp, payload);
    proof {
        let w = sealed_envelope(
            sender_keys.identity,
            sender_device_id@,
            fingerprint,
            session_id@,
            timestamp,
            payload_value,
        );
        assert(empty@ =~= Seq::<u8>::empty());
        assert(w.ciphertext.len() == padded_len(message_json@.len()) + 16);
        assert(w.header == sealed_header(sender_device_id@, fingerprint, session_id@, w.header.timestamp));
        assert(carries_ratchet_header(before.ratchet, w));
        if forall|i: int| 0 <= i < message_json@.len() ==> message_json@[i] != 0 {
            lemma_unpad_padded(message_json@);
        }
        assert forall|peer: SessionState| #[trigger] in_step(before, peer) implies envelope_opened(peer, w)
            == Some(padded(message_json@)) by {
        }
    }
    r
}

/// Whether an envelope carries a ratchet's next header: its serialisation,
/// its public key, and its message number and previous chain length truncated
/// to 32 bits.
pub open spec fn carries_ratchet_header(ratchet: double_ratchet_2::ratchet::Ratchet, w: WireEnvelopeValue) -> bool {
    let h = ratchet_next_header(ratchet);
    &&& w.ratchet_header_bytes == h.serialized
    &&& w.ratchet_header.ratchet_public_key == h.public_key
    &&& w.ratchet_header.message_number == h.n as u32
    &&& w.ratchet_header.previous_chain_length == h.pn as u32
}

/// The replay key of an envelope from `sender_device_id` in the session.
pub open spec fn envelope_replay_key(session: SessionState, sender_device_id: Seq<u8>, w: WireEnvelopeValue) -> ReplayKeyValue {
    replay_key_value(
        session.session_id@,
        sender_device_id,
        w.ratchet_header.ratchet_public_key,
        w.ratchet_header.message_number,
        w.ciphertext,
    )
}

/// How many message keys the session would skip to accept the envelope.
pub open spec fn envelope_skipped(session: SessionState, w: WireEnvelopeValue) -> int {
    skipped_keys(
        session.receiving_chain@,
        session.next_message_number,
        w.ratchet_header.ratchet_public_key,
        w.ratchet_header.previous_chain_length,
        w.ratchet_header.message_number,
    )
}

/// Whether an envelope passes every check before the ratchet: version,
/// cipher suite and signature, then the replay cache and the skipped-key bound.
pub open spec fn envelope_reaches_ratchet(session: SessionState, sender_device_id: Seq<u8>, w: WireEnvelopeValue) -> bool {
    &&& envelope_accepted(w)
    &&& !session.log().contains(envelope_replay_key(session, sender_device_id, w))
    &&& skip_allowed(envelope_skipped(session, w))
}

/// What the session's ratchet decrypts the envelope's ciphertext to, with
/// empty associated data.
pub open spec fn envelope_opened(session: SessionState, w: WireEnvelopeValue) -> Option<Seq<u8>> {
    ratchet_opened(session.ratchet, w.ratchet_header_bytes, w.ciphertext, w.nonce, Seq::empty())
}

/// Opens a transport text from `sender_device_id`: decodes base64, reads the
/// envelope, checks protocol version and cipher suite, checks the signature
/// over header, ratchet header and ciphertext, then decrypts with the ratchet
/// (which refuses replays and messages beyond the skipped-key bound) and
/// removes the padding. Returns the message's JSON bytes: the unpadded
/// plaintext the ratchet gave. Every refusal leaves the session unchanged.
/// A message that passes every check must be one the ratchet can decrypt:
/// the ratchet crate panics on one it cannot authenticate.
#[verifier::rlimit(60)]
pub fn open_message(encoded: &str, sender_device_id: [u8; 16], ratchet: &mut SessionState) -> (r: Result<Vec<u8>, EnvelopeError>)
    requires
        old(ratchet).wf(),
        match decoded_envelope(encoded@) {
            Some(w) => envelope_reaches_ratchet(*old(ratchet), sender_device_id@, w)
                ==> envelope_opened(*old(ratchet), w) is Some,
            None => true,
        },
    ensures
        final(ratchet).wf(),
        final(ratchet).session_id == old(ratchet).session_id,
        r is Err ==> *final(ratchet) == *old(ratchet),
        match decoded_envelope(encoded@) {
            None => {
                &&& base64_decode(encoded@) is None ==> (r matches Err(EnvelopeError::InvalidBase64))
                &&& base64_decode(encoded@) is Some ==> (r matches Err(
                    EnvelopeError::MalformedEnvelope,
                ))
            },
            Some(w) => {
                let key = envelope_replay_key(*old(ratchet), sender_device_id@, w);
                &&& w.header.protocol_version != PROTOCOL_VERSION_V1 ==> (r matches Err(
                    EnvelopeError::Spec(SpecError::UnsupportedVersion(v)),
                ) && v == w.header.protocol_version)
                &&& w.header.protocol_version == PROTOCOL_VERSION_V1 && w.header.cipher_suite_id
                    != cipher_suite_v1() ==> (r matches Err(
                    EnvelopeError::Spec(SpecError::UnsupportedCipherSuite(c)),
                ) && c@ == w.header.cipher_suite_id)
                &&& w.header.protocol_version == PROTOCOL_VERSION_V1 && w.header.cipher_suite_id
                    == cipher_suite_v1() && !envelope_accepted(w) ==> (r matches Err(
                    EnvelopeError::Crypto(_),
                ))
                &&& envelope_accepted(w) && old(ratchet).log().contains(key) ==> (r matches Err(
                    EnvelopeError::Ratchet(RatchetError::ReplayDetected),
                ))
                &&& envelope_accepted(w) && !old(ratchet).log().contains(key) && !skip_allowed(
                    envelope_skipped(*old(ratchet), w),
                ) ==> (r matches Err(
                    EnvelopeError::Ratchet(RatchetError::SkippedKeyBoundExceeded),
                ))
                &&& r is Ok <==> envelope_reaches_ratchet(*old(ratchet), sender_device_id@, w)
                &&& r is Ok ==> final(ratchet).log() == remembered(old(ratchet).log(), key)
                    && final(ratchet).can_send
                &&& r matches Ok(json) ==> envelope_opened(*old(ratchet), w) matches Some(p)
                    && json@ == unpadded(p)
            },
        },
{
    let bytes = match base64_decode_no_pad(encoded) {
        Ok(b) => b,
        Err(_) => {
            return Err(EnvelopeError::InvalidBase64);
        },
    };
    let wire = match decode_wire_envelope(bytes.as_slice()) {
        Some(w) => w,
        None => {
            return Err(EnvelopeError::MalformedEnvelope);
        },
    };
    match ensure_v1(wire.header.protocol_version, wire.header.cipher_suite_id.as_str()) {
        Ok(()) => {},
        Err(e) => {
            return Err(EnvelopeError::Spec(e));
        },
    }
    let signed_bytes = encode_signed_payload(&wire.header, &wire.ratchet_header, wire.ciphertext.as_slice());
    match verify_signature(signed_bytes.as_slice(), &wire.signature) {
        Ok(()) => {},
        Err(e) => {
            return Err(EnvelopeError::Crypto(e));
        },
    }
    let payload = RatchetCiphertext {
        header: RatchetHeaderWire {
            serialized_header: wire.ratchet_header_bytes,
            public_key: wire.ratchet_header.ratchet_public_key,
            message_number: wire.ratchet_header.message_number,
            previous_chain_length: wire.ratchet_header.previous_chain_length,
        },
        ciphertext: wire.ciphertext,
        nonce: wire.nonce,
    };
    let empty: Vec<u8> = Vec::new();
    let plaintext = match ratchet.decrypt(sender_device_id, &payload, empty.as_slice()) {
        Ok(p) => p,
        Err(e) => {
            return Err(EnvelopeError::Ratchet(e));
        },
    };
    let json = unpad_plaintext(plaintext.as_slice());
    Ok(json)
}

/// A message sealed by a fresh session opens at its fresh peer, once: with
/// two sessions made from the same root key, the second for the first's
/// ratchet public key, and a sender whose identity key pair is well formed,
/// opening the sealed text gives back the JSON that went in, and opening the
/// same text again is refused as a replay (a refusal that, like every one of
/// `open_message`, leaves the session unchanged).
pub fn seal_and_open_on_fresh_sessions(
    sender_keys: &DeviceKeys,
    sender_device_id: [u8; 16],
    sender_fingerprint: String,
    session_id: [u8; 16],
    root_key: [u8; 32],
    message_json: &[u8],
) -> (r: (Result<Vec<u8>, EnvelopeError>, Result<Vec<u8>, EnvelopeError>))
    requires
        sender_keys.identity.wf(),
        forall|i: int| 0 <= i < message_json@.len() ==> message_json@[i] != 0,
        (message_json@.len() / 16384 + 1) * 16384 <= usize::MAX,
        message_json@.len() + 16384 <= 0x10_0000_0000,
    ensures
        r.0 matches Ok(json) && json@ == message_json@,
        r.1 matches Err(EnvelopeError::Ratchet(RatchetError::ReplayDetected)),
{
    let (mut bob, bob_public) = SessionState::init_bob(session_id, root_key);
    let mut alice = match SessionState::init_alice(session_id, root_key, bob_public.as_str()) {
        Ok(s) => s,
        Err(e) => {
            return (Err(EnvelopeError::Ratchet(e)), Err(EnvelopeError::Ratchet(e)));
        },
    };
    let ghost alice0 = alice;
    let ghost bob0 = bob;
    let sealed = seal_message(sender_keys, sender_device_id, sender_fingerprint, &mut alice, session_id, message_json);
    let ghost w = decoded_envelope(sealed@)->0;
    proof {
        assert(in_step(alice0, bob0));
        assert(bob0.log() =~= Seq::<ReplayKeyValue>::empty());
        assert(envelope_opened(bob0, w) == Some(padded(message_json@)));
        assert(envelope_reaches_ratchet(bob0, sender_device_id@, w));
    }
    let first = open_message(sealed.as_str(), sender_device_id, &mut bob);
    let ghost bob1 = bob;
    proof {
        let key = envelope_replay_key(bob0, sender_device_id@, w);
        crate::ratchet::lemma_remembered_rejects_replay(bob0.log(), key);
        assert(envelope_replay_key(bob1, sender_device_id@, w) == key);
        assert(bob1.log().contains(key));
    }
    let second = open_message(sealed.as_str(), sender_device_id, &mut bob);
    (first, second)
}

} // verus!
