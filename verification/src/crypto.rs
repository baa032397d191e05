//! Device keys, signed prekeys, signatures, fingerprints, the bootstrap key
//! agreement and the AEAD helpers.
use vstd::prelude::*;
use crate::primitives::{
    chacha20_decrypt, chacha20_encrypt, chacha20_open, chacha20_seal, ed25519_generate,
    ed25519_key_decodes, ed25519_key_is_valid, ed25519_public_of, ed25519_sign, ed25519_signature,
    ed25519_signature_valid, ed25519_verify, ed25519_verifying_key, hkdf_sha256, hkdf_sha256_32,
    random_bytes, sha256_digest, sha256_of, wipe, x25519_diffie_hellman, x25519_public_key,
    x25519_public_of, x25519_random_secret, x25519_shared,
};
use crate::spec_types::{cipher_suite_v1, CIPHER_SUITE_V1, SECONDS_PER_DAY};
use crate::text::{hex_bytes, push_char, push_hex_byte};

verus! {

broadcast use vstd::seq_lib::group_seq_properties;

/// The Ed25519 identity of a device: the secret signing key and its verifying key.
#[derive(Debug, Clone, Copy)]
pub struct IdentityKeypair {
    pub signing_key: [u8; 32],
    pub verifying_key: [u8; 32],
}

impl IdentityKeypair {
    /// The verifying key belongs to the signing key.
    pub open spec fn wf(&self) -> bool {
        &&& self.verifying_key@ == ed25519_public_of(self.signing_key@)
        &&& ed25519_key_decodes(self.verifying_key@)
    }
}

#[derive(Debug)]
pub struct SignedPrekey {
    pub key_id: u32,
    pub public_key: [u8; 32],
    pub signature: Vec<u8>,
    pub created_unix: i64,
    pub expires_unix: i64,
}

impl SignedPrekey {
    /// A field-by-field copy.
    pub fn copied(&self) -> (r: SignedPrekey)
        ensures
            r.key_id == self.key_id,
            r.public_key == self.public_key,
            r.signature@ == self.signature@,
            r.created_unix == self.created_unix,
            r.expires_unix == self.expires_unix,
    {
        SignedPrekey {
            key_id: self.key_id,
            public_key: self.public_key,
            signature: copy_bytes(self.signature.as_slice()),
            created_unix: self.created_unix,
            expires_unix: self.expires_unix,
        }
    }
}

#[derive(Debug, Clone, Copy)]
pub struct OneTimePrekey {
    pub key_id: u32,
    pub public_key: [u8; 32],
}

/// All key material of one device.
#[derive(Debug)]
pub struct DeviceKeys {
    pub identity: IdentityKeypair,
    pub x25519_identity_private: [u8; 32],
    pub x25519_identity_public: [u8; 32],
    pub signed_prekey_private: [u8; 32],
    pub signed_prekey: SignedPrekey,
    pub one_time_prekeys_private: Vec<[u8; 32]>,
    pub one_time_prekeys_public: Vec<OneTimePrekey>,
}

impl DeviceKeys {
    /// Every public key belongs to its secret, the signed prekey carries the
    /// identity's signature over its public key, and the one-time prekeys are
    /// paired index by index.
    pub open spec fn wf(&self) -> bool {
        &&& self.identity.wf()
        &&& self.x25519_identity_public@ == x25519_public_of(self.x25519_identity_private@)
        &&& self.signed_prekey.public_key@ == x25519_public_of(self.signed_prekey_private@)
        &&& self.signed_prekey.signature@ == ed25519_signature(
            self.identity.signing_key@,
            self.signed_prekey.public_key@,
        )
        &&& self.signed_prekey.signature@.len() == 64
        &&& ed25519_signature_valid(
            self.identity.verifying_key@,
            self.signed_prekey.public_key@,
            self.signed_prekey.signature@,
        )
        &&& self.one_time_prekeys_private@.len() == self.one_time_prekeys_public@.len()
        &&& forall|i: int|
            0 <= i < self.one_time_prekeys_public@.len() ==> (
            #[trigger] self.one_time_prekeys_public@[i]).public_key@ == x25519_public_of(
                self.one_time_prekeys_private@[i]@,
            )
    }
}

#[derive(Debug)]
pub struct PrekeyBundlePublic {
    pub cipher_suite_id: String,
    pub identity_ed25519_public: [u8; 32],
    pub identity_x25519_public: [u8; 32],
    pub signed_prekey: SignedPrekey,
    pub one_time_prekeys: Vec<OneTimePrekey>,
}

#[derive(Debug)]
pub struct SignedEnvelope {
    pub signer_public_key: [u8; 32],
    pub signature: Vec<u8>,
}

/// The value of a signature block.
pub struct SignedEnvelopeValue {
    pub signer_public_key: Seq<u8>,
    pub signature: Seq<u8>,
}

impl View for SignedEnvelope {
    type V = SignedEnvelopeValue;

    open spec fn view(&self) -> SignedEnvelopeValue {
        SignedEnvelopeValue {
            signer_public_key: self.signer_public_key@,
            signature: self.signature@,
        }
    }
}

#[derive(Debug, Clone, Copy, PartialEq, Eq, Structural)]
pub enum CryptoError {
    /// The identity key of a bundle is not a valid Ed25519 point.
    InvalidIdentityKey,
    /// A signed prekey signature is not 64 bytes long.
    InvalidSignedPrekeySignatureLength,
    /// A signed prekey signature does not verify.
    SignedPrekeySignatureInvalid,
    /// The signer key of an envelope is not a valid Ed25519 point.
    InvalidSignerKey,
    /// An envelope signature is not 64 bytes long.
    InvalidEnvelopeSignatureLength,
    /// An envelope signature does not verify.
    EnvelopeSignatureInvalid,
    /// HKDF refused the requested output length.
    KeyDerivationFailed,
    /// The AEAD refused to encrypt.
    EncryptionFailed,
    /// The ciphertext did not authenticate.
    DecryptionFailed,
    /// No one-time prekey carries the requested id.
    OneTimePrekeyNotFound(u32),
    /// The signed prekey expired before the given instant.
    SignedPrekeyExpired,
}

/// A copy of a byte string.
pub fn copy_bytes(s: &[u8]) -> (r: Vec<u8>)
    ensures
        r@ == s@,
{
    let mut r: Vec<u8> = Vec::new();
    let mut i: usize = 0;
    while i < s.len()
        invariant
            i <= s@.len(),
            r@ == s@.subrange(0, i as int),
        decreases s@.len() - i,
    {
        r.push(s[i]);
        i = i + 1;
        assert(r@ =~= s@.subrange(0, i as int));
    }
    assert(s@.subrange(0, s@.len() as int) =~= s@);
    r
}

/// A copy of a list of one-time prekeys.
fn copy_one_time_prekeys(s: &Vec<OneTimePrekey>) -> (r: Vec<OneTimePrekey>)
    ensures
        r@ == s@,
{
    let mut r: Vec<OneTimePrekey> = Vec::new();
    let mut i: usize = 0;
    while i < s.len()
        invariant
            i <= s@.len(),
            r@ == s@.subrange(0, i as int),
        decreases s@.len() - i,
    {
        r.push(s[i]);
        i = i + 1;
        assert(r@ =~= s@.subrange(0, i as int));
    }
    assert(s@.subrange(0, s@.len() as int) =~= s@);
    r
}

/// The one-time prekeys of a fresh device: ids `0, 1, ...`, each public key
/// belonging to the secret at the same index.
pub open spec fn fresh_one_time_prekeys(keys: DeviceKeys, count: nat) -> bool {
    &&& keys.one_time_prekeys_public@.len() == count
    &&& forall|i: int|
        0 <= i < count ==> (#[trigger] keys.one_time_prekeys_public@[i]).key_id == i
}

/// Generates the identity, X25519 identity key, signed prekey (id 1, valid
/// from `now_unix` for `signed_prekey_lifetime_days` days) and
/// `one_time_count` one-time prekeys (taken modulo 2^32, as the key ids are
/// 32-bit), all from the operating system's RNG.
pub fn generate_device_keys(now_unix: i64, signed_prekey_lifetime_days: i64, one_time_count: usize) -> (keys: DeviceKeys)
    requires
        i64::MIN <= signed_prekey_lifetime_days * SECONDS_PER_DAY <= i64::MAX,
        i64::MIN <= now_unix + signed_prekey_lifetime_days * SECONDS_PER_DAY <= i64::MAX,
    ensures
        keys.wf(),
        keys.signed_prekey.key_id == 1,
        keys.signed_prekey.created_unix == now_unix,
        keys.signed_prekey.expires_unix == now_unix + signed_prekey_lifetime_days
            * SECONDS_PER_DAY,
        fresh_one_time_prekeys(keys, (one_time_count as u32) as nat),
{
    let signing_key = ed25519_generate();
    let verifying_key = ed25519_verifying_key(&signing_key);
    let x25519_identity_private = x25519_random_secret();
    let x25519_identity_public = x25519_public_key(&x25519_identity_private);
    let signed_prekey_private = x25519_random_secret();
    let signed_prekey_public = x25519_public_key(&signed_prekey_private);
    let signed_prekey_signature = ed25519_sign(&signing_key, &signed_prekey_public);
    let mut one_time_prekeys_private: Vec<[u8; 32]> = Vec::new();
    let mut one_time_prekeys_public: Vec<OneTimePrekey> = Vec::new();
    #[verifier::truncate]
    let count: u32 = one_time_count as u32;
    let mut key_id: u32 = 0;
    while key_id < count
        invariant
            key_id <= count,
            one_time_prekeys_private@.len() == key_id,
            one_time_prekeys_public@.len() == key_id,
            forall|i: int|
                0 <= i < key_id ==> (#[trigger] one_time_prekeys_public@[i]).key_id == i
                    && one_time_prekeys_public@[i].public_key@ == x25519_public_of(
                    one_time_prekeys_private@[i]@,
                ),
        decreases count - key_id,
    {
        let private = x25519_random_secret();
        let public = x25519_public_key(&private);
        one_time_prekeys_private.push(private);
        one_time_prekeys_public.push(OneTimePrekey { key_id, public_key: public });
        key_id = key_id + 1;
    }
    let expires_unix = now_unix + signed_prekey_lifetime_days * 24 * 60 * 60;
    DeviceKeys {
        identity: IdentityKeypair { signing_key, verifying_key },
        x25519_identity_private,
        x25519_identity_public,
        signed_prekey_private,
        signed_prekey: SignedPrekey {
            key_id: 1,
            public_key: signed_prekey_public,
            signature: signed_prekey_signature,
            created_unix: now_unix,
            expires_unix,
        },
        one_time_prekeys_private,
        one_time_prekeys_public,
    }
}

/// Whether the signed prekey of a bundle carries a valid signature by the
/// bundle's identity key.
pub open spec fn signed_prekey_verifies(bundle: PrekeyBundlePublic) -> bool {
    &&& ed25519_key_decodes(bundle.identity_ed25519_public@)
    &&& bundle.signed_prekey.signature@.len() == 64
    &&& ed25519_signature_valid(
        bundle.identity_ed25519_public@,
        bundle.signed_prekey.public_key@,
        bundle.signed_prekey.signature@,
    )
}

/// Whether a bundle is the public half of a device's keys under the
/// version-1 cipher suite.
pub open spec fn is_exported_bundle(keys: DeviceKeys, bundle: PrekeyBundlePublic) -> bool {
    &&& bundle.cipher_suite_id@ == cipher_suite_v1()
    &&& bundle.identity_ed25519_public == keys.identity.verifying_key
    &&& bundle.identity_x25519_public == keys.x25519_identity_public
    &&& bundle.signed_prekey.key_id == keys.signed_prekey.key_id
    &&& bundle.signed_prekey.public_key == keys.signed_prekey.public_key
    &&& bundle.signed_prekey.signature@ == keys.signed_prekey.signature@
    &&& bundle.signed_prekey.created_unix == keys.signed_prekey.created_unix
    &&& bundle.signed_prekey.expires_unix == keys.signed_prekey.expires_unix
    &&& bundle.one_time_prekeys@ == keys.one_time_prekeys_public@
}

/// The public half of a device's keys, under the version-1 cipher suite.
/// The bundle of well-formed keys passes `verify_signed_prekey`.
pub fn export_public_bundle(keys: &DeviceKeys) -> (bundle: PrekeyBundlePublic)
    ensures
        is_exported_bundle(*keys, bundle),
        keys.wf() ==> signed_prekey_verifies(bundle),
{
    PrekeyBundlePublic {
        cipher_suite_id: String::from_str(CIPHER_SUITE_V1),
        identity_ed25519_public: keys.identity.verifying_key,
        identity_x25519_public: keys.x25519_identity_public,
        signed_prekey: keys.signed_prekey.copied(),
        one_time_prekeys: copy_one_time_prekeys(&keys.one_time_prekeys_public),
    }
}

/// Checks the signed prekey signature of a bundle against its identity key:
/// first that the identity key decodes, then that the signature is 64 bytes,
/// then that it verifies.
pub fn verify_signed_prekey(bundle: &PrekeyBundlePublic) -> (r: Result<(), CryptoError>)
    ensures
        !ed25519_key_decodes(bundle.identity_ed25519_public@) ==> r == Err::<(), CryptoError>(
            CryptoError::InvalidIdentityKey,
        ),
        ed25519_key_decodes(bundle.identity_ed25519_public@) && bundle.signed_prekey.signature@.len()
            != 64 ==> r == Err::<(), CryptoError>(CryptoError::InvalidSignedPrekeySignatureLength),
        ed25519_key_decodes(bundle.identity_ed25519_public@) && bundle.signed_prekey.signature@.len()
            == 64 && !signed_prekey_verifies(*bundle) ==> r == Err::<(), CryptoError>(
            CryptoError::SignedPrekeySignatureInvalid,
        ),
        r is Ok <==> signed_prekey_verifies(*bundle),
{
    if !ed25519_key_is_valid(&bundle.identity_ed25519_public) {
        return Err(CryptoError::InvalidIdentityKey);
    }
    if bundle.signed_prekey.signature.len() != 64 {
        return Err(CryptoError::InvalidSignedPrekeySignatureLength);
    }
    if !ed25519_verify(
        &bundle.identity_ed25519_public,
        bundle.signed_prekey.public_key.as_slice(),
        bundle.signed_prekey.signature.as_slice(),
    ) {
        return Err(CryptoError::SignedPrekeySignatureInvalid);
    }
    Ok(())
}

/// Signs `bytes` with the identity's signing key.
pub fn sign_bytes(identity: &IdentityKeypair, bytes: &[u8]) -> (r: SignedEnvelope)
    ensures
        r.signer_public_key == identity.verifying_key,
        r.signature@ == ed25519_signature(identity.signing_key@, bytes@),
        identity.wf() ==> envelope_verifies(bytes@, r@),
{
    let signature = ed25519_sign(&identity.signing_key, bytes);
    SignedEnvelope { signer_public_key: identity.verifying_key, signature }
}

/// Whether a signature block carries a valid signature of `bytes` by its signer key.
pub open spec fn envelope_verifies(bytes: Seq<u8>, envelope: SignedEnvelopeValue) -> bool {
    &&& ed25519_key_decodes(envelope.signer_public_key)
    &&& envelope.signature.len() == 64
    &&& ed25519_signature_valid(envelope.signer_public_key, bytes, envelope.signature)
}

/// Checks an envelope signature over `bytes`: first that the signer key
/// decodes, then that the signature is 64 bytes, then that it verifies.
pub fn verify_signature(bytes: &[u8], envelope: &SignedEnvelope) -> (r: Result<(), CryptoError>)
    ensures
        !ed25519_key_decodes(envelope.signer_public_key@) ==> r == Err::<(), CryptoError>(
            CryptoError::InvalidSignerKey,
        ),
        ed25519_key_decodes(envelope.signer_public_key@) && envelope.signature@.len() != 64 ==> r
            == Err::<(), CryptoError>(CryptoError::InvalidEnvelopeSignatureLength),
        ed25519_key_decodes(envelope.signer_public_key@) && envelope.signature@.len() == 64
            && !envelope_verifies(bytes@, envelope@) ==> r == Err::<(), CryptoError>(
            CryptoError::EnvelopeSignatureInvalid,
        ),
        r is Ok <==> envelope_verifies(bytes@, envelope@),
{
    if !ed25519_key_is_valid(&envelope.signer_public_key) {
        return Err(CryptoError::InvalidSignerKey);
    }
    if envelope.signature.len() != 64 {
        return Err(CryptoError::InvalidEnvelopeSignatureLength);
    }
    if !ed25519_verify(&envelope.signer_public_key, bytes, envelope.signature.as_slice()) {
        return Err(CryptoError::EnvelopeSignatureInvalid);
    }
    Ok(())
}

/// The hexadecimal groups of a fingerprint: group `k` is bytes `4k..4k+4` of
/// the digest in lowercase hex, and groups are separated by '-'.
pub open spec fn fingerprint_groups(digest: Seq<u8>, groups: nat) -> Seq<char>
    decreases groups,
{
    if groups == 0 {
        seq![]
    } else {
        let prev = fingerprint_groups(digest, (groups - 1) as nat);
        let group = hex_bytes(digest.subrange(4 * (groups - 1), 4 * groups as int));
        if groups == 1 {
            group
        } else {
            prev + seq!['-'] + group
        }
    }
}

/// The fingerprint of a key: the first 16 bytes of its SHA-256 digest in
/// lowercase hex, as four groups of eight digits joined by '-'.
pub open spec fn fingerprint_text(public_key: Seq<u8>) -> Seq<char> {
    fingerprint_groups(sha256_digest(public_key), 4)
}

/// The fingerprint of an Ed25519 public key.
pub fn fingerprint_ed25519(public_key: &[u8; 32]) -> (r: String)
    ensures
        r@ == fingerprint_text(public_key@),
{
    let digest = sha256_of(public_key.as_slice());
    let mut s = String::new();
    let mut g: usize = 0;
    while g < 4
        invariant
            g <= 4,
            digest@.len() == 32,
            digest@ == sha256_digest(public_key@),
            s@ == fingerprint_groups(digest@, g as nat),
        decreases 4 - g,
    {
        if g > 0 {
            push_char(&mut s, '-');
        }
        let ghost before = s@;
        let mut j: usize = 4 * g;
        while j < 4 * g + 4
            invariant
                g < 4,
                4 * g <= j <= 4 * g + 4,
                digest@.len() == 32,
                s@ == before + hex_bytes(digest@.subrange(4 * g as int, j as int)),
            decreases 4 * g + 4 - j,
        {
            push_hex_byte(&mut s, digest[j]);
            assert(digest@.subrange(4 * g as int, (j + 1) as int).drop_last() =~= digest@.subrange(
                4 * g as int,
                j as int,
            ));
            j = j + 1;
        }
        g = g + 1;
    }
    s
}

/// The HKDF salt of the bootstrap key agreement.
pub open spec fn bootstrap_salt() -> Seq<u8> {
    seq![
        109u8, 105, 109, 105, 99, 114, 121, 112, 116, 47, 98, 111, 111, 116, 115, 116, 114, 97,
        112, 47, 118, 49,
    ]
}

/// The HKDF info of the bootstrap key agreement.
pub open spec fn root_key_info() -> Seq<u8> {
    seq![114u8, 111, 111, 116, 45, 107, 101, 121]
}

fn bootstrap_salt_bytes() -> (r: Vec<u8>)
    ensures
        r@ == bootstrap_salt(),
{
    let r = vec![
        109u8, 105, 109, 105, 99, 114, 121, 112, 116, 47, 98, 111, 111, 116, 115, 116, 114, 97,
        112, 47, 118, 49,
    ];
    assert(r@ =~= bootstrap_salt());
    r
}

fn root_key_info_bytes() -> (r: Vec<u8>)
    ensures
        r@ == root_key_info(),
{
    let r = vec![114u8, 111, 111, 116, 45, 107, 101, 121];
    assert(r@ =~= root_key_info());
    r
}

/// The concatenated Diffie-Hellman outputs fed to HKDF.
pub open spec fn bootstrap_ikm(dh1: Seq<u8>, dh2: Seq<u8>, dh3: Seq<u8>, dh4: Option<Seq<u8>>) -> Seq<u8> {
    match dh4 {
        Some(d) => dh1 + dh2 + dh3 + d,
        None => dh1 + dh2 + dh3,
    }
}

/// The root key the initiator derives: DH(identity, signed prekey),
/// DH(ephemeral, identity), DH(ephemeral, signed prekey) and, when the peer
/// offered one, DH(ephemeral, one-time prekey).
pub open spec fn initiator_root_key(
    local_identity_private: Seq<u8>,
    local_ephemeral_private: Seq<u8>,
    remote_identity_public: Seq<u8>,
    remote_signed_prekey_public: Seq<u8>,
    remote_one_time_prekey_public: Option<Seq<u8>>,
) -> Seq<u8> {
    let dh4 = match remote_one_time_prekey_public {
        Some(o) => Some(x25519_shared(local_ephemeral_private, o)),
        None => None,
    };
    hkdf_sha256(
        bootstrap_salt(),
        bootstrap_ikm(
            x25519_shared(local_identity_private, remote_signed_prekey_public),
            x25519_shared(local_ephemeral_private, remote_identity_public),
            x25519_shared(local_ephemeral_private, remote_signed_prekey_public),
            dh4,
        ),
        root_key_info(),
        32,
    )
}

/// The root key the responder derives, mirroring the initiator's exchanges.
pub open spec fn responder_root_key(
    local_identity_private: Seq<u8>,
    local_signed_prekey_private: Seq<u8>,
    local_one_time_prekey_private: Option<Seq<u8>>,
    remote_identity_public: Seq<u8>,
    remote_ephemeral_public: Seq<u8>,
) -> Seq<u8> {
    let dh4 = match local_one_time_prekey_private {
        Some(o) => Some(x25519_shared(o, remote_ephemeral_public)),
        None => None,
    };
    hkdf_sha256(
        bootstrap_salt(),
        bootstrap_ikm(
            x25519_shared(local_signed_prekey_private, remote_identity_public),
            x25519_shared(local_identity_private, remote_ephemeral_public),
            x25519_shared(local_signed_prekey_private, remote_ephemeral_public),
            dh4,
        ),
        root_key_info(),
        32,
    )
}

/// The bootstrap key exchanges: the initiator feeds HKDF-SHA256 (salt
/// "mimicrypt/bootstrap/v1", info "root-key", 32 bytes) the three
/// Diffie-Hellman outputs DH(identity, signed prekey), DH(ephemeral,
/// identity) and DH(ephemeral, signed prekey), in that order, followed by
/// DH(ephemeral, one-time prekey) when the peer offered one; the responder
/// feeds the same outputs computed from its side.
pub proof fn lemma_bootstrap_key_inputs(
    ik_a: Seq<u8>,
    ek_a: Seq<u8>,
    ik_b_public: Seq<u8>,
    spk_b_public: Seq<u8>,
    opk_b_public: Seq<u8>,
    ik_b: Seq<u8>,
    spk_b: Seq<u8>,
    opk_b: Seq<u8>,
    ik_a_public: Seq<u8>,
    ek_a_public: Seq<u8>,
)
    ensures
        bootstrap_salt() == "mimicrypt/bootstrap/v1"@.map_values(|c: char| c as u8),
        root_key_info() == "root-key"@.map_values(|c: char| c as u8),
        initiator_root_key(ik_a, ek_a, ik_b_public, spk_b_public, None) == hkdf_sha256(
            bootstrap_salt(),
            x25519_shared(ik_a, spk_b_public) + x25519_shared(ek_a, ik_b_public) + x25519_shared(
                ek_a,
                spk_b_public,
            ),
            root_key_info(),
            32,
        ),
        initiator_root_key(ik_a, ek_a, ik_b_public, spk_b_public, Some(opk_b_public)) == hkdf_sha256(
            bootstrap_salt(),
            x25519_shared(ik_a, spk_b_public) + x25519_shared(ek_a, ik_b_public) + x25519_shared(
                ek_a,
                spk_b_public,
            ) + x25519_shared(ek_a, opk_b_public),
            root_key_info(),
            32,
        ),
        responder_root_key(ik_b, spk_b, None, ik_a_public, ek_a_public) == hkdf_sha256(
            bootstrap_salt(),
            x25519_shared(spk_b, ik_a_public) + x25519_shared(ik_b, ek_a_public) + x25519_shared(
                spk_b,
                ek_a_public,
            ),
            root_key_info(),
            32,
        ),
        responder_root_key(ik_b, spk_b, Some(opk_b), ik_a_public, ek_a_public) == hkdf_sha256(
            bootstrap_salt(),
            x25519_shared(spk_b, ik_a_public) + x25519_shared(ik_b, ek_a_public) + x25519_shared(
                spk_b,
                ek_a_public,
            ) + x25519_shared(opk_b, ek_a_public),
            root_key_info(),
            32,
        ),
{
    reveal_strlit("mimicrypt/bootstrap/v1");
    reveal_strlit("root-key");
    assert(bootstrap_salt() =~= "mimicrypt/bootstrap/v1"@.map_values(|c: char| c as u8));
    assert(root_key_info() =~= "root-key"@.map_values(|c: char| c as u8));
}

/// The public keys the initiator sees belong to the responder's secrets.
pub open spec fn responder_matches(
    remote_identity_public: Seq<u8>,
    remote_signed_prekey_public: Seq<u8>,
    remote_one_time_prekey_public: Option<Seq<u8>>,
    peer_identity_private: Seq<u8>,
    peer_signed_prekey_private: Seq<u8>,
    peer_one_time_prekey_private: Option<Seq<u8>>,
) -> bool {
    &&& peer_identity_private.len() == 32
    &&& peer_signed_prekey_private.len() == 32
    &&& remote_identity_public == x25519_public_of(peer_identity_private)
    &&& remote_signed_prekey_public == x25519_public_of(peer_signed_prekey_private)
    &&& match (remote_one_time_prekey_public, peer_one_time_prekey_private) {
        (Some(p), Some(s)) => s.len() == 32 && p == x25519_public_of(s),
        (None, None) => true,
        _ => false,
    }
}

/// The initiator's half of the bootstrap key agreement. It always succeeds,
/// and the key equals the one the responder derives from the matching secrets.
pub fn derive_bootstrap_root_key_initiator(
    local_identity_private: [u8; 32],
    local_ephemeral_private: [u8; 32],
    remote_identity_public: [u8; 32],
    remote_signed_prekey_public: [u8; 32],
    remote_one_time_prekey_public: Option<[u8; 32]>,
) -> (r: Result<[u8; 32], CryptoError>)
    ensures
        r is Ok,
        r matches Ok(k) ==> k@ == initiator_root_key(
            local_identity_private@,
            local_ephemeral_private@,
            remote_identity_public@,
            remote_signed_prekey_public@,
            match remote_one_time_prekey_public {
                Some(o) => Some(o@),
                None => None,
            },
        ),
        forall|peer_identity: Seq<u8>, peer_signed_prekey: Seq<u8>, peer_one_time: Option<Seq<u8>>|
            #![trigger responder_root_key(peer_identity, peer_signed_prekey, peer_one_time, x25519_public_of(local_identity_private@), x25519_public_of(local_ephemeral_private@))]
            responder_matches(
                remote_identity_public@,
                remote_signed_prekey_public@,
                match remote_one_time_prekey_public {
                    Some(o) => Some(o@),
                    None => None,
                },
                peer_identity,
                peer_signed_prekey,
                peer_one_time,
            ) ==> (r matches Ok(k) && k@ == responder_root_key(
                peer_identity,
                peer_signed_prekey,
                peer_one_time,
                x25519_public_of(local_identity_private@),
                x25519_public_of(local_ephemeral_private@),
            )),
{
    let dh1 = x25519_diffie_hellman(&local_identity_private, &remote_signed_prekey_public);
    let dh2 = x25519_diffie_hellman(&local_ephemeral_private, &remote_identity_public);
    let dh3 = x25519_diffie_hellman(&local_ephemeral_private, &remote_signed_prekey_public);
    let mut input: Vec<u8> = Vec::with_capacity(128);
    input.extend_from_slice(dh1.as_slice());
    input.extend_from_slice(dh2.as_slice());
    input.extend_from_slice(dh3.as_slice());
    let ghost dh4: Option<Seq<u8>> = None;
    if let Some(remote_one_time) = remote_one_time_prekey_public {
        let d4 = x25519_diffie_hellman(&local_ephemeral_private, &remote_one_time);
        input.extend_from_slice(d4.as_slice());
        proof {
            dh4 = Some(d4@);
        }
    }
    assert(input@ =~= bootstrap_ikm(dh1@, dh2@, dh3@, dh4));
    let salt = bootstrap_salt_bytes();
    let info = root_key_info_bytes();
    let derived = hkdf_sha256_32(salt.as_slice(), input.as_slice(), info.as_slice());
    wipe(&mut input);
    match derived {
        Ok(okm) => Ok(okm),
        Err(_) => Err(CryptoError::KeyDerivationFailed),
    }
}

/// The responder's half of the bootstrap key agreement. It always succeeds.
pub fn derive_bootstrap_root_key_responder(
    local_identity_private: [u8; 32],
    local_signed_prekey_private: [u8; 32],
    local_one_time_prekey_private: Option<[u8; 32]>,
    remote_identity_public: [u8; 32],
    remote_ephemeral_public: [u8; 32],
) -> (r: Result<[u8; 32], CryptoError>)
    ensures
        r is Ok,
        r matches Ok(k) ==> k@ == responder_root_key(
            local_identity_private@,
            local_signed_prekey_private@,
            match local_one_time_prekey_private {
                Some(o) => Some(o@),
                None => None,
            },
            remote_identity_public@,
            remote_ephemeral_public@,
        ),
{
    let dh1 = x25519_diffie_hellman(&local_signed_prekey_private, &remote_identity_public);
    let dh2 = x25519_diffie_hellman(&local_identity_private, &remote_ephemeral_public);
    let dh3 = x25519_diffie_hellman(&local_signed_prekey_private, &remote_ephemeral_public);
    let mut input: Vec<u8> = Vec::with_capacity(128);
    input.extend_from_slice(dh1.as_slice());
    input.extend_from_slice(dh2.as_slice());
    input.extend_from_slice(dh3.as_slice());
    let ghost dh4: Option<Seq<u8>> = None;
    if let Some(one_time_private) = local_one_time_prekey_private {
        let d4 = x25519_diffie_hellman(&one_time_private, &remote_ephemeral_public);
        input.extend_from_slice(d4.as_slice());
        proof {
            dh4 = Some(d4@);
        }
    }
    assert(input@ =~= bootstrap_ikm(dh1@, dh2@, dh3@, dh4));
    let salt = bootstrap_salt_bytes();
    let info = root_key_info_bytes();
    let derived = hkdf_sha256_32(salt.as_slice(), input.as_slice(), info.as_slice());
    wipe(&mut input);
    match derived {
        Ok(okm) => Ok(okm),
        Err(_) => Err(CryptoError::KeyDerivationFailed),
    }
}

/// A fresh X25519 secret from the operating system's RNG.
pub fn random_x25519_private() -> (r: [u8; 32]) {
    x25519_random_secret()
}

/// ChaCha20-Poly1305 encryption; it fails only for plaintexts of 2^32 - 1 or
/// more 64-byte blocks, and what it returns decrypts back.
pub fn encrypt_chacha20(key_bytes: &[u8; 32], nonce_bytes: &[u8; 12], plaintext: &[u8], aad: &[u8]) -> (r: Result<Vec<u8>, CryptoError>)
    ensures
        r is Ok <==> plaintext@.len() / 64 < 0xffff_ffff,
        r is Err ==> r == Err::<Vec<u8>, CryptoError>(CryptoError::EncryptionFailed),
        r matches Ok(c) ==> c@ == chacha20_seal(key_bytes@, nonce_bytes@, plaintext@, aad@),
        r matches Ok(c) ==> chacha20_open(key_bytes@, nonce_bytes@, c@, aad@) == Some(plaintext@),
{
    match chacha20_encrypt(key_bytes, nonce_bytes, plaintext, aad) {
        Ok(c) => Ok(c),
        Err(_) => Err(CryptoError::EncryptionFailed),
    }
}

/// ChaCha20-Poly1305 decryption: the plaintext exactly when the ciphertext authenticates.
pub fn decrypt_chacha20(key_bytes: &[u8; 32], nonce_bytes: &[u8; 12], ciphertext: &[u8], aad: &[u8]) -> (r: Result<Vec<u8>, CryptoError>)
    ensures
        r is Ok <==> chacha20_open(key_bytes@, nonce_bytes@, ciphertext@, aad@) is Some,
        r is Err ==> r == Err::<Vec<u8>, CryptoError>(CryptoError::DecryptionFailed),
        r matches Ok(p) ==> chacha20_open(key_bytes@, nonce_bytes@, ciphertext@, aad@) == Some(p@),
{
    match chacha20_decrypt(key_bytes, nonce_bytes, ciphertext, aad) {
        Ok(p) => Ok(p),
        Err(_) => Err(CryptoError::DecryptionFailed),
    }
}

/// A fresh 96-bit nonce from the operating system's RNG.
pub fn random_nonce_96() -> (r: [u8; 12]) {
    random_bytes::<12>()
}

/// The SHA-256 digest of `bytes`.
pub fn sha256(bytes: &[u8]) -> (r: Vec<u8>)
    ensures
        r@ == sha256_digest(bytes@),
{
    let d = sha256_of(bytes);
    copy_bytes(d.as_slice())
}

/// The index of the first one-time prekey with the given id.
pub open spec fn first_prekey_index(prekeys: Seq<OneTimePrekey>, key_id: u32) -> int {
    choose|i: int|
        0 <= i < prekeys.len() && prekeys[i].key_id == key_id && forall|j: int|
            0 <= j < i ==> prekeys[j].key_id != key_id
}

/// The index of the first prekey with the given id, if any.
fn find_prekey(prekeys: &Vec<OneTimePrekey>, key_id: u32) -> (r: Option<usize>)
    ensures
        r matches Some(i) ==> i < prekeys@.len() && prekeys@[i as int].key_id == key_id
            && forall|j: int| 0 <= j < i ==> (#[trigger] prekeys@[j]).key_id != key_id,
        r is None ==> forall|j: int|
            0 <= j < prekeys@.len() ==> (#[trigger] prekeys@[j]).key_id != key_id,
{
    let mut idx: usize = 0;
    while idx < prekeys.len()
        invariant
            idx <= prekeys@.len(),
            forall|j: int| 0 <= j < idx ==> (#[trigger] prekeys@[j]).key_id != key_id,
        decreases prekeys@.len() - idx,
    {
        if prekeys[idx].key_id == key_id {
            return Some(idx);
        }
        idx = idx + 1;
    }
    None
}

/// Removes the first one-time prekey with `key_id` from both lists and
/// returns its secret; fails when no prekey has that id. The secret list
/// must reach the index where the id is found.
pub fn consume_one_time_prekey(keys: &mut DeviceKeys, key_id: u32) -> (r: Result<[u8; 32], CryptoError>)
    requires
        (exists|i: int|
            0 <= i < old(keys).one_time_prekeys_public@.len() && (
            #[trigger] old(keys).one_time_prekeys_public@[i]).key_id == key_id) ==> first_prekey_index(
            old(keys).one_time_prekeys_public@,
            key_id,
        ) < old(keys).one_time_prekeys_private@.len(),
    ensures
        r is Err <==> forall|i: int|
            0 <= i < old(keys).one_time_prekeys_public@.len() ==> (
            #[trigger] old(keys).one_time_prekeys_public@[i]).key_id != key_id,
        r is Err ==> r == Err::<[u8; 32], CryptoError>(CryptoError::OneTimePrekeyNotFound(key_id))
            && *final(keys) == *old(keys),
        r matches Ok(secret) ==> {
            let idx = first_prekey_index(old(keys).one_time_prekeys_public@, key_id);
            &&& 0 <= idx < old(keys).one_time_prekeys_public@.len()
            &&& old(keys).one_time_prekeys_public@[idx].key_id == key_id
            &&& secret == old(keys).one_time_prekeys_private@[idx]
            &&& final(keys).one_time_prekeys_public@ == old(keys).one_time_prekeys_public@.remove(idx)
            &&& final(keys).one_time_prekeys_private@ == old(keys).one_time_prekeys_private@.remove(
                idx,
            )
            &&& final(keys).identity == old(keys).identity
            &&& final(keys).x25519_identity_private == old(keys).x25519_identity_private
            &&& final(keys).x25519_identity_public == old(keys).x25519_identity_public
            &&& final(keys).signed_prekey_private == old(keys).signed_prekey_private
            &&& final(keys).signed_prekey == old(keys).signed_prekey
        },
        old(keys).wf() ==> final(keys).wf(),
{
    let idx = match find_prekey(&keys.one_time_prekeys_public, key_id) {
        Some(i) => i,
        None => {
            return Err(CryptoError::OneTimePrekeyNotFound(key_id));
        },
    };
    let ghost prekeys = old(keys).one_time_prekeys_public@;
    assert(prekeys[idx as int].key_id == key_id);
    assert(first_prekey_index(prekeys, key_id) == idx as int) by {
        let c = first_prekey_index(prekeys, key_id);
        assert(0 <= idx < prekeys.len() && prekeys[idx as int].key_id == key_id && forall|j: int|
            0 <= j < idx ==> prekeys[j].key_id != key_id);
        if c < idx as int {
            assert(prekeys[c].key_id != key_id);
        } else if c > idx as int {
            assert(prekeys[idx as int].key_id != key_id);
        }
    }
    keys.one_time_prekeys_public.remove(idx);
    let secret = keys.one_time_prekeys_private.remove(idx);
    proof {
        if old(keys).wf() {
            assert forall|i: int| 0 <= i < keys.one_time_prekeys_public@.len() implies (
            #[trigger] keys.one_time_prekeys_public@[i]).public_key@ == x25519_public_of(
                keys.one_time_prekeys_private@[i]@,
            ) by {
                if i < idx as int {
                    assert(keys.one_time_prekeys_public@[i] == old(keys).one_time_prekeys_public@[i]);
                } else {
                    assert(keys.one_time_prekeys_public@[i] == old(keys).one_time_prekeys_public@[i + 1]);
                }
            }
        }
    }
    Ok(secret)
}

/// One-time prekeys are single-use: when the ids of a device's prekeys are
/// distinct (as those of fresh keys are), none of the prekeys left after
/// consuming one carries its id, so it cannot be consumed a second time.
pub proof fn lemma_consumed_prekey_is_gone(prekeys: Seq<OneTimePrekey>, idx: int)
    requires
        0 <= idx < prekeys.len(),
        forall|i: int, j: int|
            0 <= i < prekeys.len() && 0 <= j < prekeys.len() && i != j ==> (#[trigger] prekeys[i]).key_id
                != (#[trigger] prekeys[j]).key_id,
    ensures
        forall|i: int|
            0 <= i < prekeys.remove(idx).len() ==> (#[trigger] prekeys.remove(idx)[i]).key_id
                != prekeys[idx].key_id,
{
    assert forall|i: int| 0 <= i < prekeys.remove(idx).len() implies (#[trigger] prekeys.remove(
        idx,
    )[i]).key_id != prekeys[idx].key_id by {
        if i < idx {
            assert(prekeys.remove(idx)[i] == prekeys[i]);
        } else {
            assert(prekeys.remove(idx)[i] == prekeys[i + 1]);
        }
    }
}

/// The one-time prekeys of fresh keys have distinct ids.
pub proof fn lemma_fresh_prekey_ids_distinct(keys: DeviceKeys, count: nat)
    requires
        fresh_one_time_prekeys(keys, count),
    ensures
        forall|i: int, j: int|
            0 <= i < keys.one_time_prekeys_public@.len() && 0 <= j
                < keys.one_time_prekeys_public@.len() && i != j ==> (
            #[trigger] keys.one_time_prekeys_public@[i]).key_id != (
            #[trigger] keys.one_time_prekeys_public@[j]).key_id,
{
}

/// Refuses a bundle whose signed prekey expired before `now_unix`.
pub fn maybe_validate_signed_prekey_age(bundle: &PrekeyBundlePublic, now_unix: i64) -> (r: Result<(), CryptoError>)
    ensures
        r is Err <==> bundle.signed_prekey.expires_unix < now_unix,
        r is Err ==> r == Err::<(), CryptoError>(CryptoError::SignedPrekeyExpired),
{
    if bundle.signed_prekey.expires_unix < now_unix {
        return Err(CryptoError::SignedPrekeyExpired);
    }
    Ok(())
}

} // verus!
