//! Double Ratchet sessions and their replay guard.
//!
//! The ratchet itself is the `double_ratchet_2` crate's; this module keeps,
//! beside it, a bounded first-in-first-out cache of the messages already
//! accepted, and refuses any message that is in it, and the position reached
//! on the peer's current sending chain, and refuses any message that would
//! make the receiver skip more message keys than the skipped-key bound.
use vstd::prelude::*;
use std::collections::VecDeque;
use crate::crypto::copy_bytes;
use crate::primitives::{
    p256_key_text_valid, ratchet_after_send, ratchet_awaiting, ratchet_can_send, ratchet_decrypt,
    ratchet_encrypt, ratchet_in_step, ratchet_init_alice, ratchet_init_bob, ratchet_next_header,
    ratchet_opened, ratchet_sealed, sha256_digest, sha256_of, RatchetOutput,
};
use crate::spec_types::{
    ReplayKey, ReplayKeyValue, MAX_REPLAY_CACHE_PER_SESSION, MAX_SKIPPED_MESSAGE_KEYS,
};
use crate::text::{same_bytes, same_id};

verus! {

broadcast use vstd::seq_lib::group_seq_properties;

/// A ratchet message header as carried on the wire.
#[derive(Debug)]
pub struct RatchetHeaderWire {
    /// The header as the ratchet crate serialises it.
    pub serialized_header: Vec<u8>,
    /// The sender's ratchet public key (the bytes of its PEM text).
    pub public_key: Vec<u8>,
    pub message_number: u32,
    pub previous_chain_length: u32,
}

/// One encrypted ratchet message.
#[derive(Debug)]
pub struct RatchetCiphertext {
    pub header: RatchetHeaderWire,
    pub ciphertext: Vec<u8>,
    pub nonce: [u8; 12],
}

/// A Double Ratchet session with its replay cache.
pub struct SessionState {
    pub session_id: [u8; 16],
    pub ratchet: double_ratchet_2::ratchet::Ratchet,
    pub replay_cache: VecDeque<ReplayKey>,
    /// Whether the ratchet can encrypt: false only for the waiting party
    /// before its first accepted message.
    pub can_send: bool,
    /// The ratchet public key of the last chain a message was accepted on
    /// (empty before the first).
    pub receiving_chain: Vec<u8>,
    /// One past the highest message number accepted on that chain.
    pub next_message_number: u64,
}

/// The most message keys the ratchet crate itself skips on one message; it
/// panics beyond this, so such a message is refused before it gets there.
pub const RATCHET_MAX_SKIP: usize = 100;

/// Whether a message that skips `skipped` message keys is within both the
/// session's skipped-key bound and the ratchet crate's own limit.
pub open spec fn skip_allowed(skipped: int) -> bool {
    skipped <= MAX_SKIPPED_MESSAGE_KEYS && skipped <= RATCHET_MAX_SKIP
}

/// How many message keys the receiver skips to reach message `n` of the chain
/// with ratchet key `key`, whose sender had sent `pn` messages on its previous
/// chain: on the current chain, the numbers between the next expected one and
/// `n`; on a new chain, the rest of the current chain and the first `n` of the
/// new one.
pub open spec fn skipped_keys(chain: Seq<u8>, next: u64, key: Seq<u8>, pn: u32, n: u32) -> int {
    if key == chain {
        if n >= next { n - next } else { 0 }
    } else {
        (if pn >= next { pn - next } else { 0 }) + n
    }
}

/// The receiving position after accepting message `n` on the chain with key `key`.
pub open spec fn advanced_chain(chain: Seq<u8>, next: u64, key: Seq<u8>, n: u32) -> (Seq<u8>, u64) {
    if key == chain && n < next {
        (chain, next)
    } else {
        (key, (n + 1) as u64)
    }
}

#[derive(Debug, Clone, Copy, PartialEq, Eq, Structural)]
pub enum RatchetError {
    /// The message was already accepted in this session.
    ReplayDetected,
    /// The message would make the receiver skip more message keys than the bound.
    SkippedKeyBoundExceeded,
    /// The peer's ratchet public key is not a PEM-encoded P-256 key.
    InvalidPeerPublicKey,
}

/// The values of the replay keys in a cache, oldest first.
pub open spec fn replay_log(cache: Seq<ReplayKey>) -> Seq<ReplayKeyValue> {
    cache.map_values(|k: ReplayKey| k@)
}

/// The replay key of a message (ratchet public key, message number and
/// ciphertext) from a sender device within a session.
pub open spec fn replay_key_value(
    session_id: Seq<u8>,
    sender_device_id: Seq<u8>,
    ratchet_public_key: Seq<u8>,
    message_number: u32,
    ciphertext: Seq<u8>,
) -> ReplayKeyValue {
    ReplayKeyValue {
        session_id,
        sender_device_id,
        ratchet_public_key,
        message_number,
        ciphertext_sha256: sha256_digest(ciphertext),
    }
}

/// The replay key of a ratchet message from a sender device within a session.
pub open spec fn replay_key_of(session_id: Seq<u8>, sender_device_id: Seq<u8>, payload: RatchetCiphertext) -> ReplayKeyValue {
    replay_key_value(
        session_id,
        sender_device_id,
        payload.header.public_key@,
        payload.header.message_number,
        payload.ciphertext@,
    )
}

/// The cache after accepting a message: the key is appended, and when the
/// cache was full the oldest key is dropped first.
pub open spec fn remembered(log: Seq<ReplayKeyValue>, key: ReplayKeyValue) -> Seq<ReplayKeyValue> {
    if log.len() == MAX_REPLAY_CACHE_PER_SESSION {
        log.drop_first().push(key)
    } else {
        log.push(key)
    }
}

/// Whether the session with state `receiver` decrypts the next message of
/// the session with state `sender` and has accepted no later one from it.
pub open spec fn in_step(sender: SessionState, receiver: SessionState) -> bool {
    ratchet_in_step(sender.ratchet, receiver.ratchet)
}

/// Whether a wire header is the ratchet's next header, its message number and
/// previous chain length truncated to 32 bits.
pub open spec fn carries_next_header(ratchet: double_ratchet_2::ratchet::Ratchet, header: RatchetHeaderWire) -> bool {
    let h = ratchet_next_header(ratchet);
    &&& header.serialized_header@ == h.serialized
    &&& header.public_key@ == h.public_key
    &&& header.message_number == h.n as u32
    &&& header.previous_chain_length == h.pn as u32
}

impl SessionState {
    /// The replay cache never exceeds its capacity, and `can_send` tells
    /// whether the ratchet holds a sending chain.
    pub open spec fn wf(&self) -> bool {
        &&& self.replay_cache@.len() <= MAX_REPLAY_CACHE_PER_SESSION
        &&& self.can_send == ratchet_can_send(self.ratchet)
    }

    /// How many message keys accepting `payload` would make this session skip.
    pub open spec fn skipped_for(&self, payload: RatchetCiphertext) -> int {
        skipped_keys(
            self.receiving_chain@,
            self.next_message_number,
            payload.header.public_key@,
            payload.header.previous_chain_length,
            payload.header.message_number,
        )
    }

    /// Whether a message reaches the ratchet: it is not a replay and skips no
    /// more keys than the bound.
    pub open spec fn admits(&self, key: ReplayKeyValue, payload: RatchetCiphertext) -> bool {
        !self.log().contains(key) && skip_allowed(self.skipped_for(payload))
    }

    /// The replay keys this session has accepted, oldest first.
    pub open spec fn log(&self) -> Seq<ReplayKeyValue> {
        replay_log(self.replay_cache@)
    }

    /// A session for the party that waits for the first message, and the PEM
    /// text of its ratchet public key for the peer.
    pub fn init_bob(session_id: [u8; 16], root_key: [u8; 32]) -> (r: (SessionState, String))
        ensures
            r.0.session_id == session_id,
            r.0.log() == Seq::<ReplayKeyValue>::empty(),
            r.0.wf(),
            !r.0.can_send,
            r.0.receiving_chain@ == Seq::<u8>::empty(),
            r.0.next_message_number == 0,
            ratchet_awaiting(r.0.ratchet, root_key@, r.1@),
            p256_key_text_valid(r.1@),
    {
        let (ratchet, public_key) = ratchet_init_bob(root_key);
        let s = SessionState {
            session_id,
            ratchet,
            replay_cache: VecDeque::new(),
            can_send: false,
            receiving_chain: Vec::new(),
            next_message_number: 0,
        };
        assert(s.log() =~= Seq::<ReplayKeyValue>::empty());
        (s, public_key)
    }

    /// A session for the party that sends first, given the peer's ratchet
    /// public key as PEM text; fails when the text is not such a key.
    pub fn init_alice(session_id: [u8; 16], root_key: [u8; 32], bob_ratchet_public: &str) -> (r: Result<SessionState, RatchetError>)
        ensures
            r is Ok <==> p256_key_text_valid(bob_ratchet_public@),
            r is Err ==> r == Err::<SessionState, RatchetError>(RatchetError::InvalidPeerPublicKey),
            r matches Ok(s) ==> s.session_id == session_id && s.log() == Seq::<ReplayKeyValue>::empty()
                && s.wf() && s.can_send && s.receiving_chain@ == Seq::<u8>::empty()
                && s.next_message_number == 0,
            r matches Ok(s) ==> ratchet_next_header(s.ratchet).n == 0 && ratchet_next_header(
                s.ratchet,
            ).pn == 0,
            r matches Ok(s) ==> forall|bob: SessionState|
                ratchet_awaiting(bob.ratchet, root_key@, bob_ratchet_public@) ==> #[trigger] in_step(
                    s,
                    bob,
                ),
    {
        match ratchet_init_alice(root_key, bob_ratchet_public) {
            Some(ratchet) => {
                let s = SessionState {
                    session_id,
                    ratchet,
                    replay_cache: VecDeque::new(),
                    can_send: true,
                    receiving_chain: Vec::new(),
                    next_message_number: 0,
                };
                assert(s.log() =~= Seq::<ReplayKeyValue>::empty());
                Ok(s)
            },
            None => Err(RatchetError::InvalidPeerPublicKey),
        }
    }

    /// Encrypts one message with the ratchet, which needs a sending chain.
    /// The message carries the ratchet's next header (its message number and
    /// previous chain length truncated to 32 bits) and the ratchet's sealing
    /// of the plaintext under the nonce it drew; the ratchet advances by one
    /// send, its next header counting one more message on the same key; the
    /// session id, the replay cache and the receiving position are unchanged. Every session in step with this one decrypts the message
    /// back to the plaintext.
    pub fn encrypt(&mut self, plaintext: &[u8], aad: &[u8]) -> (r: RatchetCiphertext)
        requires
            old(self).wf(),
            old(self).can_send,
            plaintext@.len() <= 0x10_0000_0000,
            aad@.len() + 4096 <= 0x10_0000_0000,
        ensures
            final(self).wf(),
            final(self).can_send,
            final(self).session_id == old(self).session_id,
            final(self).replay_cache@ == old(self).replay_cache@,
            final(self).receiving_chain@ == old(self).receiving_chain@,
            final(self).next_message_number == old(self).next_message_number,
            final(self).ratchet == ratchet_after_send(old(self).ratchet),
            ratchet_next_header(final(self).ratchet).n == ratchet_next_header(old(self).ratchet).n + 1,
            ratchet_next_header(final(self).ratchet).pn == ratchet_next_header(old(self).ratchet).pn,
            ratchet_next_header(final(self).ratchet).public_key == ratchet_next_header(
                old(self).ratchet,
            ).public_key,
            carries_next_header(old(self).ratchet, r.header),
            r.ciphertext@ == ratchet_sealed(old(self).ratchet, plaintext@, aad@, r.nonce@),
            r.ciphertext@.len() == plaintext@.len() + 16,
            forall|peer: SessionState|
                #[trigger] in_step(*old(self), peer) ==> ratchet_opened(
                    peer.ratchet,
                    r.header.serialized_header@,
                    r.ciphertext@,
                    r.nonce@,
                    aad@,
                ) == Some(plaintext@),
    {
        let out = ratchet_encrypt(&mut self.ratchet, plaintext, aad);
        ratchet_ciphertext_from(out)
    }

    /// Whether the cache already holds a key equal to `key`.
    fn cache_contains(&self, key: &ReplayKey) -> (r: bool)
        ensures
            r == self.log().contains(key@),
    {
        let n = self.replay_cache.len();
        let mut i: usize = 0;
        while i < n
            invariant
                i <= n,
                n == self.replay_cache@.len(),
                forall|j: int| 0 <= j < i ==> (#[trigger] self.replay_cache@[j])@ != key@,
            decreases n - i,
        {
            if replay_key_matches(&self.replay_cache[i], key) {
                assert(self.log()[i as int] == key@);
                return true;
            }
            i = i + 1;
        }
        assert forall|j: int| 0 <= j < self.log().len() implies #[trigger] self.log()[j] != key@ by {
            assert(self.log()[j] == self.replay_cache@[j]@);
        }
        false
    }

    /// The replay key of a message from `sender_device_id` in this session.
    fn replay_key(&self, sender_device_id: [u8; 16], payload: &RatchetCiphertext) -> (r: ReplayKey)
        ensures
            r@ == replay_key_of(self.session_id@, sender_device_id@, *payload),
    {
        let digest = sha256_of(payload.ciphertext.as_slice());
        ReplayKey {
            session_id: self.session_id,
            sender_device_id,
            ratchet_public_key: copy_bytes(payload.header.public_key.as_slice()),
            message_number: payload.header.message_number,
            ciphertext_sha256: copy_bytes(digest.as_slice()),
        }
    }

    /// Refuses a message whose replay key is already in the cache.
    fn ensure_replay_not_seen(&self, sender_device_id: [u8; 16], payload: &RatchetCiphertext) -> (r: Result<(), RatchetError>)
        ensures
            r is Err <==> self.log().contains(replay_key_of(self.session_id@, sender_device_id@, *payload)),
            r is Err ==> r == Err::<(), RatchetError>(RatchetError::ReplayDetected),
    {
        let replay = self.replay_key(sender_device_id, payload);
        if self.cache_contains(&replay) {
            return Err(RatchetError::ReplayDetected);
        }
        Ok(())
    }

    /// Appends the message's replay key, dropping the oldest key when the
    /// cache is full.
    fn remember_replay(&mut self, sender_device_id: [u8; 16], payload: &RatchetCiphertext)
        requires
            old(self).wf(),
        ensures
            final(self).wf(),
            final(self).session_id == old(self).session_id,
            final(self).ratchet == old(self).ratchet,
            final(self).can_send == old(self).can_send,
            final(self).receiving_chain@ == old(self).receiving_chain@,
            final(self).next_message_number == old(self).next_message_number,
            final(self).log() == remembered(
                old(self).log(),
                replay_key_of(old(self).session_id@, sender_device_id@, *payload),
            ),
    {
        let key = self.replay_key(sender_device_id, payload);
        let ghost before = self.replay_cache@;
        if self.replay_cache.len() == MAX_REPLAY_CACHE_PER_SESSION {
            self.replay_cache.pop_front();
        }
        self.replay_cache.push_back(key);
        proof {
            if before.len() == MAX_REPLAY_CACHE_PER_SESSION {
                assert(self.log() =~= replay_log(before).drop_first().push(key@));
            } else {
                assert(self.log() =~= replay_log(before).push(key@));
            }
        }
    }

    /// How many message keys accepting `payload` would make this session skip.
    fn skipped_count(&self, payload: &RatchetCiphertext) -> (r: u64)
        ensures
            r == self.skipped_for(*payload),
    {
        let n = payload.header.message_number as u64;
        if same_bytes(payload.header.public_key.as_slice(), self.receiving_chain.as_slice()) {
            if n >= self.next_message_number {
                n - self.next_message_number
            } else {
                0
            }
        } else {
            let pn = payload.header.previous_chain_length as u64;
            let rest: u64 = if pn >= self.next_message_number {
                pn - self.next_message_number
            } else {
                0
            };
            rest + n
        }
    }

    /// Decrypts a message from `sender_device_id`. A message whose replay key
    /// is in the cache is refused; so is one that would make the receiver
    /// skip more than `MAX_SKIPPED_MESSAGE_KEYS` message keys, or more than
    /// the ratchet crate's own limit of `RATCHET_MAX_SKIP`. Otherwise the
    /// ratchet decrypts it, its replay key is remembered (the oldest key
    /// dropping out of a full cache) and the receiving position advances.
    /// The ratchet must accept what reaches it: the crate panics on a message
    /// it cannot authenticate. Having decrypted the next message of a sender
    /// it was in step with, the session is in step with that sender's state
    /// after the message.
    pub fn decrypt(&mut self, sender_device_id: [u8; 16], payload: &RatchetCiphertext, aad: &[u8]) -> (r: Result<Vec<u8>, RatchetError>)
        requires
            old(self).wf(),
            old(self).admits(replay_key_of(old(self).session_id@, sender_device_id@, *payload), *payload)
                ==> ratchet_opened(
                old(self).ratchet,
                payload.header.serialized_header@,
                payload.ciphertext@,
                payload.nonce@,
                aad@,
            ) is Some,
        ensures
            final(self).wf(),
            final(self).session_id == old(self).session_id,
            ({
                let key = replay_key_of(old(self).session_id@, sender_device_id@, *payload);
                let opened = ratchet_opened(
                    old(self).ratchet,
                    payload.header.serialized_header@,
                    payload.ciphertext@,
                    payload.nonce@,
                    aad@,
                );
                let position = advanced_chain(
                    old(self).receiving_chain@,
                    old(self).next_message_number,
                    payload.header.public_key@,
                    payload.header.message_number,
                );
                &&& old(self).log().contains(key) ==> r == Err::<Vec<u8>, RatchetError>(
                    RatchetError::ReplayDetected,
                )
                &&& !old(self).log().contains(key) && !skip_allowed(old(self).skipped_for(*payload))
                    ==> r == Err::<Vec<u8>, RatchetError>(
                    RatchetError::SkippedKeyBoundExceeded,
                )
                &&& r is Ok <==> old(self).admits(key, *payload)
                &&& r is Err ==> *final(self) == *old(self)
                &&& r is Ok ==> final(self).log() == remembered(old(self).log(), key)
                    && final(self).can_send
                    && final(self).receiving_chain@ == position.0
                    && final(self).next_message_number == position.1
                &&& r matches Ok(p) ==> opened == Some(p@) && p@.len() + 16
                    == payload.ciphertext@.len()
            }),
            r is Ok ==> forall|sender: SessionState, plaintext: Seq<u8>|
                #[trigger] in_step(sender, *old(self)) && carries_next_header(sender.ratchet, payload.header)
                    && payload.ciphertext@ == #[trigger] ratchet_sealed(
                    sender.ratchet,
                    plaintext,
                    aad@,
                    payload.nonce@,
                ) ==> ratchet_in_step(ratchet_after_send(sender.ratchet), final(self).ratchet),
    {
        match self.ensure_replay_not_seen(sender_device_id, payload) {
            Ok(()) => {},
            Err(e) => {
                return Err(e);
            },
        }
        let skipped = self.skipped_count(payload);
        if skipped > MAX_SKIPPED_MESSAGE_KEYS as u64 || skipped > RATCHET_MAX_SKIP as u64 {
            return Err(RatchetError::SkippedKeyBoundExceeded);
        }
        let plaintext = ratchet_decrypt(
            &mut self.ratchet,
            payload.header.serialized_header.as_slice(),
            payload.ciphertext.as_slice(),
            &payload.nonce,
            aad,
        );
        self.can_send = true;
        self.remember_replay(sender_device_id, payload);
        let n = payload.header.message_number as u64;
        if !(same_bytes(payload.header.public_key.as_slice(), self.receiving_chain.as_slice())
            && n < self.next_message_number) {
            self.receiving_chain = copy_bytes(payload.header.public_key.as_slice());
            self.next_message_number = n + 1;
        }
        Ok(plaintext)
    }
}

/// The wire form of one ratchet encryption step: the header fields as the
/// ratchet produced them, with the message number and previous chain length
/// truncated to 32 bits.
pub fn ratchet_ciphertext_from(out: RatchetOutput) -> (r: RatchetCiphertext)
    ensures
        r.header.serialized_header@ == out.serialized_header@,
        r.header.public_key@ == out.public_key@,
        r.header.message_number == out.n as u32,
        r.header.previous_chain_length == out.pn as u32,
        r.ciphertext@ == out.ciphertext@,
        r.nonce == out.nonce,
{
    #[verifier::truncate]
    let message_number = out.n as u32;
    #[verifier::truncate]
    let previous_chain_length = out.pn as u32;
    RatchetCiphertext {
        header: RatchetHeaderWire {
            serialized_header: out.serialized_header,
            public_key: out.public_key,
            message_number,
            previous_chain_length,
        },
        ciphertext: out.ciphertext,
        nonce: out.nonce,
    }
}

/// Whether two replay keys are equal.
pub fn replay_key_matches(a: &ReplayKey, b: &ReplayKey) -> (r: bool)
    ensures
        r == (a@ == b@),
{
    same_id(&a.session_id, &b.session_id) && same_id(&a.sender_device_id, &b.sender_device_id)
        && same_bytes(a.ratchet_public_key.as_slice(), b.ratchet_public_key.as_slice())
        && a.message_number == b.message_number && same_bytes(
        a.ciphertext_sha256.as_slice(),
        b.ciphertext_sha256.as_slice(),
    )
}

/// The replay guard: once a message is remembered it is in the cache, so a
/// second delivery of it is refused; the cache stays within its capacity; and
/// remembering a key keeps every newer key and drops at most the oldest one.
pub proof fn lemma_remembered_rejects_replay(log: Seq<ReplayKeyValue>, key: ReplayKeyValue)
    requires
        log.len() <= MAX_REPLAY_CACHE_PER_SESSION,
    ensures
        remembered(log, key).contains(key),
        remembered(log, key).len() <= MAX_REPLAY_CACHE_PER_SESSION,
        remembered(log, key).last() == key,
        log.len() < MAX_REPLAY_CACHE_PER_SESSION ==> remembered(log, key).drop_last() == log,
        log.len() == MAX_REPLAY_CACHE_PER_SESSION ==> remembered(log, key).drop_last()
            == log.drop_first(),
{
    let r = remembered(log, key);
    assert(r[r.len() - 1] == key);
    if log.len() == MAX_REPLAY_CACHE_PER_SESSION {
        assert(r.drop_last() =~= log.drop_first());
    } else {
        assert(r.drop_last() =~= log);
    }
}

/// Two fresh sessions with the same root key, the second made for the first's
/// ratchet public key: the sender's first two messages carry message numbers
/// 0 and 1 on one chain, and the waiting session decrypts each back to its
/// plaintext, in order.
pub fn exchange_on_fresh_sessions(
    session_id: [u8; 16],
    root_key: [u8; 32],
    sender_device_id: [u8; 16],
    first: &[u8],
    second: &[u8],
    aad: &[u8],
) -> (r: Result<(Vec<u8>, Vec<u8>, u32, u32), RatchetError>)
    requires
        first@.len() <= 0x10_0000_0000,
        second@.len() <= 0x10_0000_0000,
        aad@.len() + 4096 <= 0x10_0000_0000,
    ensures
        r matches Ok((a, b, n0, n1)) && a@ == first@ && b@ == second@ && n0 == 0 && n1 == 1,
{
    let (mut bob, bob_public) = SessionState::init_bob(session_id, root_key);
    let mut alice = match SessionState::init_alice(session_id, root_key, bob_public.as_str()) {
        Ok(s) => s,
        Err(e) => {
            return Err(e);
        },
    };
    let ghost alice0 = alice;
    let p1 = alice.encrypt(first, aad);
    let ghost alice1 = alice;
    let p2 = alice.encrypt(second, aad);
    let ghost bob0 = bob;
    proof {
        assert(in_step(alice0, bob0));
        assert(bob0.log() =~= Seq::<ReplayKeyValue>::empty());
    }
    let a = match bob.decrypt(sender_device_id, &p1, aad) {
        Ok(a) => a,
        Err(e) => {
            return Err(e);
        },
    };
    let ghost bob1 = bob;
    proof {
        assert(in_step(alice1, bob1));
        let key = replay_key_of(bob1.session_id@, sender_device_id@, p2);
        let key1 = replay_key_of(bob0.session_id@, sender_device_id@, p1);
        assert(bob1.log() == seq![key1]);
        assert(key.message_number != key1.message_number);
        assert(!bob1.log().contains(key));
    }
    let b = match bob.decrypt(sender_device_id, &p2, aad) {
        Ok(b) => b,
        Err(e) => {
            return Err(e);
        },
    };
    Ok((a, b, p1.header.message_number, p2.header.message_number))
}

} // verus!
