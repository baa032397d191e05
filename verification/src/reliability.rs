//! Outbox delivery states, retry with exponential backoff, dedupe keys and
//! delivery receipts.
use vstd::prelude::*;
use crate::primitives::uuid_to_text;
use crate::text::{lemma_uuid_hyphenated_injective, uuid_hyphenated};
use crate::spec_types::{
    instant_in_range, DeliveryReceiptPayload, DeliveryState, OutboxItem,
};
use crate::text::push_char;

verus! {

#[derive(Debug, Clone, Copy)]
pub struct RetryPolicy {
    pub max_attempts: u32,
    pub base_delay_seconds: i64,
    pub max_delay_seconds: i64,
}

impl Default for RetryPolicy {
    /// Eight attempts, 15 seconds of base delay, at most 30 minutes between attempts.
    fn default() -> (r: Self)
        ensures
            r.max_attempts == 8,
            r.base_delay_seconds == 15,
            r.max_delay_seconds == 1800,
    {
        RetryPolicy { max_attempts: 8, base_delay_seconds: 15, max_delay_seconds: 60 * 30 }
    }
}

/// Two to the power `k`.
pub open spec fn pow2(k: nat) -> int
    decreases k,
{
    if k == 0 {
        1
    } else {
        2 * pow2((k - 1) as nat)
    }
}

/// The backoff exponent: the attempt count, capped at ten.
pub open spec fn backoff_exponent(attempt_count: u32) -> nat {
    if attempt_count < 10 {
        attempt_count as nat
    } else {
        10
    }
}

/// The delay before the next attempt: the base delay doubled per attempt
/// (at most ten doublings), capped at the maximum delay.
pub open spec fn retry_delay(policy: RetryPolicy, attempt_count: u32) -> int {
    let d = policy.base_delay_seconds * pow2(backoff_exponent(attempt_count));
    if d < policy.max_delay_seconds {
        d
    } else {
        policy.max_delay_seconds as int
    }
}

/// Whether computing the delay stays within 64-bit arithmetic and the next
/// attempt within the calendar.
pub open spec fn next_attempt_defined(now: i64, policy: RetryPolicy, attempt_count: u32) -> bool {
    &&& i64::MIN <= policy.base_delay_seconds * pow2(backoff_exponent(attempt_count)) <= i64::MAX
    &&& instant_in_range(now + retry_delay(policy, attempt_count))
}

proof fn lemma_pow2_bounds(k: nat)
    requires
        k <= 10,
    ensures
        1 <= pow2(k) <= 1024,
{
    lemma_pow2_monotone(k, 10);
    assert(pow2(10) == 1024) by {
        reveal_with_fuel(pow2, 11);
    }
}

/// The instant of the next attempt after `attempt_count` attempts.
pub fn next_attempt(now: i64, policy: &RetryPolicy, attempt_count: u32) -> (r: i64)
    requires
        next_attempt_defined(now, *policy, attempt_count),
    ensures
        r == now + retry_delay(*policy, attempt_count),
{
    let k: u32 = if attempt_count < 10 {
        attempt_count
    } else {
        10
    };
    let mut exp: i64 = 1;
    let mut i: u32 = 0;
    while i < k
        invariant
            i <= k,
            k == backoff_exponent(attempt_count),
            k <= 10,
            exp == pow2(i as nat),
        decreases k - i,
    {
        proof {
            lemma_pow2_bounds(i as nat);
        }
        exp = exp * 2;
        i = i + 1;
    }
    let product = policy.base_delay_seconds * exp;
    let delay = if product < policy.max_delay_seconds {
        product
    } else {
        policy.max_delay_seconds
    };
    now + delay
}

/// Whether a delivery state records that the message left or reached the
/// peer, which resets the next attempt to the present.
pub open spec fn is_delivery_progress(state: DeliveryState) -> bool {
    state == DeliveryState::SmtpAccepted || state == DeliveryState::FetchedByPeer || state
        == DeliveryState::DecryptedByPeer || state == DeliveryState::ReadByPeer
}

/// Whether a transition to `state` is defined: a retryable failure counts
/// one more attempt and schedules the next one.
pub open spec fn transition_defined(item: OutboxItem, state: DeliveryState, policy: RetryPolicy, now: i64) -> bool {
    state == DeliveryState::FailedRetryable ==> item.attempt_count < u32::MAX
        && next_attempt_defined(now, policy, (item.attempt_count + 1) as u32)
}

/// The item after moving to `state`.
pub open spec fn transitioned(item: OutboxItem, state: DeliveryState, policy: RetryPolicy, now: i64) -> OutboxItem {
    if state == DeliveryState::FailedRetryable {
        let attempts = (item.attempt_count + 1) as u32;
        OutboxItem {
            delivery_state: state,
            attempt_count: attempts,
            next_attempt_at: (now + retry_delay(policy, attempts)) as i64,
            ..item
        }
    } else if is_delivery_progress(state) {
        OutboxItem { delivery_state: state, next_attempt_at: now, ..item }
    } else {
        OutboxItem { delivery_state: state, ..item }
    }
}

/// Whether a retryable failure with attempts left is due at `now`.
pub open spec fn retry_due(item: OutboxItem, policy: RetryPolicy, now: i64) -> bool {
    item.delivery_state == DeliveryState::FailedRetryable && item.attempt_count < policy.max_attempts
        && item.next_attempt_at <= now
}

/// Moves an outbox item to `state`. A retryable failure counts one more
/// attempt and schedules the next one by the backoff; sending and delivery
/// progress sets the next attempt to `now`; other states change only the
/// state. With a positive base and maximum delay, a retryable failure
/// always schedules the next attempt after `now`.
pub fn transition_outbox(item: OutboxItem, state: DeliveryState, policy: &RetryPolicy, now: i64) -> (r: OutboxItem)
    requires
        transition_defined(item, state, *policy, now),
    ensures
        r == transitioned(item, state, *policy, now),
        r.delivery_state == state,
        r.message_id == item.message_id && r.session_id == item.session_id,
        state == DeliveryState::FailedRetryable ==> r.attempt_count == item.attempt_count + 1,
        state != DeliveryState::FailedRetryable ==> r.attempt_count == item.attempt_count,
        state == DeliveryState::Queued || state == DeliveryState::SmtpInFlight || state
            == DeliveryState::FailedTerminal ==> r.next_attempt_at == item.next_attempt_at,
        state == DeliveryState::FailedRetryable && policy.base_delay_seconds > 0
            && policy.max_delay_seconds > 0 ==> r.next_attempt_at > now,
{
    let mut item = item;
    item.delivery_state = state;
    match state {
        DeliveryState::FailedRetryable => {
            item.attempt_count = item.attempt_count + 1;
            item.next_attempt_at = next_attempt(now, policy, item.attempt_count);
            proof {
                let p = pow2(backoff_exponent(item.attempt_count));
                lemma_pow2_bounds(backoff_exponent(item.attempt_count));
                let base = policy.base_delay_seconds as int;
                assert(base > 0 ==> base * p >= base) by (nonlinear_arith)
                    requires
                        p >= 1,
                ;
            }
        },
        DeliveryState::SmtpAccepted
        | DeliveryState::FetchedByPeer
        | DeliveryState::DecryptedByPeer
        | DeliveryState::ReadByPeer => {
            item.next_attempt_at = now;
        },
        _ => {},
    }
    item
}

/// Only a retryable failure counts an attempt: moving an item to any other
/// state keeps its attempt count, and a retryable failure adds exactly one.
/// Sending, queueing and terminal failure leave the next attempt where it
/// was; delivery progress sets it to the present; every move sets the state
/// and keeps the rest of the item.
pub proof fn lemma_transition_counts_only_failures(item: OutboxItem, state: DeliveryState, policy: RetryPolicy, now: i64)
    requires
        transition_defined(item, state, policy, now),
    ensures
        transitioned(item, state, policy, now).delivery_state == state,
        state != DeliveryState::FailedRetryable ==> transitioned(item, state, policy, now).attempt_count
            == item.attempt_count,
        state == DeliveryState::FailedRetryable ==> transitioned(item, state, policy, now).attempt_count
            == item.attempt_count + 1,
        state == DeliveryState::Queued || state == DeliveryState::SmtpInFlight || state
            == DeliveryState::FailedTerminal ==> transitioned(item, state, policy, now).next_attempt_at
            == item.next_attempt_at,
        state == DeliveryState::SmtpAccepted || state == DeliveryState::FetchedByPeer || state
            == DeliveryState::DecryptedByPeer || state == DeliveryState::ReadByPeer ==> transitioned(
            item,
            state,
            policy,
            now,
        ).next_attempt_at == now,
        transitioned(item, state, policy, now).message_id == item.message_id,
        transitioned(item, state, policy, now).session_id == item.session_id,
{
}

/// Whether a retryable failure with attempts left is due at `now`.
pub fn should_retry(item: &OutboxItem, policy: &RetryPolicy, now: i64) -> (r: bool)
    ensures
        r == retry_due(*item, *policy, now),
{
    item.delivery_state == DeliveryState::FailedRetryable && item.attempt_count < policy.max_attempts
        && item.next_attempt_at <= now
}

/// Backoff laws: the delay never exceeds the maximum, never decreases as
/// attempts accumulate (for a non-negative base delay), and stops growing
/// after ten attempts.
pub proof fn lemma_retry_delay_monotone(policy: RetryPolicy, a: u32, b: u32)
    requires
        a <= b,
        policy.base_delay_seconds >= 0,
    ensures
        retry_delay(policy, a) <= retry_delay(policy, b),
        retry_delay(policy, b) <= policy.max_delay_seconds,
        a >= 10 ==> retry_delay(policy, a) == retry_delay(policy, b),
{
    lemma_pow2_monotone(backoff_exponent(a), backoff_exponent(b));
    let pa = pow2(backoff_exponent(a));
    let pb = pow2(backoff_exponent(b));
    let base = policy.base_delay_seconds as int;
    assert(base * pa <= base * pb) by (nonlinear_arith)
        requires
            pa <= pb,
            base >= 0,
    ;
}

proof fn lemma_pow2_monotone(a: nat, b: nat)
    requires
        a <= b,
    ensures
        pow2(a) <= pow2(b),
        pow2(a) >= 1,
    decreases b,
{
    if b > 0 {
        if a < b {
            lemma_pow2_monotone(a, (b - 1) as nat);
        } else {
            lemma_pow2_monotone((a - 1) as nat, (b - 1) as nat);
        }
    }
}

/// After a retryable failure the item is due again exactly from its newly
/// scheduled instant on, provided attempts are left; and only retryable
/// failures are ever due.
pub proof fn lemma_failed_item_due_when_scheduled(
    item: OutboxItem,
    state: DeliveryState,
    policy: RetryPolicy,
    now: i64,
    t: i64,
)
    requires
        transition_defined(item, state, policy, now),
    ensures
        state == DeliveryState::FailedRetryable ==> (retry_due(transitioned(item, state, policy, now), policy, t)
            <==> item.attempt_count + 1 < policy.max_attempts && now + retry_delay(
            policy,
            (item.attempt_count + 1) as u32,
        ) <= t),
        state != DeliveryState::FailedRetryable ==> !retry_due(
            transitioned(item, state, policy, now),
            policy,
            t,
        ),
{
}

/// The dedupe key of an outbox item: session id and message id as
/// hyphenated UUID texts joined by ':' (73 characters).
pub open spec fn dedupe_key_text(session_id: Seq<u8>, message_id: Seq<u8>) -> Seq<char> {
    uuid_hyphenated(session_id) + seq![':'] + uuid_hyphenated(message_id)
}

/// Dedupe keys tell outbox items apart: two keys are equal exactly when
/// both the session ids and the message ids are.
pub proof fn lemma_dedupe_key_injective(s1: Seq<u8>, m1: Seq<u8>, s2: Seq<u8>, m2: Seq<u8>)
    requires
        s1.len() == 16,
        m1.len() == 16,
        s2.len() == 16,
        m2.len() == 16,
    ensures
        dedupe_key_text(s1, m1) == dedupe_key_text(s2, m2) <==> s1 == s2 && m1 == m2,
{
    lemma_uuid_hyphenated_injective(s1, s2);
    lemma_uuid_hyphenated_injective(s2, s1);
    lemma_uuid_hyphenated_injective(m1, m2);
    lemma_uuid_hyphenated_injective(m2, m1);
    let k1 = dedupe_key_text(s1, m1);
    let k2 = dedupe_key_text(s2, m2);
    if k1 == k2 {
        assert(uuid_hyphenated(s1) =~= k1.subrange(0, 36));
        assert(uuid_hyphenated(s2) =~= k2.subrange(0, 36));
        assert(uuid_hyphenated(m1) =~= k1.subrange(37, 73));
        assert(uuid_hyphenated(m2) =~= k2.subrange(37, 73));
    }
}

/// The dedupe key of an outbox item.
pub fn dedupe_key(session_id: [u8; 16], message_id: [u8; 16]) -> (r: String)
    ensures
        r@ == dedupe_key_text(session_id@, message_id@),
{
    let mut s = uuid_to_text(&session_id);
    push_char(&mut s, ':');
    let m = uuid_to_text(&message_id);
    s.append(m.as_str());
    s
}

/// A receipt that the original message reached `state` at `now`.
pub fn delivery_receipt(original_message_id: [u8; 16], state: DeliveryState, now: i64) -> (r: DeliveryReceiptPayload)
    ensures
        r.original_message_id == original_message_id,
        r.state == state,
        r.observed_at == now,
{
    DeliveryReceiptPayload { original_message_id, state, observed_at: now }
}

} // verus!
