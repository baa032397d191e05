//! The decisions behind the local store: which outbox items are pending,
//! and where a mailbox cursor starts.
use vstd::prelude::*;
use crate::spec_types::{DeliveryState, OutboxItem};

verus! {

broadcast use vstd::seq_lib::group_seq_properties;

/// Whether an outbox item waits to be sent at `now`: queued or failed
/// retryably, and its next attempt has come.
pub open spec fn is_pending(item: OutboxItem, now: i64) -> bool {
    (item.delivery_state == DeliveryState::Queued || item.delivery_state
        == DeliveryState::FailedRetryable) && item.next_attempt_at <= now
}

/// Whether an outbox item waits to be sent at `now`.
pub fn outbox_item_pending(item: &OutboxItem, now: i64) -> (r: bool)
    ensures
        r == is_pending(*item, now),
        r ==> item.delivery_state == DeliveryState::Queued || item.delivery_state
            == DeliveryState::FailedRetryable,
        r ==> item.next_attempt_at <= now,
{
    (item.delivery_state == DeliveryState::Queued || item.delivery_state
        == DeliveryState::FailedRetryable) && item.next_attempt_at <= now
}

/// The pending items among the stored ones, in stored order.
pub fn select_pending_outbox(items: Vec<OutboxItem>, now: i64) -> (r: Vec<OutboxItem>)
    ensures
        r@ == items@.filter(|item: OutboxItem| is_pending(item, now)),
        forall|i: int|
            0 <= i < r@.len() ==> ((#[trigger] r@[i]).delivery_state == DeliveryState::Queued
                || r@[i].delivery_state == DeliveryState::FailedRetryable) && r@[i].next_attempt_at
                <= now,
        forall|i: int|
            0 <= i < items@.len() && ((#[trigger] items@[i]).delivery_state == DeliveryState::Queued
                || items@[i].delivery_state == DeliveryState::FailedRetryable)
                && items@[i].next_attempt_at <= now ==> r@.contains(items@[i]),
{
    let ghost pred = |item: OutboxItem| is_pending(item, now);
    let ghost all = items@;
    let mut out: Vec<OutboxItem> = Vec::new();
    let mut rest = items;
    let mut taken: usize = 0;
    let n = rest.len();
    assert(rest@ =~= all.skip(0));
    while taken < n
        invariant
            n == all.len(),
            taken <= n,
            rest@ == all.skip(taken as int),
            out@ == all.take(taken as int).filter(pred),
            pred == (|item: OutboxItem| is_pending(item, now)),
        decreases n - taken,
    {
        let item = rest.remove(0);
        assert(item == all[taken as int]);
        assert(rest@ =~= all.skip(taken + 1));
        let ghost prefix = all.take(taken + 1);
        proof {
            assert(prefix.drop_last() =~= all.take(taken as int));
            assert(prefix.last() == item);
        }
        let keep = outbox_item_pending(&item, now);
        let ghost before = out@;
        if keep {
            out.push(item);
        }
        assert(out@ == prefix.filter(pred)) by {
            reveal(Seq::filter);
            assert(keep == is_pending(item, now));
            assert(prefix.last() == item);
            assert(pred(item) == is_pending(item, now));
            if keep {
                assert(out@ == before.push(prefix.last()));
            }
        }
        taken = taken + 1;
    }
    assert(all.take(n as int) =~= all);
    proof {
        lemma_pending_states(all, now);
    }
    out
}

/// The pending items among `items`, in their order.
pub open spec fn pending_among(items: Seq<OutboxItem>, now: i64) -> Seq<OutboxItem> {
    items.filter(|item: OutboxItem| is_pending(item, now))
}

/// Only messages waiting to be sent are pending: an item is pending exactly
/// when it is queued or failed retryably and its next attempt has come, so
/// an item in flight, accepted, delivered or failed terminally is never
/// picked up again; and the selection keeps every such pending item.
pub proof fn lemma_pending_states(items: Seq<OutboxItem>, now: i64)
    ensures
        forall|item: OutboxItem|
            item.delivery_state != DeliveryState::Queued && item.delivery_state
                != DeliveryState::FailedRetryable ==> !#[trigger] is_pending(item, now),
        forall|item: OutboxItem|
            item.next_attempt_at > now ==> !#[trigger] is_pending(item, now),
        forall|item: OutboxItem|
            (item.delivery_state == DeliveryState::Queued || item.delivery_state
                == DeliveryState::FailedRetryable) && item.next_attempt_at <= now
                ==> #[trigger] is_pending(item, now),
        forall|i: int|
            0 <= i < pending_among(items, now).len() ==> ((#[trigger] pending_among(items, now)[i]).delivery_state
                == DeliveryState::Queued || pending_among(items, now)[i].delivery_state
                == DeliveryState::FailedRetryable) && pending_among(items, now)[i].next_attempt_at <= now,
        forall|i: int|
            0 <= i < items.len() && ((#[trigger] items[i]).delivery_state == DeliveryState::Queued
                || items[i].delivery_state == DeliveryState::FailedRetryable)
                && items[i].next_attempt_at <= now ==> pending_among(items, now).contains(items[i]),
{
    let f = pending_among(items, now);
    assert forall|i: int| 0 <= i < f.len() implies ((#[trigger] f[i]).delivery_state
        == DeliveryState::Queued || f[i].delivery_state == DeliveryState::FailedRetryable)
        && f[i].next_attempt_at <= now by {
        items.lemma_filter_pred(|item: OutboxItem| is_pending(item, now), i);
    }
    assert forall|i: int|
        0 <= i < items.len() && ((#[trigger] items[i]).delivery_state == DeliveryState::Queued
            || items[i].delivery_state == DeliveryState::FailedRetryable)
            && items[i].next_attempt_at <= now implies f.contains(items[i]) by {
        items.lemma_filter_contains(|item: OutboxItem| is_pending(item, now), i);
    }
}

/// Where reading a folder starts: the stored cursor, or UID 0 when none is stored.
pub fn cursor_or_start(stored: Option<u32>) -> (r: u32)
    ensures
        r == match stored {
            Some(u) => u,
            None => 0,
        },
{
    match stored {
        Some(u) => u,
        None => 0,
    }
}

} // verus!
