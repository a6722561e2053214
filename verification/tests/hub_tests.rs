use std::sync::Arc;

use chain_backfill::chain::{Chain, ExecutionOutcome, StateView};
use chain_backfill::hub::{CanonStateNotification, CanonicalStateHub, NOTIFICATION_BUFFER};
use chain_backfill::primitives::{Hash256, RecoveredBlock};
use chain_backfill::test_utils::TestCanonStateSubscriptions;

fn block(number: u64) -> RecoveredBlock {
    RecoveredBlock {
        number,
        hash: Hash256 { bytes: [number as u8; 32] },
        parent_hash: Hash256 { bytes: [number.wrapping_sub(1) as u8; 32] },
        timestamp: number,
        gas_used: 0,
        transactions: vec![],
        senders: vec![],
    }
}

fn chain_of(number: u64) -> Arc<Chain> {
    Arc::new(Chain::new(
        vec![block(number)],
        ExecutionOutcome {
            bundle: StateView::new(),
            receipts: vec![vec![]],
            first_block: number,
        },
    ))
}

fn commit_number(notification: &CanonStateNotification) -> u64 {
    match notification {
        CanonStateNotification::Commit { new } => new.blocks()[0].number,
        CanonStateNotification::Reorg { .. } => panic!("expected a commit"),
    }
}

/// An early subscriber sees every later commit; a late subscriber never sees
/// a commit published before it subscribed.
#[test]
fn no_replay_for_late_subscribers() {
    let mut hub = CanonicalStateHub::new();
    let s1 = hub.subscribe();
    hub.publish_commit(chain_of(1));
    let s2 = hub.subscribe();
    hub.publish_commit(chain_of(2));

    assert_eq!(commit_number(&hub.try_recv(s1).unwrap()), 1);
    assert_eq!(commit_number(&hub.try_recv(s1).unwrap()), 2);
    assert!(hub.try_recv(s1).is_none());

    assert_eq!(commit_number(&hub.try_recv(s2).unwrap()), 2);
    assert!(hub.try_recv(s2).is_none());
}

/// A publish delivers to every currently subscribed receiver, and to none
/// that dropped its handle beforehand: the dropped one is pruned on that
/// publish, not before.
#[test]
fn dropped_subscriber_is_excluded_and_pruned_lazily() {
    let mut hub = CanonicalStateHub::new();
    let s1 = hub.subscribe();
    let s2 = hub.subscribe();
    hub.unsubscribe(s2);
    // pruning is lazy: the registration is still present until a publish
    assert_eq!(hub.slots.len(), 2);
    hub.publish_commit(chain_of(7));
    assert_eq!(hub.slots.len(), 1);
    assert_eq!(commit_number(&hub.try_recv(s1).unwrap()), 7);
    assert!(hub.try_recv(s2).is_none());
}

/// Every subscriber observes the same shared payload object.
#[test]
fn subscribers_share_the_payload() {
    let mut hub = CanonicalStateHub::new();
    let s1 = hub.subscribe();
    let s2 = hub.subscribe();
    let payload = chain_of(3);
    hub.publish_commit(Arc::clone(&payload));
    let n1 = hub.try_recv(s1).unwrap();
    let n2 = hub.try_recv(s2).unwrap();
    match (&n1, &n2) {
        (CanonStateNotification::Commit { new: a }, CanonStateNotification::Commit { new: b }) => {
            assert!(Arc::ptr_eq(a, &payload));
            assert!(Arc::ptr_eq(b, &payload));
        },
        _ => panic!("expected commits"),
    }
}

/// A subscriber that never drains its queue misses notifications once the
/// buffer is full, and is pruned on the publish that finds it full.
#[test]
fn slow_subscriber_is_pruned_when_full() {
    let mut hub = CanonicalStateHub::new();
    let _slow = hub.subscribe();
    for _ in 0..NOTIFICATION_BUFFER {
        hub.publish_commit(chain_of(1));
    }
    assert_eq!(hub.slots.len(), 1);
    assert_eq!(hub.slots[0].queue.len(), NOTIFICATION_BUFFER);
    hub.publish_commit(chain_of(2));
    assert_eq!(hub.slots.len(), 0);
}

/// A commit of an empty chain and a reorganization installing an empty chain
/// are rejected outright.
#[test]
fn empty_notifications_are_rejected() {
    assert!(CanonStateNotification::commit(Arc::new(Chain::empty())).is_none());
    assert!(
        CanonStateNotification::reorg(Arc::new(Chain::empty()), Arc::new(Chain::empty()))
            .is_none()
    );
    assert!(CanonStateNotification::commit(chain_of(1)).is_some());
    // a reorganization may vacate nothing, but must install something
    let reorg = CanonStateNotification::reorg(Arc::new(Chain::empty()), chain_of(2)).unwrap();
    match reorg {
        CanonStateNotification::Reorg { old, new } => {
            assert!(old.is_empty());
            assert_eq!(new.blocks()[0].number, 2);
        },
        CanonStateNotification::Commit { .. } => panic!("expected a reorg"),
    }
    assert!(CanonStateNotification::reorg(chain_of(1), Arc::new(Chain::empty())).is_none());
}

/// Reorg notifications are delivered like commits, carrying both sides.
#[test]
fn reorg_delivery() {
    let mut subs = TestCanonStateSubscriptions::default();
    let s1 = subs.subscribe_to_canonical_state();
    subs.add_next_commit(chain_of(1));
    subs.add_next_reorg(chain_of(1), chain_of(2));
    assert_eq!(commit_number(&subs.hub.try_recv(s1).unwrap()), 1);
    match subs.hub.try_recv(s1).unwrap() {
        CanonStateNotification::Reorg { old, new } => {
            assert_eq!(old.blocks()[0].number, 1);
            assert_eq!(new.blocks()[0].number, 2);
        },
        CanonStateNotification::Commit { .. } => panic!("expected a reorg"),
    }
    assert!(subs.hub.try_recv(s1).is_none());
}
