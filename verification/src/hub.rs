//! The canonical chain-state fan-out fabric: a registry of subscribers, each
//! with an independent bounded notification queue, to which commits and
//! reorganizations of the canonical chain are broadcast.
//!
//! Delivery is best effort and at most once per live subscriber: a publish
//! appends the notification to every open queue that has room, and lazily
//! prunes, on that same publish, every subscriber whose queue is full or
//! whose handle was dropped. Notifications published before a subscription
//! are never replayed to it.

use vstd::prelude::*;

use std::sync::Arc;

use crate::chain::Chain;

verus! {

/// Relies on `Arc::clone`: the clone is a handle to the same allocation, so
/// its value equals the original.
#[verifier::external_body]
fn arc_clone<T>(v: &Arc<T>) -> (res: Arc<T>)
    ensures
        res == v,
{
    Arc::clone(v)
}

/// A canonical chain transition: the head advanced without abandoning blocks
/// (`Commit`), or a previously canonical segment was replaced (`Reorg`).
/// The payload chains are shared, immutable and reference-counted: every
/// subscriber observes the same batch object.
#[derive(Clone, Debug, PartialEq, Eq)]
pub enum CanonStateNotification {
    /// The canonical head advanced by the blocks of `new`.
    Commit { new: Arc<Chain> },
    /// The previously canonical segment `old` was replaced by `new`.
    Reorg { old: Arc<Chain>, new: Arc<Chain> },
}

impl CanonStateNotification {
    /// Every notification carries a non-empty `new` chain of well-formed
    /// batches; a reorganization may vacate nothing (`old` empty), but never
    /// installs nothing.
    pub open spec fn wf(self) -> bool {
        match self {
            CanonStateNotification::Commit { new } => new.wf() && new.blocks@.len() > 0,
            CanonStateNotification::Reorg { old, new } => old.wf() && new.wf()
                && new.blocks@.len() > 0,
        }
    }

    /// Wraps a committed chain; rejected when the chain is empty, so that a
    /// commit never announces nothing.
    pub fn commit(new: Arc<Chain>) -> (out: Option<Self>)
        requires
            new.wf(),
        ensures
            out is Some <==> new.blocks@.len() > 0,
            out matches Some(n) ==> n == (CanonStateNotification::Commit { new }) && n.wf(),
    {
        if new.is_empty() {
            return None;
        }
        Some(CanonStateNotification::Commit { new })
    }

    /// Wraps a reorganization; rejected when the installed chain is empty, so
    /// that a reorganization never carries an empty `new` — in particular one
    /// with both sides empty cannot be constructed.
    pub fn reorg(old: Arc<Chain>, new: Arc<Chain>) -> (out: Option<Self>)
        requires
            old.wf(),
            new.wf(),
        ensures
            out is Some <==> new.blocks@.len() > 0,
            out matches Some(n) ==> n == (CanonStateNotification::Reorg { old, new }) && n.wf(),
    {
        if new.is_empty() {
            return None;
        }
        Some(CanonStateNotification::Reorg { old, new })
    }

    /// A second handle to the same notification: the payload chains are
    /// shared, not duplicated.
    pub fn duplicate(&self) -> (r: Self)
        ensures
            r == *self,
    {
        match self {
            CanonStateNotification::Commit { new } => CanonStateNotification::Commit {
                new: arc_clone(new),
            },
            CanonStateNotification::Reorg { old, new } => CanonStateNotification::Reorg {
                old: arc_clone(old),
                new: arc_clone(new),
            },
        }
    }
}

/// How many notifications a subscriber's queue can hold.
pub const NOTIFICATION_BUFFER: usize = 100;

/// One subscriber's registration: its handle, its bounded queue of pending
/// notifications, and whether the handle was dropped.
#[derive(Debug)]
pub struct SubscriberSlot {
    pub id: u64,
    pub queue: Vec<CanonStateNotification>,
    pub capacity: usize,
    pub closed: bool,
}

/// The mathematical content of one registration.
#[verifier::ext_equal]
pub ghost struct SlotModel {
    pub id: u64,
    pub queue: Seq<CanonStateNotification>,
    pub capacity: nat,
    pub closed: bool,
}

impl View for SubscriberSlot {
    type V = SlotModel;

    open spec fn view(&self) -> SlotModel {
        SlotModel {
            id: self.id,
            queue: self.queue@,
            capacity: self.capacity as nat,
            closed: self.closed,
        }
    }
}

/// The models of a registry's slots, in registration order.
pub open spec fn models(slots: Seq<SubscriberSlot>) -> Seq<SlotModel> {
    Seq::new(slots.len(), |i: int| slots[i]@)
}

/// Whether a publish can deliver to this subscriber: its handle is live and
/// its queue has room.
pub open spec fn delivers(m: SlotModel) -> bool {
    !m.closed && m.queue.len() < m.capacity
}

/// The subscriber after receiving a notification.
pub open spec fn delivered(m: SlotModel, n: CanonStateNotification) -> SlotModel {
    SlotModel { queue: m.queue.push(n), ..m }
}

/// What one publish does to the registry: every subscriber that can receive
/// gets the notification appended to its queue, in registration order; every
/// other subscriber — dropped, or with a full queue — is pruned.
pub open spec fn deliver_all(ms: Seq<SlotModel>, n: CanonStateNotification) -> Seq<SlotModel>
    decreases ms.len(),
{
    if ms.len() == 0 {
        Seq::empty()
    } else {
        let rest = deliver_all(ms.drop_first(), n);
        if delivers(ms[0]) {
            seq![delivered(ms[0], n)] + rest
        } else {
            rest
        }
    }
}

/// The subscribers a publish can deliver to, in registration order: those
/// whose handle is live and whose queue has room.
pub open spec fn live_models(ms: Seq<SlotModel>) -> Seq<SlotModel>
    decreases ms.len(),
{
    if ms.len() == 0 {
        Seq::empty()
    } else if delivers(ms[0]) {
        seq![ms[0]] + live_models(ms.drop_first())
    } else {
        live_models(ms.drop_first())
    }
}

/// Publishing delivers to every currently subscribed receiver that can
/// receive, and to no other: the registry after a publish consists of exactly
/// the live subscribers, in registration order, each with precisely the
/// published notification appended — so a dropped subscriber receives nothing
/// and is pruned.
pub proof fn lemma_publish_delivers(ms: Seq<SlotModel>, n: CanonStateNotification)
    ensures
        deliver_all(ms, n) == live_models(ms).map_values(|m: SlotModel| delivered(m, n)),
    decreases ms.len(),
{
    if ms.len() == 0 {
        assert(deliver_all(ms, n) =~= live_models(ms).map_values(
            |m: SlotModel| delivered(m, n),
        ));
    } else {
        let rest = ms.drop_first();
        lemma_publish_delivers(rest, n);
        if delivers(ms[0]) {
            assert((seq![ms[0]] + live_models(rest)).map_values(|m: SlotModel| delivered(m, n))
                =~= seq![delivered(ms[0], n)] + live_models(rest).map_values(
                |m: SlotModel| delivered(m, n),
            ));
        }
    }
}

/// Every subscriber that can receive appears, after a publish, with exactly
/// the published notification appended to its queue.
pub proof fn lemma_delivering_slot_receives(ms: Seq<SlotModel>, n: CanonStateNotification, i: int)
    requires
        0 <= i < ms.len(),
        delivers(ms[i]),
    ensures
        deliver_all(ms, n).contains(delivered(ms[i], n)),
    decreases i,
{
    let out = deliver_all(ms, n);
    let rest = ms.drop_first();
    let out_rest = deliver_all(rest, n);
    if i == 0 {
        assert(out[0] == delivered(ms[0], n));
    } else {
        assert(rest[i - 1] == ms[i]);
        lemma_delivering_slot_receives(rest, n, i - 1);
        let j0 = choose|j0: int|
            0 <= j0 < out_rest.len() && out_rest[j0] == delivered(rest[i - 1], n);
        if delivers(ms[0]) {
            assert(out[j0 + 1] == out_rest[j0]);
        } else {
            assert(out[j0] == out_rest[j0]);
        }
    }
}

/// A subscriber whose queue is empty — as a newly registered one is — holds,
/// after a publish, exactly the newly published notification and nothing
/// else: notifications published before its registration are never replayed
/// into it.
pub proof fn lemma_fresh_subscriber_sees_only_new(
    ms: Seq<SlotModel>,
    n: CanonStateNotification,
    i: int,
)
    requires
        0 <= i < ms.len(),
        ms[i].queue == Seq::<CanonStateNotification>::empty(),
        delivers(ms[i]),
    ensures
        deliver_all(ms, n).contains(delivered(ms[i], n)),
        delivered(ms[i], n).queue == seq![n],
{
    assert(Seq::<CanonStateNotification>::empty().push(n) =~= seq![n]);
    lemma_delivering_slot_receives(ms, n, i);
}

/// Two publishes over any starting registry: a subscriber registered before
/// both observes exactly both notifications in publish order, and one
/// registered between them observes only the second — notifications
/// published before a registration are never replayed, whatever was already
/// subscribed.
pub proof fn lemma_two_publishes_no_replay(
    ms: Seq<SlotModel>,
    first: SlotModel,
    second: SlotModel,
    a: CanonStateNotification,
    b: CanonStateNotification,
)
    requires
        first.queue == Seq::<CanonStateNotification>::empty(),
        second.queue == Seq::<CanonStateNotification>::empty(),
        !first.closed,
        !second.closed,
        first.capacity >= 2,
        second.capacity >= 1,
    ensures
        deliver_all(deliver_all(ms.push(first), a).push(second), b).contains(
            (SlotModel { queue: seq![a, b], ..first }),
        ),
        deliver_all(deliver_all(ms.push(first), a).push(second), b).contains(
            (SlotModel { queue: seq![b], ..second }),
        ),
{
    let ms1 = ms.push(first);
    let ms2 = deliver_all(ms1, a);
    let ms3 = ms2.push(second);
    let ms4 = deliver_all(ms3, b);
    assert(ms1[ms1.len() - 1] == first);
    lemma_delivering_slot_receives(ms1, a, ms1.len() - 1);
    let d1 = delivered(first, a);
    let j1 = choose|j: int| 0 <= j < ms2.len() && ms2[j] == d1;
    assert(ms3[j1] == d1);
    assert(delivers(d1));
    lemma_delivering_slot_receives(ms3, b, j1);
    assert(delivered(d1, b) =~= (SlotModel { queue: seq![a, b], ..first })) by {
        assert(Seq::<CanonStateNotification>::empty().push(a).push(b) =~= seq![a, b]);
    }
    assert(ms3[ms3.len() - 1] == second);
    lemma_delivering_slot_receives(ms3, b, ms3.len() - 1);
    assert(delivered(second, b) =~= (SlotModel { queue: seq![b], ..second })) by {
        assert(Seq::<CanonStateNotification>::empty().push(b) =~= seq![b]);
    }
}

/// The process-wide registry of canonical-state subscribers: publishes
/// commits and reorganizations to every live subscriber's bounded queue.
#[derive(Debug)]
pub struct CanonicalStateHub {
    pub slots: Vec<SubscriberSlot>,
    pub next_id: u64,
}

impl CanonicalStateHub {
    /// Slot handles are strictly increasing (hence unique) and below the next
    /// handle to be issued; queues respect their capacity; payloads are
    /// well-formed.
    pub open spec fn wf(self) -> bool {
        &&& forall|i: int, j: int| 0 <= i < j < self.slots@.len()
            ==> (#[trigger] self.slots@[i]).id < (#[trigger] self.slots@[j]).id
        &&& forall|i: int| 0 <= i < self.slots@.len() ==> (#[trigger] self.slots@[i]).id
            < self.next_id
        &&& forall|i: int| 0 <= i < self.slots@.len() ==> (#[trigger] self.slots@[i]).queue@.len()
            <= self.slots@[i].capacity
        &&& forall|i: int, k: int| 0 <= i < self.slots@.len() && 0 <= k
            < self.slots@[i].queue@.len() ==> (#[trigger] self.slots@[i].queue@[k]).wf()
    }

    /// An empty registry.
    pub fn new() -> (r: Self)
        ensures
            r.wf(),
            r.slots@.len() == 0,
            r.next_id == 0,
    {
        CanonicalStateHub { slots: Vec::new(), next_id: 0 }
    }

    /// Registers a new subscriber and returns its handle. The new queue is
    /// empty: notifications published before this call are never delivered to
    /// the new subscriber.
    pub fn subscribe(&mut self) -> (id: u64)
        requires
            old(self).wf(),
            old(self).next_id < 0xffffffffffffffffu64,
        ensures
            final(self).wf(),
            id == old(self).next_id,
            final(self).next_id == old(self).next_id + 1,
            final(self).slots@.len() == old(self).slots@.len() + 1,
            forall|i: int| 0 <= i < old(self).slots@.len() ==> final(self).slots@[i]
                == old(self).slots@[i],
            final(self).slots@.last()@.id == id,
            final(self).slots@.last()@.queue == Seq::<CanonStateNotification>::empty(),
            final(self).slots@.last()@.capacity == NOTIFICATION_BUFFER as nat,
            final(self).slots@.last()@.closed == false,
    {
        let id = self.next_id;
        let slot = SubscriberSlot {
            id,
            queue: Vec::new(),
            capacity: NOTIFICATION_BUFFER,
            closed: false,
        };
        proof {
            assert(slot.queue@ =~= Seq::<CanonStateNotification>::empty());
        }
        self.slots.push(slot);
        self.next_id = id + 1;
        id
    }

    /// Drops a subscriber's handle. The registration is only marked; the
    /// registry prunes it lazily on the next publish, where the failing
    /// delivery is the signal.
    pub fn unsubscribe(&mut self, id: u64)
        requires
            old(self).wf(),
        ensures
            final(self).wf(),
            final(self).next_id == old(self).next_id,
            final(self).slots@.len() == old(self).slots@.len(),
            forall|i: int| 0 <= i < old(self).slots@.len() && old(self).slots@[i].id != id
                ==> final(self).slots@[i] == old(self).slots@[i],
            forall|i: int| 0 <= i < old(self).slots@.len() && old(self).slots@[i].id == id ==> {
                &&& (#[trigger] final(self).slots@[i])@.closed == true
                &&& final(self).slots@[i]@.id == old(self).slots@[i]@.id
                &&& final(self).slots@[i]@.queue == old(self).slots@[i]@.queue
                &&& final(self).slots@[i]@.capacity == old(self).slots@[i]@.capacity
            },
    {
        let n = self.slots.len();
        let mut i: usize = 0;
        while i < n
            invariant
                0 <= i <= n,
                n == self.slots@.len(),
                old(self).slots@.len() == n,
                self.next_id == old(self).next_id,
                self.wf(),
                forall|j: int| 0 <= j < n && old(self).slots@[j].id != id ==> self.slots@[j]
                    == old(self).slots@[j],
                forall|j: int| i <= j < n ==> self.slots@[j] == old(self).slots@[j],
                forall|j: int| 0 <= j < i && old(self).slots@[j].id == id ==> {
                    &&& (#[trigger] self.slots@[j])@.closed == true
                    &&& self.slots@[j]@.id == old(self).slots@[j]@.id
                    &&& self.slots@[j]@.queue == old(self).slots@[j]@.queue
                    &&& self.slots@[j]@.capacity == old(self).slots@[j]@.capacity
                },
            decreases n - i,
        {
            if self.slots[i].id == id {
                let ghost pre = self.slots@;
                let slot = self.slots.remove(i);
                self.slots.insert(
                    i,
                    SubscriberSlot {
                        id: slot.id,
                        queue: slot.queue,
                        capacity: slot.capacity,
                        closed: true,
                    },
                );
                proof {
                    assert(self.slots@.len() == pre.len());
                    assert(forall|j: int| 0 <= j < pre.len() && j != i ==> self.slots@[j]
                        == pre[j]);
                }
            }
            i += 1;
        }
    }

    /// Publishes a notification: appends it to the queue of every live
    /// subscriber with room, in registration order, and prunes every other
    /// subscriber. Delivery failure is absorbed, never escalated.
    fn publish(&mut self, notification: CanonStateNotification)
        requires
            old(self).wf(),
            notification.wf(),
        ensures
            final(self).wf(),
            final(self).next_id == old(self).next_id,
            models(final(self).slots@) == deliver_all(models(old(self).slots@), notification),
    {
        let ghost all = self.slots@;
        let n = self.slots.len();
        let mut kept: Vec<SubscriberSlot> = Vec::new();
        let mut i: usize = 0;
        proof {
            assert(models(kept@) =~= Seq::<SlotModel>::empty());
            assert(all.skip(0) =~= all);
        }
        while i < n
            invariant
                0 <= i <= n,
                n == all.len(),
                self.slots@ == all,
                old(self).wf(),
                all == old(self).slots@,
                notification.wf(),
                deliver_all(models(all), notification) == models(kept@) + deliver_all(
                    models(all.skip(i as int)),
                    notification,
                ),
                forall|a: int, b: int| 0 <= a < b < kept@.len() ==> (#[trigger] kept@[a]).id
                    < (#[trigger] kept@[b]).id,
                forall|a: int| 0 <= a < kept@.len() ==> (#[trigger] kept@[a]).id
                    < old(self).next_id,
                forall|a: int| 0 <= a < kept@.len() ==> (#[trigger] kept@[a]).queue@.len()
                    <= kept@[a].capacity,
                forall|a: int, k: int| 0 <= a < kept@.len() && 0 <= k
                    < kept@[a].queue@.len() ==> (#[trigger] kept@[a].queue@[k]).wf(),
                forall|a: int| 0 <= a < kept@.len() ==> exists|b: int|
                    0 <= b < i && (#[trigger] kept@[a]).id == all[b].id,
            decreases n - i,
        {
            let ghost ms_rest = models(all.skip(i as int));
            let ghost kept_pre = kept@;
            proof {
                assert(ms_rest[0] == all[i as int]@);
                assert(models(all.skip(i as int)).drop_first() =~= models(
                    all.skip(i as int + 1),
                ));
            }
            let closed = self.slots[i].closed;
            let qlen = self.slots[i].queue.len();
            let cap = self.slots[i].capacity;
            if !closed && qlen < cap {
                let d = notification.duplicate();
                let id = self.slots[i].id;
                let mut queue: Vec<CanonStateNotification> = Vec::new();
                let mut k: usize = 0;
                while k < qlen
                    invariant
                        0 <= k <= qlen,
                        self.slots@ == all,
                        n == all.len(),
                        0 <= i < n,
                        qlen == self.slots@[i as int].queue@.len(),
                        queue@ == self.slots@[i as int].queue@.take(k as int),
                    decreases qlen - k,
                {
                    queue.push(self.slots[i].queue[k].duplicate());
                    proof {
                        assert(queue@ =~= self.slots@[i as int].queue@.take(k + 1int));
                    }
                    k += 1;
                }
                proof {
                    assert(self.slots@[i as int].queue@.take(qlen as int) =~= self.slots@[
                        i as int
                    ].queue@);
                }
                queue.push(d);
                let slot = SubscriberSlot { id, queue, capacity: cap, closed: false };
                proof {
                    assert(slot@ =~= delivered(all[i as int]@, notification));
                    assert(forall|b: int| 0 <= b < kept_pre.len()
                        ==> (#[trigger] kept_pre[b]).id < slot.id);
                }
                kept.push(slot);
                proof {
                    assert(models(kept@) =~= models(kept_pre).push(
                        delivered(all[i as int]@, notification),
                    ));
                    assert(models(kept_pre).push(delivered(all[i as int]@, notification))
                        + deliver_all(models(all.skip(i as int + 1)), notification) =~= models(
                        kept_pre,
                    ) + deliver_all(models(all.skip(i as int)), notification));
                }
            } else {
                proof {
                    assert(!delivers(all[i as int]@));
                }
            }
            i += 1;
        }
        proof {
            assert(all.skip(n as int) =~= Seq::<SubscriberSlot>::empty());
            assert(models(Seq::<SubscriberSlot>::empty()) =~= Seq::<SlotModel>::empty());
            assert(models(kept@) + deliver_all(models(all.skip(n as int)), notification) =~= models(
                kept@,
            ));
        }
        self.slots = kept;
    }

    /// Wraps the chain in a commit notification and broadcasts it.
    pub fn publish_commit(&mut self, new: Arc<Chain>)
        requires
            old(self).wf(),
            new.wf(),
            new.blocks@.len() > 0,
        ensures
            final(self).wf(),
            final(self).next_id == old(self).next_id,
            models(final(self).slots@) == deliver_all(
                models(old(self).slots@),
                CanonStateNotification::Commit { new },
            ),
    {
        self.publish(CanonStateNotification::Commit { new })
    }

    /// Wraps the two chains in a reorganization notification and broadcasts
    /// it.
    pub fn publish_reorg(&mut self, old_chain: Arc<Chain>, new: Arc<Chain>)
        requires
            old(self).wf(),
            old_chain.wf(),
            new.wf(),
            new.blocks@.len() > 0,
        ensures
            final(self).wf(),
            final(self).next_id == old(self).next_id,
            models(final(self).slots@) == deliver_all(
                models(old(self).slots@),
                CanonStateNotification::Reorg { old: old_chain, new },
            ),
    {
        self.publish(CanonStateNotification::Reorg { old: old_chain, new })
    }

    /// Takes the oldest pending notification of the subscriber with this
    /// handle, or nothing when its queue is empty or the handle is unknown.
    pub fn try_recv(&mut self, id: u64) -> (out: Option<CanonStateNotification>)
        requires
            old(self).wf(),
        ensures
            final(self).wf(),
            final(self).next_id == old(self).next_id,
            final(self).slots@.len() == old(self).slots@.len(),
            forall|i: int| 0 <= i < old(self).slots@.len() && old(self).slots@[i].id != id
                ==> final(self).slots@[i] == old(self).slots@[i],
            forall|i: int| 0 <= i < old(self).slots@.len() && old(self).slots@[i].id == id ==> {
                &&& old(self).slots@[i].queue@.len() > 0 ==> out == Some(
                    old(self).slots@[i].queue@[0],
                ) && (#[trigger] final(self).slots@[i])@.queue == old(
                    self,
                ).slots@[i]@.queue.drop_first()
                &&& old(self).slots@[i].queue@.len() == 0 ==> out is None && final(self).slots@[i]
                    == old(self).slots@[i]
                &&& final(self).slots@[i]@.id == old(self).slots@[i]@.id
                &&& final(self).slots@[i]@.capacity == old(self).slots@[i]@.capacity
                &&& final(self).slots@[i]@.closed == old(self).slots@[i]@.closed
            },
            (forall|i: int| 0 <= i < old(self).slots@.len() ==> old(self).slots@[i].id != id)
                ==> out is None && *final(self) == *old(self),
    {
        let n = self.slots.len();
        let mut i: usize = 0;
        while i < n
            invariant
                0 <= i <= n,
                n == self.slots@.len(),
                *self == *old(self),
                old(self).wf(),
                forall|j: int| 0 <= j < i ==> (#[trigger] self.slots@[j]).id != id,
            decreases n - i,
        {
            if self.slots[i].id == id {
                if self.slots[i].queue.len() == 0 {
                    return None;
                }
                let ghost pre = self.slots@;
                let mut slot = self.slots.remove(i);
                let out = slot.queue.remove(0);
                proof {
                    assert(slot.queue@ =~= pre[i as int].queue@.drop_first());
                }
                self.slots.insert(i, slot);
                proof {
                    assert(self.slots@.len() == pre.len());
                    assert(forall|j: int| 0 <= j < pre.len() && j != i ==> self.slots@[j]
                        == pre[j]);
                    assert forall|a: int, b: int| 0 <= a < b < self.slots@.len() implies (
                    #[trigger] self.slots@[a]).id < (#[trigger] self.slots@[b]).id by {
                        assert(pre[a].id < pre[b].id);
                        assert(self.slots@[a].id == pre[a].id);
                        assert(self.slots@[b].id == pre[b].id);
                    }
                }
                return Some(out);
            }
            i += 1;
        }
        None
    }
}

} // verus!
