//! Multi-consumer broadcast of state transitions.
//!
//! Executor workers publish every state transition; consumers subscribe with
//! a module instance and operation id and receive the matching events in
//! publish order. Delivery is best-effort: a subscriber whose buffer is full
//! when an event arrives is disconnected and learns so with an error on its
//! next poll. The authoritative record is always storage; a disconnected
//! subscriber re-scans storage and subscribes again.

use vstd::prelude::*;
use crate::errors::ClientError;
use crate::ids::{ModuleInstanceId, OperationId};
use crate::sm::{clone_dyn_state, DynState, DynStateV};

verus! {

/// Whether an event matches a subscriber's filter.
pub open spec fn event_matches(e: DynStateV, mi: ModuleInstanceId, op: OperationId) -> bool {
    e.module_instance_id == mi && e.operation_id == op
}

/// The events of `log` matching the filter, in order.
pub open spec fn matching_events(log: Seq<DynStateV>, mi: ModuleInstanceId, op: OperationId)
    -> Seq<DynStateV>
    decreases log.len(),
{
    if log.len() == 0 {
        Seq::empty()
    } else if event_matches(log.last(), mi, op) {
        matching_events(log.drop_last(), mi, op).push(log.last())
    } else {
        matching_events(log.drop_last(), mi, op)
    }
}

pub proof fn lemma_matching_events_push(
    log: Seq<DynStateV>,
    e: DynStateV,
    mi: ModuleInstanceId,
    op: OperationId,
)
    ensures
        event_matches(e, mi, op) ==> matching_events(log.push(e), mi, op) == matching_events(
            log, mi, op).push(e),
        !event_matches(e, mi, op) ==> matching_events(log.push(e), mi, op) == matching_events(
            log, mi, op),
{
    assert(log.push(e).drop_last() =~= log);
    assert(log.push(e).last() == e);
}

/// One consumer of the broadcast.
pub struct Subscription {
    /// Module instance this subscriber filters on.
    pub module_instance_id: ModuleInstanceId,
    /// Operation this subscriber filters on.
    pub operation_id: OperationId,
    /// Matching events published but not yet polled.
    pub pending: Vec<DynState>,
    /// False once the subscriber fell behind and was dropped.
    pub connected: bool,
    /// Matching events already handed out by `poll`.
    pub delivered: Ghost<Seq<DynStateV>>,
    /// Length of the notifier log at subscription time.
    pub joined_at: Ghost<int>,
}

/// Mathematical value of a [`Subscription`].
#[verifier::ext_equal]
pub ghost struct SubscriptionV {
    pub module_instance_id: ModuleInstanceId,
    pub operation_id: OperationId,
    pub pending: Seq<DynStateV>,
    pub connected: bool,
    pub delivered: Seq<DynStateV>,
    pub joined_at: int,
}

impl View for Subscription {
    type V = SubscriptionV;

    open spec fn view(&self) -> SubscriptionV {
        SubscriptionV {
            module_instance_id: self.module_instance_id,
            operation_id: self.operation_id,
            pending: self.pending@.map_values(|s: DynState| s@),
            connected: self.connected,
            delivered: self.delivered@,
            joined_at: self.joined_at@,
        }
    }
}

/// The publish-subscribe surface.
pub struct Notifier {
    /// Bound on each subscriber's pending buffer.
    pub capacity: usize,
    /// Every event ever published, in publish order.
    pub log: Ghost<Seq<DynStateV>>,
    pub subs: Vec<Subscription>,
}

/// What one published event does to one subscription: a matching event is
/// appended to the buffer of a connected subscriber, unless the buffer is
/// full, in which case the subscriber is disconnected.
pub open spec fn publish_sub(s: SubscriptionV, e: DynStateV, capacity: int) -> SubscriptionV {
    if s.connected && event_matches(e, s.module_instance_id, s.operation_id) {
        if s.pending.len() < capacity {
            SubscriptionV { pending: s.pending.push(e), ..s }
        } else {
            SubscriptionV { connected: false, ..s }
        }
    } else {
        s
    }
}

/// A subscription is consistent with the log: what was delivered, followed
/// by what is buffered, is exactly the sequence of matching events published
/// since the subscription was created.
pub open spec fn sub_consistent(s: SubscriptionV, log: Seq<DynStateV>, capacity: int) -> bool {
    &&& 0 <= s.joined_at <= log.len()
    &&& s.pending.len() <= capacity
    &&& (s.connected ==> s.delivered + s.pending == matching_events(
        log.subrange(s.joined_at, log.len() as int),
        s.module_instance_id,
        s.operation_id,
    ))
}

impl Notifier {
    /// Well-formedness: every subscription is consistent with the log.
    pub open spec fn wf(&self) -> bool {
        forall|i: int|
            0 <= i < self.subs@.len() ==> sub_consistent(
                #[trigger] self.subs@[i]@,
                self.log@,
                self.capacity as int,
            )
    }

    /// A notifier with no subscribers and the given buffer bound.
    pub fn new(capacity: usize) -> (r: Notifier)
        ensures
            r.wf(),
            r.subs@.len() == 0,
            r.log@.len() == 0,
            r.capacity == capacity,
    {
        Notifier { capacity, log: Ghost(Seq::empty()), subs: Vec::new() }
    }

    /// Creates a subscription filtering on one module instance and operation.
    /// Returns its handle.
    pub fn subscribe(&mut self, module_instance_id: ModuleInstanceId, operation_id: OperationId)
        -> (id: usize)
        requires
            old(self).wf(),
        ensures
            final(self).wf(),
            id == old(self).subs@.len(),
            final(self).subs@.len() == old(self).subs@.len() + 1,
            final(self).log@ == old(self).log@,
            final(self).capacity == old(self).capacity,
            forall|i: int|
                0 <= i < old(self).subs@.len() ==> final(self).subs@[i] == old(self).subs@[i],
            final(self).subs@[id as int]@ == (SubscriptionV {
                module_instance_id,
                operation_id,
                pending: Seq::empty(),
                connected: true,
                delivered: Seq::empty(),
                joined_at: old(self).log@.len() as int,
            }),
    {
        let id = self.subs.len();
        let sub = Subscription {
            module_instance_id,
            operation_id,
            pending: Vec::new(),
            connected: true,
            delivered: Ghost(Seq::empty()),
            joined_at: Ghost(self.log@.len() as int),
        };
        self.subs.push(sub);
        proof {
            let logv = self.log@;
            assert(logv.subrange(logv.len() as int, logv.len() as int) =~= Seq::<
                DynStateV,
            >::empty());
            assert(self.subs@[id as int]@ =~= (SubscriptionV {
                module_instance_id,
                operation_id,
                pending: Seq::empty(),
                connected: true,
                delivered: Seq::empty(),
                joined_at: logv.len() as int,
            }));
        }
        id
    }

    /// Publishes one state transition to every subscriber whose filter it
    /// matches.
    pub fn publish(&mut self, event: &DynState)
        requires
            old(self).wf(),
        ensures
            final(self).wf(),
            final(self).log@ == old(self).log@.push(event@),
            final(self).capacity == old(self).capacity,
            final(self).subs@.len() == old(self).subs@.len(),
            forall|i: int|
                0 <= i < old(self).subs@.len() ==> final(self).subs@[i]@ == publish_sub(
                    #[trigger] old(self).subs@[i]@,
                    event@,
                    old(self).capacity as int,
                ),
    {
        let ghost old_subs = self.subs@;
        let ghost old_log = self.log@;
        let ghost cap = self.capacity as int;
        proof {
            self.log@ = self.log@.push(event@);
        }
        let mut i: usize = 0;
        while i < self.subs.len()
            invariant
                old(self).wf(),
                self.capacity == old(self).capacity,
                cap == self.capacity as int,
                self.log@ == old_log.push(event@),
                old_subs == old(self).subs@,
                self.subs@.len() == old_subs.len(),
                0 <= i <= old_subs.len(),
                forall|j: int|
                    0 <= j < i ==> self.subs@[j]@ == publish_sub(
                        #[trigger] old_subs[j]@,
                        event@,
                        cap,
                    ),
                forall|j: int| i <= j < old_subs.len() ==> self.subs@[j] == old_subs[j],
            decreases old_subs.len() - i,
        {
            let connected = self.subs[i].connected;
            let matches_filter = self.subs[i].module_instance_id == event.module_instance_id
                && self.subs[i].operation_id == event.operation_id;
            if connected && matches_filter {
                let mut s = self.subs.remove(i);
                if s.pending.len() < self.capacity {
                    s.pending.push(clone_dyn_state(event));
                    proof {
                        assert(s.pending@.map_values(|x: DynState| x@) =~= old_subs[i as int]@
                            .pending.push(event@));
                        assert(s@ =~= publish_sub(old_subs[i as int]@, event@, cap));
                    }
                } else {
                    s.connected = false;
                    proof {
                        assert(s@ =~= publish_sub(old_subs[i as int]@, event@, cap));
                    }
                }
                self.subs.insert(i, s);
            } else {
                proof {
                    assert(self.subs@[i as int]@ =~= publish_sub(old_subs[i as int]@, event@, cap));
                }
            }
            i = i + 1;
        }
        proof {
            assert forall|k: int| 0 <= k < self.subs@.len() implies sub_consistent(
                #[trigger] self.subs@[k]@,
                self.log@,
                cap,
            ) by {
                let old_s = old_subs[k]@;
                let new_s = self.subs@[k]@;
                assert(sub_consistent(old_s, old_log, cap));
                let old_suffix = old_log.subrange(old_s.joined_at, old_log.len() as int);
                let new_suffix = self.log@.subrange(new_s.joined_at, self.log@.len() as int);
                assert(new_suffix =~= old_suffix.push(event@));
                lemma_matching_events_push(
                    old_suffix,
                    event@,
                    old_s.module_instance_id,
                    old_s.operation_id,
                );
            }
        }
    }

    /// Hands out the next buffered event for the subscription, `None` if the
    /// buffer is empty, or an error if the subscriber was disconnected for
    /// falling behind.
    pub fn poll(&mut self, id: usize) -> (r: Result<Option<DynState>, ClientError>)
        requires
            old(self).wf(),
            id < old(self).subs@.len(),
        ensures
            final(self).wf(),
            final(self).log@ == old(self).log@,
            final(self).capacity == old(self).capacity,
            final(self).subs@.len() == old(self).subs@.len(),
            forall|i: int|
                0 <= i < old(self).subs@.len() && i != id ==> final(self).subs@[i] == old(
                    self,
                ).subs@[i],
            !old(self).subs@[id as int]@.connected <==> (r == Err::<Option<DynState>, _>(
                ClientError::SubscriberDisconnected,
            )),
            old(self).subs@[id as int]@.connected && old(self).subs@[id as int]@.pending.len() == 0
                ==> r == Ok::<_, ClientError>(None::<DynState>) && final(self).subs@[id as int]
                == old(self).subs@[id as int],
            old(self).subs@[id as int]@.connected && old(self).subs@[id as int]@.pending.len() > 0
                ==> (r matches Ok(Some(ev)) && ev@ == old(self).subs@[id as int]@.pending[0]
                && final(self).subs@[id as int]@ == (SubscriptionV {
                    pending: old(self).subs@[id as int]@.pending.drop_first(),
                    delivered: old(self).subs@[id as int]@.delivered.push(
                        old(self).subs@[id as int]@.pending[0],
                    ),
                    ..old(self).subs@[id as int]@
                })),
    {
        let connected = self.subs[id].connected;
        if !connected {
            return Err(ClientError::SubscriberDisconnected);
        }
        if self.subs[id].pending.len() == 0 {
            return Ok(None);
        }
        let ghost old_sub = self.subs@[id as int]@;
        let mut s = self.subs.remove(id);
        let ev = s.pending.remove(0);
        proof {
            s.delivered@ = s.delivered@.push(ev@);
        }
        self.subs.insert(id, s);
        proof {
            assert(self.subs@[id as int]@.pending =~= old_sub.pending.drop_first());
            assert(self.subs@[id as int]@ =~= (SubscriptionV {
                pending: old_sub.pending.drop_first(),
                delivered: old_sub.delivered.push(old_sub.pending[0]),
                ..old_sub
            }));
            assert forall|i: int| 0 <= i < self.subs@.len() implies sub_consistent(
                #[trigger] self.subs@[i]@,
                self.log@,
                self.capacity as int,
            ) by {
                if i == id {
                    assert(old_sub.delivered.push(old_sub.pending[0]) + old_sub.pending
                        .drop_first() =~= old_sub.delivered + old_sub.pending);
                } else {
                    assert(self.subs@[i]@ == old(self).subs@[i]@);
                }
            }
        }
        Ok(Some(ev))
    }
}

/// Notifier completeness: a subscriber that was created before any number of
/// transitions and never disconnected has seen, or still buffers, every
/// matching transition, in commit order.
pub proof fn lemma_subscriber_sees_all(n: &Notifier, i: int)
    requires
        n.wf(),
        0 <= i < n.subs@.len(),
        n.subs@[i]@.connected,
    ensures
        n.subs@[i]@.delivered + n.subs@[i]@.pending == matching_events(
            n.log@.subrange(n.subs@[i]@.joined_at, n.log@.len() as int),
            n.subs@[i]@.module_instance_id,
            n.subs@[i]@.operation_id,
        ),
{
}

} // verus!
