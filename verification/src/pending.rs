use vstd::prelude::*;
use serde_json::Value;
use std::collections::HashMap;
use tokio::sync::oneshot::{Receiver, Sender};

verus! {

/// The sending half of a `tokio` one-shot channel: the completion slot of
/// one call. Dropping it unsent tells the receiver that the call is canceled.
#[verifier::external_type_specification]
#[verifier::external_body]
#[verifier::reject_recursive_types(T)]
pub struct ExSender<T>(tokio::sync::oneshot::Sender<T>);

/// The receiving half of a `tokio` one-shot channel, on which a caller waits.
#[verifier::external_type_specification]
#[verifier::external_body]
#[verifier::reject_recursive_types(T)]
pub struct ExReceiver<T>(tokio::sync::oneshot::Receiver<T>);

/// What a waiting caller gets in place of a reply when its slot was dropped.
#[verifier::external_type_specification]
#[verifier::external_body]
pub struct ExRecvError(tokio::sync::oneshot::error::RecvError);

/// `oneshot::channel` makes a fresh pair of halves. Nothing is claimed of them.
pub assume_specification<T>[ tokio::sync::oneshot::channel::<T> ]() -> (halves: (
    Sender<T>,
    Receiver<T>,
));

/// `Sender::send` consumes the sender and hands the value back where the
/// receiver is gone. Nothing is claimed of which of the two happens.
pub assume_specification<T>[ Sender::<T>::send ](slot: Sender<T>, t: T) -> (r: Result<(), T>);

/// The id that follows `id` in a session: one more, and zero after the largest.
pub open spec fn following(id: u64) -> u64 {
    if id == u64::MAX {
        0
    } else {
        (id + 1) as u64
    }
}

/// The id that a session which starts at `start` hands out for its request
/// number `k`, counting from zero.
pub open spec fn issued(start: u64, k: nat) -> u64
    decreases k,
{
    if k == 0 {
        start
    } else {
        following(issued(start, (k - 1) as nat))
    }
}

/// The slots that are left of `slots` once the ids of `order` are answered, one after the other.
pub open spec fn answered<S>(slots: Map<u64, S>, order: Seq<u64>) -> Map<u64, S>
    decreases order.len(),
{
    if order.len() == 0 {
        slots
    } else {
        answered(slots, order.drop_last()).remove(order.last())
    }
}

/// What became of a reply.
#[derive(Clone, Copy, Debug, PartialEq, Eq, Structural)]
pub enum Resolution {
    /// A call was pending under the id, and its slot was given the reply.
    Fulfilled,
    /// A call was pending under the id, but its caller had stopped waiting.
    Abandoned,
    /// No call was pending under the id; the reply is dropped.
    Unmatched,
}

/// The pending calls of one session: the completion slot of each request
/// that has no reply yet, by id, and the id of the next request.
pub struct PendingCalls {
    slots: HashMap<u64, Sender<Value>>,
    next_id: u64,
}

impl PendingCalls {
    /// The slots that wait for a reply, by request id.
    pub closed spec fn slots(&self) -> Map<u64, Sender<Value>> {
        self.slots@
    }

    /// The id that the next request gets.
    pub closed spec fn next_id(&self) -> u64 {
        self.next_id
    }

    /// The registry of a new session: nothing pending, ids start at 1.
    pub fn new() -> (r: Self)
        ensures
            r.slots() == Map::<u64, Sender<Value>>::empty(),
            r.next_id() == 1,
    {
        PendingCalls { slots: HashMap::new(), next_id: 1 }
    }

    /// The number of calls that wait for a reply.
    pub fn len(&self) -> (n: usize)
        ensures
            n == self.slots().len(),
    {
        self.slots.len()
    }

    /// Whether a call waits under `id`.
    pub fn is_pending(&self, id: u64) -> (r: bool)
        ensures
            r == self.slots().contains_key(id),
    {
        broadcast use vstd::std_specs::hash::group_hash_axioms;

        self.slots.contains_key(&id)
    }

    /// The id that the next request will get.
    pub fn peek_id(&self) -> (id: u64)
        ensures
            id == self.next_id(),
    {
        self.next_id
    }

    /// Takes the next id. The counter wraps after `u64::MAX`.
    pub fn allocate_id(&mut self) -> (id: u64)
        ensures
            id == old(self).next_id(),
            final(self).next_id() == following(id),
            final(self).slots() == old(self).slots(),
    {
        let id = self.next_id;
        self.next_id = id.wrapping_add(1);
        id
    }

    /// Puts `slot` under `id`. A slot that was there before is dropped, and
    /// with it the call that waited on it is canceled.
    pub fn register(&mut self, id: u64, slot: Sender<Value>)
        ensures
            final(self).slots() == old(self).slots().insert(id, slot),
            final(self).next_id() == old(self).next_id(),
    {
        broadcast use vstd::std_specs::hash::group_hash_axioms;

        self.slots.insert(id, slot);
    }

    /// Opens a call: takes the next id, makes a one-shot channel, keeps its
    /// sending half as the slot under that id, and hands out the id with the
    /// receiving half.
    pub fn open(&mut self) -> (r: (u64, Receiver<Value>))
        ensures
            r.0 == old(self).next_id(),
            final(self).next_id() == following(r.0),
            final(self).slots().dom() == old(self).slots().dom().insert(r.0),
            forall|id: u64|
                id != r.0 && old(self).slots().contains_key(id) ==> final(self).slots()[id] == old(
                    self,
                ).slots()[id],
    {
        let id = self.allocate_id();
        let (slot, waiter) = tokio::sync::oneshot::channel::<Value>();
        self.register(id, slot);
        (id, waiter)
    }

    /// Removes and returns the slot under `id`, if there is one.
    pub fn take(&mut self, id: u64) -> (r: Option<Sender<Value>>)
        ensures
            r == if old(self).slots().contains_key(id) {
                Some(old(self).slots()[id])
            } else {
                None
            },
            final(self).slots() == old(self).slots().remove(id),
            final(self).next_id() == old(self).next_id(),
    {
        broadcast use vstd::std_specs::hash::group_hash_axioms;

        self.slots.remove(&id)
    }

    /// Hands `reply` to the call that waits under `id` and removes its slot.
    /// A reply under an id with no pending call changes nothing.
    pub fn resolve(&mut self, id: u64, reply: Value) -> (r: Resolution)
        ensures
            r is Unmatched <==> !old(self).slots().contains_key(id),
            final(self).slots() == old(self).slots().remove(id),
            final(self).next_id() == old(self).next_id(),
    {
        match self.take(id) {
            Some(slot) => {
                match slot.send(reply) {
                    Ok(_) => Resolution::Fulfilled,
                    Err(_) => Resolution::Abandoned,
                }
            },
            None => Resolution::Unmatched,
        }
    }

    /// Drops every slot, which cancels every call that still waits, and
    /// says how many there were.
    pub fn cancel_all(&mut self) -> (canceled: usize)
        ensures
            canceled == old(self).slots().len(),
            final(self).slots() == Map::<u64, Sender<Value>>::empty(),
            final(self).next_id() == old(self).next_id(),
    {
        let canceled = self.slots.len();
        self.slots.clear();
        canceled
    }
}

/// As long as the counter has not wrapped, a later request gets a larger id
/// than an earlier one, so no id is used twice.
pub proof fn law_ids_increase(start: u64, earlier: nat, later: nat)
    requires
        earlier < later,
        start + later <= u64::MAX,
    ensures
        issued(start, earlier) < issued(start, later),
{
    lemma_issued_sum(start, earlier);
    lemma_issued_sum(start, later);
}

/// As long as the counter has not wrapped, request number `k` gets `start + k`.
pub proof fn lemma_issued_sum(start: u64, k: nat)
    requires
        start + k <= u64::MAX,
    ensures
        issued(start, k) == start + k,
    decreases k,
{
    if k > 0 {
        lemma_issued_sum(start, (k - 1) as nat);
    }
}

/// Answering the ids of `order` removes exactly those from the pending
/// slots, and leaves the slot of every other id as it was.
pub proof fn lemma_answered<S>(slots: Map<u64, S>, order: Seq<u64>, id: u64)
    ensures
        answered(slots, order).contains_key(id) <==> slots.contains_key(id) && !order.contains(id),
        answered(slots, order).contains_key(id) ==> answered(slots, order)[id] == slots[id],
    decreases order.len(),
{
    if order.len() == 0 {
        assert(!order.contains(id));
    } else {
        let head = order.drop_last();
        lemma_answered(slots, head, id);
        assert(answered(slots, order) == answered(slots, head).remove(order.last()));
        if order.contains(id) {
            let k = choose|k: int| 0 <= k < order.len() && order[k] == id;
            if k < order.len() - 1 {
                assert(head[k] == id);
                assert(head.contains(id));
            } else {
                assert(id == order.last());
            }
        }
        if head.contains(id) {
            let k = choose|k: int| 0 <= k < head.len() && head[k] == id;
            assert(order[k] == id);
            assert(order.contains(id));
        }
        if id == order.last() {
            assert(order[order.len() - 1] == id);
            assert(order.contains(id));
        }
    }
}

/// Replies may come in any order: whatever was answered before, the reply
/// to a call that is still unanswered finds the slot that was registered
/// under its own id.
pub proof fn law_replies_in_any_order<S>(slots: Map<u64, S>, order: Seq<u64>, k: int)
    requires
        0 <= k < order.len(),
        slots.contains_key(order[k]),
        forall|i: int| 0 <= i < k ==> order[i] != order[k],
    ensures
        answered(slots, order.take(k)).contains_key(order[k]),
        answered(slots, order.take(k))[order[k]] == slots[order[k]],
{
    let before = order.take(k);
    lemma_answered(slots, before, order[k]);
    if before.contains(order[k]) {
        let i = choose|i: int| 0 <= i < before.len() && before[i] == order[k];
        assert(before[i] == order[i]);
        assert(false);
    }
}

/// A reply whose id has no pending call leaves every pending call as it
/// was; a reply to a pending call leaves every other one as it was.
pub proof fn law_reply_touches_own_slot_only<S>(slots: Map<u64, S>, id: u64)
    ensures
        !slots.contains_key(id) ==> slots.remove(id) == slots,
        forall|other: u64|
            other != id ==> (#[trigger] slots.remove(id).contains_key(other)
                <==> slots.contains_key(other)),
        forall|other: u64|
            other != id && slots.contains_key(other) ==> #[trigger] slots.remove(id)[other]
                == slots[other],
{
    if !slots.contains_key(id) {
        assert(slots.remove(id) =~= slots);
    }
}

} // verus!
