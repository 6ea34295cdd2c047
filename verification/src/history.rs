//! What holds of the store over any run of its operations.

use vstd::prelude::*;
use crate::server::ReplyModel;
use crate::store::{DeliveryModel, PendingModel, StoreModel};
use crate::types::{served_status, ResponseModel};

verus! {

/// One operation on the store, with its arguments.
pub enum StoreStep {
    Enqueue(PendingModel),
    Pop,
    Cancel(u128),
    Deposit(u128, DeliveryModel, u64),
    Claim(u128),
    Collect(u64, u64),
}

impl StoreModel {
    /// The store after one operation.
    pub open spec fn step(self, step: StoreStep) -> StoreModel {
        match step {
            StoreStep::Enqueue(request) => self.enqueue(request),
            StoreStep::Pop => self.pop_next(),
            StoreStep::Cancel(id) => self.cancel(id),
            StoreStep::Deposit(id, response, now) => self.deposit(id, response, now),
            StoreStep::Claim(id) => self.claim(id),
            StoreStep::Collect(now, grace) => self.collect(now, grace),
        }
    }

    /// The store after a run of operations, the first of them first.
    pub open spec fn run(self, steps: Seq<StoreStep>) -> StoreModel
        decreases steps.len(),
    {
        if steps.len() == 0 {
            self
        } else {
            self.run(steps.drop_last()).step(steps.last())
        }
    }

    /// Whether an operation uses identifiers as the broker and an honest
    /// agent do: a request is enqueued under an identifier that the store
    /// does not know, and a response is deposited only for a request that no
    /// longer waits in the queue.
    pub open spec fn orderly(self, step: StoreStep) -> bool {
        match step {
            StoreStep::Enqueue(request) => self.unknown(request.id),
            StoreStep::Deposit(id, _, _) => !self.queued(id),
            _ => true,
        }
    }

    /// Whether every operation of a run is orderly in the store that it
    /// meets.
    pub open spec fn orderly_run(self, steps: Seq<StoreStep>) -> bool
        decreases steps.len(),
    {
        if steps.len() == 0 {
            true
        } else {
            self.orderly_run(steps.drop_last()) && self.run(steps.drop_last()).orderly(
                steps.last(),
            )
        }
    }

    /// The requests that the pops of a run hand out, in the order of the
    /// pops.
    pub open spec fn handed_out(self, steps: Seq<StoreStep>) -> Seq<PendingModel>
        decreases steps.len(),
    {
        if steps.len() == 0 {
            Seq::empty()
        } else {
            let before = self.handed_out(steps.drop_last());
            match steps.last() {
                StoreStep::Pop => match self.run(steps.drop_last()).head() {
                    Some(request) => before.push(request),
                    None => before,
                },
                _ => before,
            }
        }
    }
}

/// The requests that a run enqueues, in the order of its operations.
pub open spec fn enqueued(steps: Seq<StoreStep>) -> Seq<PendingModel>
    decreases steps.len(),
{
    if steps.len() == 0 {
        Seq::empty()
    } else {
        let before = enqueued(steps.drop_last());
        match steps.last() {
            StoreStep::Enqueue(request) => before.push(request),
            _ => before,
        }
    }
}

/// Whether a run withdraws no request.
pub open spec fn without_cancel(steps: Seq<StoreStep>) -> bool {
    forall|i: int| 0 <= i < steps.len() ==> !(#[trigger] steps[i] is Cancel)
}

/// Filtering a queue keeps identifiers distinct, and keeps only requests
/// that the queue held.
proof fn lemma_filter_distinct(queue: Seq<PendingModel>, keep: spec_fn(PendingModel) -> bool)
    requires
        forall|i: int, j: int|
            0 <= i < j < queue.len() ==> (#[trigger] queue[i]).id != (#[trigger] queue[j]).id,
    ensures
        forall|i: int, j: int|
            0 <= i < j < queue.filter(keep).len() ==> (#[trigger] queue.filter(keep)[i]).id != (
            #[trigger] queue.filter(keep)[j]).id,
        forall|k: int|
            0 <= k < queue.filter(keep).len() ==> queue.contains(#[trigger] queue.filter(keep)[k]),
    decreases queue.len(),
{
    reveal(Seq::filter);
    if queue.len() > 0 {
        let front = queue.drop_last();
        assert forall|i: int, j: int| 0 <= i < j < front.len() implies (#[trigger] front[i]).id != (
        #[trigger] front[j]).id by {
            assert(front[i] == queue[i] && front[j] == queue[j]);
        }
        lemma_filter_distinct(front, keep);
        let kept = front.filter(keep);
        let all = queue.filter(keep);
        assert forall|k: int| 0 <= k < all.len() implies queue.contains(#[trigger] all[k]) by {
            if k < kept.len() {
                assert(all[k] == kept[k]);
                assert(front.contains(kept[k]));
                let m = choose|m: int| 0 <= m < front.len() && front[m] == kept[k];
                assert(queue[m] == all[k]);
            } else {
                assert(all[k] == queue.last());
                assert(queue[queue.len() - 1] == all[k]);
            }
        }
        assert forall|i: int, j: int| 0 <= i < j < all.len() implies (#[trigger] all[i]).id != (
        #[trigger] all[j]).id by {
            if j < kept.len() {
                assert(all[i] == kept[i] && all[j] == kept[j]);
            } else {
                assert(all[j] == queue.last());
                assert(all[i] == kept[i]);
                assert(front.contains(kept[i]));
                let m = choose|m: int| 0 <= m < front.len() && front[m] == kept[i];
                assert(queue[m] == kept[i]);
                assert(queue[m].id != queue[queue.len() - 1].id);
            }
        }
    }
}

/// One orderly operation keeps every identifier in at most one place.
pub proof fn step_keeps_ids_apart(store: StoreModel, step: StoreStep)
    requires
        store.ids_apart(),
        store.orderly(step),
    ensures
        store.step(step).ids_apart(),
{
    let after = store.step(step);
    match step {
        StoreStep::Enqueue(request) => {
            assert forall|id: u128| #[trigger] after.queued(id) implies store.queued(id) || id
                == request.id by {
                let k = choose|k: int| 0 <= k < after.queue.len() && (#[trigger] after.queue[k]).id
                    == id;
                if k < store.queue.len() {
                    assert(store.queue[k].id == id);
                }
            }
            assert forall|i: int, j: int| 0 <= i < j < after.queue.len() implies (
            #[trigger] after.queue[i]).id != (#[trigger] after.queue[j]).id by {
                assert(after.queue[i] == store.queue[i]);
                if j < store.queue.len() {
                    assert(after.queue[j] == store.queue[j]);
                } else {
                    assert(after.queue[j] == request);
                    if store.queue[i].id == request.id {
                        assert(store.queued(request.id));
                    }
                }
            }
        },
        StoreStep::Pop => {
            if store.queue.len() > 0 {
                let head = store.queue[0];
                assert forall|id: u128| #[trigger] after.queued(id) implies store.queued(id) && id
                    != head.id by {
                    let k = choose|k: int|
                        0 <= k < after.queue.len() && (#[trigger] after.queue[k]).id == id;
                    assert(after.queue[k] == store.queue[k + 1]);
                    assert(store.queue[0].id != store.queue[k + 1].id);
                }
                assert(store.queued(head.id));
                assert forall|i: int, j: int| 0 <= i < j < after.queue.len() implies (
                #[trigger] after.queue[i]).id != (#[trigger] after.queue[j]).id by {
                    assert(after.queue[i] == store.queue[i + 1]);
                    assert(after.queue[j] == store.queue[j + 1]);
                }
            }
        },
        StoreStep::Cancel(id) => {
            let keep = |p: PendingModel| p.id != id;
            lemma_filter_distinct(store.queue, keep);
            assert forall|x: u128| #[trigger] after.queued(x) implies store.queued(x) by {
                let k = choose|k: int| 0 <= k < after.queue.len() && (#[trigger] after.queue[k]).id
                    == x;
                assert(store.queue.contains(after.queue[k]));
                let m = choose|m: int| 0 <= m < store.queue.len() && store.queue[m]
                    == after.queue[k];
                assert(store.queue[m].id == x);
            }
        },
        StoreStep::Deposit(id, response, now) => {
            assert forall|x: u128| #[trigger] after.queued(x) implies store.queued(x) by {}
        },
        StoreStep::Claim(id) => {
            assert forall|x: u128| #[trigger] after.queued(x) implies store.queued(x) by {}
        },
        StoreStep::Collect(now, grace) => {
            assert forall|x: u128| #[trigger] after.queued(x) implies store.queued(x) by {}
        },
    }
}

/// In the empty store every identifier is in at most one place.
pub proof fn empty_store_has_ids_apart()
    ensures
        StoreModel::empty().ids_apart(),
{
}

/// From a store in which every identifier is in at most one place, an
/// orderly run leads to such a store again.
pub proof fn run_keeps_ids_apart(store: StoreModel, steps: Seq<StoreStep>)
    requires
        store.ids_apart(),
        store.orderly_run(steps),
    ensures
        store.run(steps).ids_apart(),
    decreases steps.len(),
{
    if steps.len() > 0 {
        run_keeps_ids_apart(store, steps.drop_last());
        step_keeps_ids_apart(store.run(steps.drop_last()), steps.last());
    }
}

/// Requests leave the queue in the order in which they entered it: over a
/// run that withdraws none, the requests handed out, followed by those that
/// still wait, are the requests that waited at the start followed by those
/// that the run enqueued, in that order.
pub proof fn pops_follow_enqueues(store: StoreModel, steps: Seq<StoreStep>)
    requires
        without_cancel(steps),
    ensures
        store.handed_out(steps) + store.run(steps).queue == store.queue + enqueued(steps),
    decreases steps.len(),
{
    if steps.len() == 0 {
        assert(store.handed_out(steps) + store.run(steps).queue =~= store.queue + enqueued(steps));
    } else {
        let front = steps.drop_last();
        assert(without_cancel(front)) by {
            assert forall|i: int| 0 <= i < front.len() implies !(#[trigger] front[i] is Cancel) by {
                assert(front[i] == steps[i]);
            }
        }
        pops_follow_enqueues(store, front);
        let mid = store.run(front);
        assert(!(steps[steps.len() - 1] is Cancel));
        assert(store.handed_out(steps) + store.run(steps).queue =~= store.handed_out(front)
            + mid.queue + match steps.last() {
            StoreStep::Enqueue(request) => seq![request],
            _ => Seq::<PendingModel>::empty(),
        });
        assert(store.queue + enqueued(steps) =~= store.queue + enqueued(front) + match steps.last() {
            StoreStep::Enqueue(request) => seq![request],
            _ => Seq::<PendingModel>::empty(),
        });
    }
}

/// A response that the agent posted is what the waiting caller is served:
/// once it is deposited it can be claimed under its request identifier, and
/// the reply made of it has the posted status where that lies in 100..=599
/// and 502 otherwise, and the posted body byte for byte.
pub proof fn posted_response_is_served(store: StoreModel, posted: ResponseModel, now: u64)
    ensures
        store.deposit(posted.request_id, DeliveryModel::of(posted), now).claimable(
            posted.request_id,
        ) == Some(DeliveryModel::of(posted)),
        ReplyModel::serving(DeliveryModel::of(posted)).status == served_status(posted.status),
        100 <= posted.status <= 599 ==> ReplyModel::serving(DeliveryModel::of(posted)).status
            == posted.status,
        !(100 <= posted.status <= 599) ==> ReplyModel::serving(DeliveryModel::of(posted)).status
            == 502,
        ReplyModel::serving(DeliveryModel::of(posted)).body == posted.body,
{
}

/// A deposited response stays in the table while it is not stale, and is
/// gone once stale responses are discarded after more than the grace period,
/// whether or not anybody ever waited for it.
pub proof fn unclaimed_response_expires(
    store: StoreModel,
    id: u128,
    response: DeliveryModel,
    deposited: u64,
    now: u64,
    grace: u64,
)
    ensures
        now - deposited <= grace ==> store.deposit(id, response, deposited).collect(
            now,
            grace,
        ).claimable(id) == Some(response),
        now - deposited > grace ==> !store.deposit(id, response, deposited).collect(
            now,
            grace,
        ).ready.contains_key(id),
{
}

/// A claim hands a response out once: after it, the table holds nothing
/// under that identifier.
pub proof fn response_is_claimed_once(store: StoreModel, id: u128)
    ensures
        store.claim(id).claimable(id) is None,
{
}


/// Whether `part` can be had from `whole` by leaving requests out, the rest
/// keeping their order.
pub open spec fn in_order_within(part: Seq<PendingModel>, whole: Seq<PendingModel>) -> bool
    decreases whole.len(),
{
    if part.len() == 0 {
        true
    } else if whole.len() == 0 {
        false
    } else {
        ||| part.last() == whole.last() && in_order_within(part.drop_last(), whole.drop_last())
        ||| in_order_within(part, whole.drop_last())
    }
}

proof fn lemma_in_order_same(s: Seq<PendingModel>)
    ensures
        in_order_within(s, s),
    decreases s.len(),
{
    if s.len() > 0 {
        lemma_in_order_same(s.drop_last());
    }
}

proof fn lemma_in_order_push(part: Seq<PendingModel>, whole: Seq<PendingModel>, x: PendingModel)
    requires
        in_order_within(part, whole),
    ensures
        in_order_within(part.push(x), whole.push(x)),
        in_order_within(part, whole.push(x)),
{
    assert(part.push(x).drop_last() =~= part);
    assert(whole.push(x).drop_last() =~= whole);
}

proof fn lemma_in_order_chain(
    a: Seq<PendingModel>,
    b: Seq<PendingModel>,
    c: Seq<PendingModel>,
)
    requires
        in_order_within(a, b),
        in_order_within(b, c),
    ensures
        in_order_within(a, c),
    decreases c.len(),
{
    if a.len() == 0 {
    } else if c.len() == 0 {
    } else if b.len() == 0 {
    } else if in_order_within(b, c.drop_last()) {
        lemma_in_order_chain(a, b, c.drop_last());
    } else {
        assert(b.last() == c.last() && in_order_within(b.drop_last(), c.drop_last()));
        if a.last() == b.last() && in_order_within(a.drop_last(), b.drop_last()) {
            lemma_in_order_chain(a.drop_last(), b.drop_last(), c.drop_last());
        } else {
            lemma_in_order_chain(a, b.drop_last(), c.drop_last());
        }
    }
}

/// Leaving requests out of the tail of a sequence keeps the rest in order.
proof fn lemma_in_order_filter(
    head: Seq<PendingModel>,
    tail: Seq<PendingModel>,
    keep: spec_fn(PendingModel) -> bool,
)
    ensures
        in_order_within(head + tail.filter(keep), head + tail),
    decreases tail.len(),
{
    reveal(Seq::filter);
    if tail.len() == 0 {
        assert(head + tail.filter(keep) =~= head);
        assert(head + tail =~= head);
        lemma_in_order_same(head);
    } else {
        let front = tail.drop_last();
        lemma_in_order_filter(head, front, keep);
        assert(head + tail =~= (head + front).push(tail.last()));
        if keep(tail.last()) {
            assert(head + tail.filter(keep) =~= (head + front.filter(keep)).push(tail.last()));
        }
        lemma_in_order_push(head + front.filter(keep), head + front, tail.last());
    }
}

/// Requests never overtake one another, whatever else happens: over any
/// run, withdrawals included, the requests handed out, followed by those
/// that still wait, are in the order in which they entered the queue.
pub proof fn pops_keep_enqueue_order(store: StoreModel, steps: Seq<StoreStep>)
    ensures
        in_order_within(
            store.handed_out(steps) + store.run(steps).queue,
            store.queue + enqueued(steps),
        ),
    decreases steps.len(),
{
    if steps.len() == 0 {
        assert(store.handed_out(steps) + store.run(steps).queue =~= store.queue);
        assert(store.queue + enqueued(steps) =~= store.queue);
        lemma_in_order_same(store.queue);
    } else {
        let front = steps.drop_last();
        pops_keep_enqueue_order(store, front);
        let mid = store.run(front);
        let out = store.handed_out(front);
        let entered = store.queue + enqueued(front);
        match steps.last() {
            StoreStep::Enqueue(request) => {
                assert(store.handed_out(steps) + store.run(steps).queue =~= (out
                    + mid.queue).push(request));
                assert(store.queue + enqueued(steps) =~= entered.push(request));
                lemma_in_order_push(out + mid.queue, entered, request);
            },
            StoreStep::Pop => {
                assert(store.handed_out(steps) + store.run(steps).queue =~= out + mid.queue);
            },
            StoreStep::Cancel(id) => {
                let keep = |p: PendingModel| p.id != id;
                lemma_in_order_filter(out, mid.queue, keep);
                lemma_in_order_chain(out + mid.queue.filter(keep), out + mid.queue, entered);
            },
            StoreStep::Deposit(id, response, now) => {},
            StoreStep::Claim(id) => {},
            StoreStep::Collect(now, grace) => {},
        }
    }
}

} // verus!
