//! The correlation store: the queue of requests that wait for the agent, the
//! set of requests that the agent has taken, and the table of responses that
//! wait for their public caller.

use std::collections::VecDeque;
use vstd::prelude::*;
use crate::headers::{HeaderMap, HeaderModel};
use crate::types::{RequestId, RequestUri, UriModel};

verus! {

/// The mathematical content of a [`PendingRequest`].
pub struct PendingModel {
    pub id: u128,
    pub method: Seq<char>,
    pub uri: UriModel,
    pub version: Seq<char>,
    pub headers: Seq<HeaderModel>,
    pub body: Seq<u8>,
    pub deadline: u64,
}

/// A public request that was captured whole and waits to be fulfilled.
pub struct PendingRequest {
    pub id: RequestId,
    pub method: String,
    pub uri: RequestUri,
    /// The protocol version as it was received, such as `HTTP/1.1`.
    pub version: String,
    pub headers: HeaderMap,
    pub body: Vec<u8>,
    /// The time, in milliseconds, from which the public caller is no longer
    /// kept waiting.
    pub deadline: u64,
}

impl View for PendingRequest {
    type V = PendingModel;

    open spec fn view(&self) -> PendingModel {
        PendingModel {
            id: self.id,
            method: self.method@,
            uri: self.uri@,
            version: self.version@,
            headers: self.headers@,
            body: self.body@,
            deadline: self.deadline,
        }
    }
}

/// The mathematical content of a [`ProxiedResponse`].
pub struct DeliveryModel {
    pub request_id: u128,
    pub status: u16,
    pub headers: Seq<HeaderModel>,
    pub body: Seq<u8>,
}

/// The response that the agent delivered for one request.
pub struct ProxiedResponse {
    /// The request that this answers.
    pub request_id: RequestId,
    /// The status as the agent posted it.
    pub status: u16,
    pub headers: HeaderMap,
    pub body: Vec<u8>,
}

impl View for ProxiedResponse {
    type V = DeliveryModel;

    open spec fn view(&self) -> DeliveryModel {
        DeliveryModel {
            request_id: self.request_id,
            status: self.status,
            headers: self.headers@,
            body: self.body@,
        }
    }
}

/// A delivered response and the time, in milliseconds, of its deposit.
pub struct ReadyModel {
    pub response: DeliveryModel,
    pub deposited_at: u64,
}

impl ReadyModel {
    /// Whether the response has sat in the table for longer than `grace`.
    pub open spec fn stale(self, now: u64, grace: u64) -> bool {
        now - self.deposited_at > grace
    }
}

/// The mathematical content of a [`CorrelationStore`].
pub struct StoreModel {
    /// The requests that no agent has taken yet, oldest first.
    pub queue: Seq<PendingModel>,
    /// The requests that an agent has taken and not yet answered.
    pub in_flight: Set<u128>,
    /// The responses that no public caller has claimed yet.
    pub ready: Map<u128, ReadyModel>,
}

impl StoreModel {
    /// The store that holds nothing.
    pub open spec fn empty() -> StoreModel {
        StoreModel { queue: Seq::empty(), in_flight: Set::empty(), ready: Map::empty() }
    }

    /// Whether a request with this identifier waits in the queue.
    pub open spec fn queued(self, id: u128) -> bool {
        exists|i: int| 0 <= i < self.queue.len() && (#[trigger] self.queue[i]).id == id
    }

    /// Whether the identifier occurs nowhere in the store.
    pub open spec fn unknown(self, id: u128) -> bool {
        !self.queued(id) && !self.in_flight.contains(id) && !self.ready.contains_key(id)
    }

    /// The store after a request was added at the tail of the queue.
    pub open spec fn enqueue(self, request: PendingModel) -> StoreModel {
        StoreModel { queue: self.queue.push(request), ..self }
    }

    /// The request that the next pop hands out, if any.
    pub open spec fn head(self) -> Option<PendingModel> {
        if self.queue.len() == 0 {
            None
        } else {
            Some(self.queue[0])
        }
    }

    /// The store after a pop: the head has left the queue and is in flight.
    pub open spec fn pop_next(self) -> StoreModel {
        if self.queue.len() == 0 {
            self
        } else {
            StoreModel {
                queue: self.queue.drop_first(),
                in_flight: self.in_flight.insert(self.queue[0].id),
                ..self
            }
        }
    }

    /// The store after a cancellation: no request with this identifier waits
    /// in the queue or is in flight; the other requests keep their order.
    pub open spec fn cancel(self, id: u128) -> StoreModel {
        StoreModel {
            queue: self.queue.filter(|p: PendingModel| p.id != id),
            in_flight: self.in_flight.remove(id),
            ..self
        }
    }

    /// The store after a deposit at time `now`: the response is in the table
    /// under this identifier, in place of any earlier one, and the request is
    /// no longer in flight.
    pub open spec fn deposit(self, id: u128, response: DeliveryModel, now: u64) -> StoreModel {
        StoreModel {
            in_flight: self.in_flight.remove(id),
            ready: self.ready.insert(id, ReadyModel { response, deposited_at: now }),
            ..self
        }
    }

    /// The response that a claim hands out, if any.
    pub open spec fn claimable(self, id: u128) -> Option<DeliveryModel> {
        if self.ready.contains_key(id) {
            Some(self.ready[id].response)
        } else {
            None
        }
    }

    /// The store after a claim: the table holds nothing under this
    /// identifier.
    pub open spec fn claim(self, id: u128) -> StoreModel {
        StoreModel { ready: self.ready.remove(id), ..self }
    }

    /// The store after stale responses were discarded: the table keeps
    /// exactly the responses that have not sat in it for longer than `grace`.
    pub open spec fn collect(self, now: u64, grace: u64) -> StoreModel {
        StoreModel {
            ready: Map::new(
                |id: u128| self.ready.contains_key(id) && !self.ready[id].stale(now, grace),
                |id: u128| self.ready[id],
            ),
            ..self
        }
    }

    /// Whether every identifier is in at most one place: no two requests in
    /// the queue share one, and none is in two of queue, flight and table.
    pub open spec fn ids_apart(self) -> bool {
        &&& forall|i: int, j: int|
            0 <= i < j < self.queue.len() ==> (#[trigger] self.queue[i]).id != (
            #[trigger] self.queue[j]).id
        &&& forall|id: u128| #[trigger] self.queued(id) ==> !self.in_flight.contains(id)
        &&& forall|id: u128| #[trigger] self.queued(id) ==> !self.ready.contains_key(id)
        &&& forall|id: u128| #[trigger]
            self.in_flight.contains(id) ==> !self.ready.contains_key(id)
    }
}


/// One entry of the table of delivered responses.
struct ReadyEntry {
    id: RequestId,
    deposited_at: u64,
    response: ProxiedResponse,
}

impl ReadyEntry {
    spec fn model(self) -> ReadyModel {
        ReadyModel { response: self.response@, deposited_at: self.deposited_at }
    }
}

/// Whether no two entries answer the same request.
spec fn distinct_ids(entries: Seq<ReadyEntry>) -> bool {
    forall|i: int, j: int|
        0 <= i < j < entries.len() ==> (#[trigger] entries[i]).id != (#[trigger] entries[j]).id
}

/// Whether some entry answers the request `id`.
spec fn has_entry(entries: Seq<ReadyEntry>, id: u128) -> bool {
    exists|i: int| 0 <= i < entries.len() && (#[trigger] entries[i]).id == id
}

/// The place of an entry that answers the request `id`.
spec fn entry_index(entries: Seq<ReadyEntry>, id: u128) -> int {
    choose|i: int| 0 <= i < entries.len() && (#[trigger] entries[i]).id == id
}

/// The table that a list of entries stands for.
spec fn table(entries: Seq<ReadyEntry>) -> Map<u128, ReadyModel> {
    Map::new(
        |id: u128| has_entry(entries, id),
        |id: u128| entries[entry_index(entries, id)].model(),
    )
}

/// The requests of a queue, oldest first.
spec fn queue_model(queue: Seq<PendingRequest>) -> Seq<PendingModel> {
    Seq::new(queue.len(), |i: int| queue[i]@)
}

/// The identifiers that a list names.
spec fn id_set(ids: Seq<u128>) -> Set<u128> {
    Set::new(|id: u128| ids.contains(id))
}

proof fn lemma_table_at(entries: Seq<ReadyEntry>, i: int)
    requires
        distinct_ids(entries),
        0 <= i < entries.len(),
    ensures
        table(entries).contains_key(entries[i].id),
        table(entries)[entries[i].id] == entries[i].model(),
{
    let id = entries[i].id;
    assert(has_entry(entries, id));
    let k = entry_index(entries, id);
    assert(0 <= k < entries.len() && entries[k].id == id);
    assert(k == i);
}

proof fn lemma_table_push(entries: Seq<ReadyEntry>, entry: ReadyEntry)
    requires
        distinct_ids(entries),
        !has_entry(entries, entry.id),
    ensures
        distinct_ids(entries.push(entry)),
        table(entries.push(entry)) == table(entries).insert(entry.id, entry.model()),
{
    let after = entries.push(entry);
    assert(distinct_ids(after)) by {
        assert forall|i: int, j: int| 0 <= i < j < after.len() implies (#[trigger] after[i]).id != (
        #[trigger] after[j]).id by {
            if j < entries.len() {
                assert(after[i] == entries[i] && after[j] == entries[j]);
            } else {
                assert(after[i] == entries[i]);
            }
        }
    }
    assert forall|id: u128| #[trigger]
        table(after).contains_key(id) <==> table(entries).insert(
            entry.id,
            entry.model(),
        ).contains_key(id) by {
        if has_entry(after, id) {
            let k = entry_index(after, id);
            if k < entries.len() {
                assert(entries[k].id == id);
            }
        }
        if has_entry(entries, id) {
            let k = entry_index(entries, id);
            assert(after[k].id == id);
        }
        if id == entry.id {
            assert(after[entries.len() as int].id == id);
        }
    }
    assert forall|id: u128| #[trigger] table(after).contains_key(id) implies table(after)[id]
        == table(entries).insert(entry.id, entry.model())[id] by {
        let k = entry_index(after, id);
        lemma_table_at(after, k);
        if k < entries.len() {
            assert(after[k] == entries[k]);
            lemma_table_at(entries, k);
        }
    }
    assert(table(after) =~= table(entries).insert(entry.id, entry.model()));
}

proof fn lemma_table_remove(entries: Seq<ReadyEntry>, i: int)
    requires
        distinct_ids(entries),
        0 <= i < entries.len(),
    ensures
        distinct_ids(entries.remove(i)),
        !has_entry(entries.remove(i), entries[i].id),
        table(entries.remove(i)) == table(entries).remove(entries[i].id),
{
    let after = entries.remove(i);
    assert forall|k: int| 0 <= k < after.len() implies #[trigger] after[k] == entries[if k < i {
        k
    } else {
        k + 1
    }] by {}
    assert(distinct_ids(after)) by {
        assert forall|a: int, b: int| 0 <= a < b < after.len() implies (#[trigger] after[a]).id != (
        #[trigger] after[b]).id by {
            let a0 = if a < i { a } else { a + 1 };
            let b0 = if b < i { b } else { b + 1 };
            assert(after[a] == entries[a0] && after[b] == entries[b0]);
        }
    }
    assert(!has_entry(after, entries[i].id)) by {
        if has_entry(after, entries[i].id) {
            let k = entry_index(after, entries[i].id);
            let k0 = if k < i { k } else { k + 1 };
            assert(after[k] == entries[k0]);
            assert(entries[k0].id == entries[i].id);
            if k0 < i {
                assert(entries[k0].id != entries[i].id);
            } else {
                assert(entries[i].id != entries[k0].id);
            }
        }
    }
    assert forall|id: u128| #[trigger]
        table(after).contains_key(id) <==> table(entries).remove(entries[i].id).contains_key(
            id,
        ) by {
        if has_entry(after, id) {
            let k = entry_index(after, id);
            let k0 = if k < i { k } else { k + 1 };
            assert(after[k] == entries[k0]);
            assert(entries[k0].id == id);
        }
        if has_entry(entries, id) && id != entries[i].id {
            let k = entry_index(entries, id);
            let k1 = if k < i { k } else { k - 1 };
            assert(after[k1] == entries[k]);
            assert(after[k1].id == id);
        }
    }
    assert forall|id: u128| #[trigger] table(after).contains_key(id) implies table(after)[id]
        == table(entries).remove(entries[i].id)[id] by {
        let k = entry_index(after, id);
        let k0 = if k < i { k } else { k + 1 };
        assert(after[k] == entries[k0]);
        lemma_table_at(after, k);
        lemma_table_at(entries, k0);
    }
    assert(table(after) =~= table(entries).remove(entries[i].id));
}


/// The place of an entry that answers the request `id`, if there is one.
fn find_entry(entries: &Vec<ReadyEntry>, id: RequestId) -> (place: Option<usize>)
    ensures
        match place {
            Some(i) => i < entries@.len() && entries@[i as int].id == id,
            None => !has_entry(entries@, id),
        },
{
    let mut i: usize = 0;
    while i < entries.len()
        invariant
            i <= entries@.len(),
            forall|j: int| 0 <= j < i ==> (#[trigger] entries@[j]).id != id,
        decreases entries@.len() - i,
    {
        if entries[i].id == id {
            return Some(i);
        }
        i = i + 1;
    }
    None
}

/// Takes every occurrence of `id` out of a list of identifiers.
fn forget_id(ids: &mut Vec<RequestId>, id: RequestId)
    ensures
        id_set(final(ids)@) == id_set(old(ids)@).remove(id),
{
    let mut i: usize = 0;
    while i < ids.len()
        invariant
            i <= ids@.len(),
            forall|j: int| 0 <= j < i ==> (#[trigger] ids@[j]) != id,
            forall|x: u128| x != id ==> (ids@.contains(x) <==> old(ids)@.contains(x)),
        decreases ids@.len() - i,
    {
        if ids[i] == id {
            let ghost before = ids@;
            ids.remove(i);
            proof {
                assert forall|x: u128| x != id implies (ids@.contains(x) <==> before.contains(
                    x,
                )) by {
                    if before.contains(x) {
                        let k = choose|k: int| 0 <= k < before.len() && before[k] == x;
                        let k1 = if k < i { k } else { k - 1 };
                        assert(ids@[k1] == x);
                    }
                    if ids@.contains(x) {
                        let k = choose|k: int| 0 <= k < ids@.len() && ids@[k] == x;
                        let k0 = if k < i { k } else { k + 1 };
                        assert(before[k0] == x);
                    }
                }
            }
        } else {
            i = i + 1;
        }
    }
    assert(id_set(ids@) =~= id_set(old(ids)@).remove(id));
}

/// The queue of waiting requests, the requests in flight and the table of
/// delivered responses. Every change goes through one of the operations
/// below, and each of them is complete when it returns.
pub struct CorrelationStore {
    queue: VecDeque<PendingRequest>,
    in_flight: Vec<RequestId>,
    ready: Vec<ReadyEntry>,
}

impl View for CorrelationStore {
    type V = StoreModel;

    closed spec fn view(&self) -> StoreModel {
        StoreModel {
            queue: queue_model(self.queue@),
            in_flight: id_set(self.in_flight@),
            ready: table(self.ready@),
        }
    }
}

impl CorrelationStore {
    /// Whether the store is in order inside: no two entries of its table
    /// answer the same request. `new` gives such a store and every operation
    /// keeps it so.
    pub closed spec fn wf(&self) -> bool {
        distinct_ids(self.ready@)
    }

    /// A store that holds nothing.
    pub fn new() -> (store: CorrelationStore)
        ensures
            store.wf(),
            store@ == StoreModel::empty(),
    {
        let store = CorrelationStore {
            queue: VecDeque::new(),
            in_flight: Vec::new(),
            ready: Vec::new(),
        };
        assert(store@.queue =~= Seq::<PendingModel>::empty());
        assert(store@.in_flight =~= Set::<u128>::empty());
        assert(store@.ready =~= Map::<u128, ReadyModel>::empty());
        store
    }

    /// The number of requests that wait in the queue.
    pub fn queue_len(&self) -> (n: usize)
        ensures
            n == self@.queue.len(),
    {
        self.queue.len()
    }

    /// Adds a request at the tail of the queue.
    pub fn enqueue(&mut self, request: PendingRequest)
        requires
            old(self).wf(),
        ensures
            final(self).wf(),
            final(self)@ == old(self)@.enqueue(request@),
    {
        self.queue.push_back(request);
        assert(queue_model(self.queue@) =~= queue_model(old(self).queue@).push(request@));
    }

    /// Takes the oldest waiting request out of the queue, if there is one,
    /// and marks it as in flight. Requests leave in the order in which they
    /// were enqueued.
    pub fn pop_next(&mut self) -> (next: Option<(RequestId, PendingRequest)>)
        requires
            old(self).wf(),
        ensures
            final(self).wf(),
            final(self)@ == old(self)@.pop_next(),
            match next {
                Some((id, request)) => old(self)@.head() == Some(request@) && id == request.id,
                None => old(self)@.head() is None,
            },
    {
        match self.queue.pop_front() {
            Some(request) => {
                let id = request.id;
                self.in_flight.push(id);
                proof {
                    assert(queue_model(self.queue@) =~= queue_model(
                        old(self).queue@,
                    ).drop_first());
                    assert forall|x: u128|
                        self.in_flight@.contains(x) <==> old(self).in_flight@.contains(x) || x
                            == id by {
                        if old(self).in_flight@.contains(x) {
                            let k = choose|k: int|
                                0 <= k < old(self).in_flight@.len() && old(self).in_flight@[k]
                                    == x;
                            assert(self.in_flight@[k] == x);
                        }
                        if x == id {
                            assert(self.in_flight@[old(self).in_flight@.len() as int] == x);
                        }
                    }
                    assert(id_set(self.in_flight@) =~= id_set(old(self).in_flight@).insert(id));
                }
                Some((id, request))
            },
            None => {
                proof {
                    assert(queue_model(self.queue@) =~= queue_model(old(self).queue@));
                }
                None
            },
        }
    }

    /// Withdraws a request: afterwards no request with this identifier waits
    /// in the queue or counts as in flight. Says whether the queue held one.
    pub fn cancel(&mut self, id: RequestId) -> (removed: bool)
        requires
            old(self).wf(),
        ensures
            final(self).wf(),
            final(self)@ == old(self)@.cancel(id),
            removed == old(self)@.queued(id),
            !final(self)@.queued(id),
    {
        let ghost all = queue_model(self.queue@);
        let ghost keep = |p: PendingModel| p.id != id;
        let mut kept: VecDeque<PendingRequest> = VecDeque::new();
        let mut removed = false;
        let ghost mut done: int = 0;
        proof {
            assert(all.take(0) =~= Seq::<PendingModel>::empty());
            assert(queue_model(kept@) =~= all.take(0).filter(keep));
            assert(queue_model(self.queue@) =~= all.skip(0));
        }
        while self.queue.len() > 0
            invariant
                0 <= done <= all.len(),
                keep == |p: PendingModel| p.id != id,
                queue_model(self.queue@) == all.skip(done),
                queue_model(kept@) == all.take(done).filter(keep),
                removed <==> exists|i: int| 0 <= i < done && (#[trigger] all[i]).id == id,
                self.in_flight == old(self).in_flight,
                self.ready == old(self).ready,
            decreases self.queue@.len(),
        {
            let ghost rest = self.queue@;
            let ghost kept_before = kept@;
            match self.queue.pop_front() {
                Some(request) => {
                    proof {
                        reveal(Seq::filter);
                        assert(queue_model(rest).len() == rest.len());
                        assert(all.skip(done).len() == all.len() - done);
                        assert(done < all.len());
                        assert(queue_model(rest)[0] == rest[0]@);
                        assert(queue_model(rest)[0] == all.skip(done)[0]);
                        assert(request@ == all[done]);
                        assert(all.take(done + 1).drop_last() =~= all.take(done));
                        assert(all.take(done + 1).last() == all[done]);
                        assert forall|k: int| 0 <= k < self.queue@.len() implies queue_model(
                            self.queue@,
                        )[k] == all.skip(done + 1)[k] by {
                            assert(self.queue@[k] == rest[k + 1]);
                            assert(queue_model(rest)[k + 1] == all.skip(done)[k + 1]);
                        }
                        assert(queue_model(self.queue@) =~= all.skip(done + 1));
                    }
                    if request.id != id {
                        kept.push_back(request);
                        proof {
                            assert(queue_model(kept@) =~= queue_model(kept_before).push(
                                request@,
                            ));
                        }
                    } else {
                        removed = true;
                    }
                    proof {
                        done = done + 1;
                    }
                },
                None => {},
            }
        }
        self.queue = kept;
        forget_id(&mut self.in_flight, id);
        proof {
            assert(all.take(done) =~= all);
            let after = all.filter(keep);
            assert(!self@.queued(id)) by {
                if self@.queued(id) {
                    let i = choose|i: int| 0 <= i < after.len() && (#[trigger] after[i]).id == id;
                    all.lemma_filter_pred(keep, i);
                }
            }
        }
        removed
    }

    /// Puts a response into the table under `id`, at time `now`, in place of
    /// any response that the table held under `id`, and says whether there
    /// was one. The request no longer counts as in flight. A response for a
    /// request that nobody waits for is kept all the same, until it is stale.
    pub fn deposit(&mut self, id: RequestId, response: ProxiedResponse, now: u64) -> (displaced:
        bool)
        requires
            old(self).wf(),
        ensures
            final(self).wf(),
            final(self)@ == old(self)@.deposit(id, response@, now),
            displaced == old(self)@.ready.contains_key(id),
    {
        let entry = ReadyEntry { id, deposited_at: now, response };
        let displaced = match find_entry(&self.ready, id) {
            Some(i) => {
                proof {
                    lemma_table_at(self.ready@, i as int);
                    lemma_table_remove(self.ready@, i as int);
                }
                self.ready.remove(i);
                true
            },
            None => false,
        };
        proof {
            lemma_table_push(self.ready@, entry);
            assert(table(old(self).ready@).remove(id).insert(id, entry.model()) =~= table(
                old(self).ready@,
            ).insert(id, entry.model()));
        }
        self.ready.push(entry);
        forget_id(&mut self.in_flight, id);
        displaced
    }

    /// Takes the response for `id` out of the table, if there is one.
    pub fn claim(&mut self, id: RequestId) -> (response: Option<ProxiedResponse>)
        requires
            old(self).wf(),
        ensures
            final(self).wf(),
            final(self)@ == old(self)@.claim(id),
            match response {
                Some(r) => old(self)@.claimable(id) == Some(r@),
                None => old(self)@.claimable(id) is None && final(self)@ == old(self)@,
            },
    {
        match find_entry(&self.ready, id) {
            Some(i) => {
                proof {
                    lemma_table_at(self.ready@, i as int);
                    lemma_table_remove(self.ready@, i as int);
                }
                let entry = self.ready.remove(i);
                Some(entry.response)
            },
            None => {
                proof {
                    assert(table(self.ready@).remove(id) =~= table(self.ready@));
                }
                None
            },
        }
    }

    /// Discards the responses that, at time `now`, have sat in the table for
    /// longer than `grace`. The others stay as they are.
    pub fn collect_stale(&mut self, now: u64, grace: u64)
        requires
            old(self).wf(),
        ensures
            final(self).wf(),
            final(self)@ == old(self)@.collect(now, grace),
    {
        let ghost before = table(self.ready@);
        let mut i: usize = 0;
        while i < self.ready.len()
            invariant
                i <= self.ready@.len(),
                distinct_ids(self.ready@),
                self.queue == old(self).queue,
                self.in_flight == old(self).in_flight,
                before == table(old(self).ready@),
                forall|id: u128| #[trigger]
                    table(self.ready@).contains_key(id) ==> before.contains_key(id) && table(
                        self.ready@,
                    )[id] == before[id],
                forall|id: u128| #[trigger]
                    before.contains_key(id) && !before[id].stale(now, grace) ==> table(
                        self.ready@,
                    ).contains_key(id),
                forall|j: int| 0 <= j < i ==> !(#[trigger] self.ready@[j]).model().stale(now, grace),
            decreases self.ready@.len() - i,
        {
            let since = self.ready[i].deposited_at;
            if now > since && now - since > grace {
                proof {
                    lemma_table_at(self.ready@, i as int);
                    lemma_table_remove(self.ready@, i as int);
                }
                self.ready.remove(i);
            } else {
                i = i + 1;
            }
        }
        proof {
            let after = table(self.ready@);
            let wanted = old(self)@.collect(now, grace).ready;
            assert forall|id: u128| after.contains_key(id) implies !before[id].stale(
                now,
                grace,
            ) by {
                let k = entry_index(self.ready@, id);
                lemma_table_at(self.ready@, k);
            }
            assert(after =~= wanted);
        }
    }

    /// Whether a request with this identifier waits in the queue.
    pub fn is_queued(&self, id: RequestId) -> (queued: bool)
        ensures
            queued == self@.queued(id),
    {
        let mut i: usize = 0;
        while i < self.queue.len()
            invariant
                i <= self.queue@.len(),
                forall|j: int| 0 <= j < i ==> (#[trigger] self.queue@[j]).id != id,
            decreases self.queue@.len() - i,
        {
            if self.queue[i].id == id {
                assert(queue_model(self.queue@)[i as int].id == id);
                return true;
            }
            i = i + 1;
        }
        proof {
            if self@.queued(id) {
                let k = choose|k: int|
                    0 <= k < self@.queue.len() && (#[trigger] self@.queue[k]).id == id;
                assert(self.queue@[k].id == id);
            }
        }
        false
    }

    /// Whether the agent has taken the request and not yet answered it.
    pub fn is_in_flight(&self, id: RequestId) -> (flying: bool)
        ensures
            flying == self@.in_flight.contains(id),
    {
        let mut i: usize = 0;
        while i < self.in_flight.len()
            invariant
                i <= self.in_flight@.len(),
                forall|j: int| 0 <= j < i ==> (#[trigger] self.in_flight@[j]) != id,
            decreases self.in_flight@.len() - i,
        {
            if self.in_flight[i] == id {
                return true;
            }
            i = i + 1;
        }
        false
    }

    /// Whether the table holds a response for the request.
    pub fn has_response(&self, id: RequestId) -> (ready: bool)
        ensures
            ready == self@.ready.contains_key(id),
    {
        find_entry(&self.ready, id).is_some()
    }
}

} // verus!
